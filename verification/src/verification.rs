//! The verification scheduler: drives each pending contract-source
//! verification request through `pending -> building -> success | failed`.
//!
//! Per request: mark it building, pick the entry source and the build
//! manifest out of the submitted files, parse the expected code hash, and
//! map the compile outcome — or the hash-parse failure, in which case the
//! compile outcome is ignored — onto a terminal status. A succeeding
//! request also marks its contract verified, as a second, distinct write.

use vstd::prelude::*;
use crate::hexstr::HashParseError;
use crate::hexstr::hash_hex_ok;
use crate::hexstr::hash_parse_error_kind;
use crate::hexstr::parse_code_hash;
use crate::hexstr::parsed_hash;
use crate::models::Contract;
use crate::models::ContractVerification;
use crate::models::SourceFile;
use crate::models::VerificationResult;
use crate::models::VerificationStatus;
use crate::store::Store;
use crate::store::pending_ids_of;
use crate::store::take_at_most;

verus! {

/// How many pending requests one scheduling pass picks up.
pub const VERIFICATION_BATCH_SIZE: usize = 10;

/// Whether a path is one of the conventional entry-source names.
pub open spec fn is_entry_path(p: Seq<char>) -> bool {
    p == "lib.rs"@ || p == "src/lib.rs"@
}

/// The content of the first submitted file under a conventional entry
/// name, or empty text if there is none.
pub open spec fn entry_source_of(files: Seq<SourceFile>) -> Seq<char>
    decreases files.len(),
{
    if files.len() == 0 {
        Seq::empty()
    } else if is_entry_path(files[0].path@) {
        files[0].content@
    } else {
        entry_source_of(files.drop_first())
    }
}

/// The content of the first submitted file named exactly `Cargo.toml`, or
/// empty text if there is none.
pub open spec fn manifest_of(files: Seq<SourceFile>) -> Seq<char>
    decreases files.len(),
{
    if files.len() == 0 {
        Seq::empty()
    } else if files[0].path@ == "Cargo.toml"@ {
        files[0].content@
    } else {
        manifest_of(files.drop_first())
    }
}

/// The failure text naming both hash values.
pub open spec fn mismatch_message(expected: Seq<char>, actual: Seq<char>) -> Seq<char> {
    "Hash mismatch: expected "@ + expected + ", got "@ + actual
}

/// The failure text carrying the build tool's own words.
pub open spec fn compilation_message(detail: Seq<char>) -> Seq<char> {
    "Compilation failed: "@ + detail
}

/// The failure text of a hash that could not be parsed.
pub open spec fn hash_parse_message(k: HashParseError) -> Seq<char> {
    if k == HashParseError::InvalidFormat {
        "Invalid hash format"@
    } else {
        "Invalid hash length"@
    }
}

/// The terminal status a touched request ends in: `Success` exactly when
/// its hash text is well formed and the compile outcome is `Verified`.
pub open spec fn verification_outcome_status(
    v: ContractVerification,
    outcome: Result<VerificationResult, String>,
) -> VerificationStatus {
    if !hash_hex_ok(v.wasm_hash@) {
        VerificationStatus::Failed
    } else {
        match outcome {
            Ok(VerificationResult::Verified { .. }) => VerificationStatus::Success,
            _ => VerificationStatus::Failed,
        }
    }
}

/// The error text a touched request ends with, if any.
pub open spec fn verification_outcome_message(
    v: ContractVerification,
    outcome: Result<VerificationResult, String>,
) -> Option<Seq<char>> {
    if !hash_hex_ok(v.wasm_hash@) {
        Some(hash_parse_message(hash_parse_error_kind(v.wasm_hash@)))
    } else {
        match outcome {
            Ok(VerificationResult::Verified { .. }) => None,
            Ok(VerificationResult::HashMismatch { expected, actual }) => Some(
                mismatch_message(expected@, actual@),
            ),
            Ok(VerificationResult::CompilationFailed(detail)) => Some(compilation_message(detail@)),
            Err(m) => Some(m@),
        }
    }
}

/// The verification time a touched request ends with: set exactly on success.
pub open spec fn verification_outcome_verified_at(
    v: ContractVerification,
    outcome: Result<VerificationResult, String>,
    now: i64,
) -> Option<i64> {
    if verification_outcome_status(v, outcome) == VerificationStatus::Success {
        Some(now)
    } else {
        None
    }
}

/// Whether a touched request succeeds.
pub open spec fn outcome_success(
    v: ContractVerification,
    outcome: Result<VerificationResult, String>,
) -> bool {
    verification_outcome_status(v, outcome) == VerificationStatus::Success
}

/// Whether an optional stored text carries exactly an optional specified text.
pub open spec fn message_matches(m: Option<String>, s: Option<Seq<char>>) -> bool {
    match m {
        Some(t) => match s {
            Some(u) => t@ == u,
            None => false,
        },
        None => match s {
            Some(_) => false,
            None => true,
        },
    }
}

/// How a request looks once one scheduling pass has finished with it:
/// terminal status, message and verification time as the outcome dictates,
/// everything else untouched.
pub open spec fn finished_form(
    v_old: ContractVerification,
    v_new: ContractVerification,
    outcome: Result<VerificationResult, String>,
    now: i64,
) -> bool {
    &&& v_new.status == verification_outcome_status(v_old, outcome)
    &&& message_matches(v_new.error_message, verification_outcome_message(v_old, outcome))
    &&& v_new.verified_at == verification_outcome_verified_at(v_old, outcome, now)
    &&& v_new.id == v_old.id
    &&& v_new.contract_address == v_old.contract_address
    &&& v_new.wasm_hash == v_old.wasm_hash
    &&& v_new.metadata == v_old.metadata
    &&& v_new.source_files == v_old.source_files
    &&& v_new.compiler_version == v_old.compiler_version
    &&& v_new.created_at == v_old.created_at
}

/// A request ready for the compile step, or one rejected before it.
pub enum PreparedVerification {
    Compile { entry_source: String, manifest: String, expected_hash: Vec<u8> },
    Invalid { message: String },
}

fn mismatch_message_text(expected: &String, actual: &String) -> (m: String)
    ensures
        m@ == mismatch_message(expected@, actual@),
{
    let mut m = String::from_str("Hash mismatch: expected ");
    m.append(expected.as_str());
    m.append(", got ");
    m.append(actual.as_str());
    m
}

fn compilation_message_text(detail: &String) -> (m: String)
    ensures
        m@ == compilation_message(detail@),
{
    let mut m = String::from_str("Compilation failed: ");
    m.append(detail.as_str());
    m
}

fn hash_parse_message_text(k: HashParseError) -> (m: String)
    ensures
        m@ == hash_parse_message(k),
{
    match k {
        HashParseError::InvalidFormat => String::from_str("Invalid hash format"),
        HashParseError::InvalidLength => String::from_str("Invalid hash length"),
    }
}

/// Picks the entry source out of the submitted files: first file named
/// `lib.rs` or `src/lib.rs` wins; empty text if none is.
#[verifier::loop_isolation(false)]
pub fn find_entry_source(files: &Vec<SourceFile>) -> (r: String)
    ensures
        r@ == entry_source_of(files@),
{
    let lib_name = String::from_str("lib.rs");
    let nested_name = String::from_str("src/lib.rs");
    let n = files.len();
    let mut i: usize = 0;
    proof {
        assert(files@.skip(0) =~= files@);
    }
    while i < n
        invariant
            i <= n,
            entry_source_of(files@) == entry_source_of(files@.skip(i as int)),
        decreases n - i,
    {
        proof {
            assert(files@.skip(i as int)[0] == files@[i as int]);
            assert(files@.skip(i as int).drop_first() =~= files@.skip(i + 1));
        }
        let f = &files[i];
        if f.path.eq(&lib_name) || f.path.eq(&nested_name) {
            return f.content.clone();
        }
        i = i + 1;
    }
    String::new()
}

/// Picks the build manifest out of the submitted files: first file named
/// exactly `Cargo.toml`; empty text if none is.
#[verifier::loop_isolation(false)]
pub fn find_manifest(files: &Vec<SourceFile>) -> (r: String)
    ensures
        r@ == manifest_of(files@),
{
    let manifest_name = String::from_str("Cargo.toml");
    let n = files.len();
    let mut i: usize = 0;
    proof {
        assert(files@.skip(0) =~= files@);
    }
    while i < n
        invariant
            i <= n,
            manifest_of(files@) == manifest_of(files@.skip(i as int)),
        decreases n - i,
    {
        proof {
            assert(files@.skip(i as int)[0] == files@[i as int]);
            assert(files@.skip(i as int).drop_first() =~= files@.skip(i + 1));
        }
        let f = &files[i];
        if f.path.eq(&manifest_name) {
            return f.content.clone();
        }
        i = i + 1;
    }
    String::new()
}

/// Prepares one request for the compile step: picks entry source and
/// manifest and parses the expected hash. A hash text that is not exactly
/// 32 bytes of hex rejects the request before any compile.
pub fn plan_verification(v: &ContractVerification) -> (p: PreparedVerification)
    ensures
        hash_hex_ok(v.wasm_hash@) ==> (p matches PreparedVerification::Compile {
            entry_source,
            manifest,
            expected_hash,
        } && entry_source@ == entry_source_of(v.source_files@) && manifest@ == manifest_of(
            v.source_files@,
        ) && expected_hash@ == parsed_hash(v.wasm_hash@) && expected_hash@.len() == 32),
        !hash_hex_ok(v.wasm_hash@) ==> (p matches PreparedVerification::Invalid { message }
            && message@ == hash_parse_message(hash_parse_error_kind(v.wasm_hash@))),
{
    match parse_code_hash(v.wasm_hash.as_str()) {
        Ok(expected_hash) => {
            let entry_source = find_entry_source(&v.source_files);
            let manifest = find_manifest(&v.source_files);
            PreparedVerification::Compile { entry_source, manifest, expected_hash }
        },
        Err(k) => PreparedVerification::Invalid { message: hash_parse_message_text(k) },
    }
}

/// Drives one request to its terminal status. `outcome` is what the
/// external compile-and-compare step reported; when the request's hash text
/// is malformed the request fails on that alone and `outcome` is ignored.
/// On success the request's contract is marked verified as a second write.
/// Returns whether a request with that id was found.
pub fn run_verification(
    store: &mut Store,
    id: i32,
    outcome: Result<VerificationResult, String>,
    now: i64,
) -> (applied: bool)
    requires
        old(store).wf(),
    ensures
        final(store).wf(),
        applied == old(store).has_verification(id),
        final(store).verifications@.len() == old(store).verifications@.len(),
        forall|i: int|
            0 <= i < old(store).verifications@.len() && old(store).verifications@[i].id != id
                ==> final(store).verifications@[i] == old(store).verifications@[i],
        forall|i: int|
            0 <= i < old(store).verifications@.len() && old(store).verifications@[i].id == id
                ==> finished_form(
                old(store).verifications@[i],
                #[trigger] final(store).verifications@[i],
                outcome,
                now,
            ),
        forall|i: int|
            0 <= i < old(store).verifications@.len() && (#[trigger] old(
                store,
            ).verifications@[i]).id == id ==> final(store).verifications@[i].status
                == VerificationStatus::Success || final(store).verifications@[i].status
                == VerificationStatus::Failed,
        final(store).contracts@.len() == old(store).contracts@.len(),
        !applied ==> final(store).contracts@ == old(store).contracts@,
        forall|i: int, j: int|
            #![trigger old(store).verifications@[i], final(store).contracts@[j]]
            0 <= i < old(store).verifications@.len() && 0 <= j < old(store).contracts@.len() && old(
                store,
            ).verifications@[i].id == id ==> final(store).contracts@[j] == (
            if outcome_success(old(store).verifications@[i], outcome) && old(
                store,
            ).contracts@[j].address@ == old(store).verifications@[i].contract_address@ {
                Contract { verified: true, ..old(store).contracts@[j] }
            } else {
                old(store).contracts@[j]
            }),
        final(store).blocks@ == old(store).blocks@,
        final(store).extrinsics@ == old(store).extrinsics@,
        final(store).events@ == old(store).events@,
{
    let prepared: PreparedVerification;
    let address: String;
    match store.get_verification(id) {
        Some(v) => {
            prepared = plan_verification(v);
            address = v.contract_address.clone();
        },
        None => {
            return false;
        },
    }
    let _ = store.set_verification_status(id, VerificationStatus::Building, None, None);
    match prepared {
        PreparedVerification::Compile { entry_source: _, manifest: _, expected_hash: _ } => {
            match outcome {
                Ok(result) => match result {
                    VerificationResult::Verified { code_hash: _, metadata: _ } => {
                        let _ = store.set_verification_status(
                            id,
                            VerificationStatus::Success,
                            None,
                            Some(now),
                        );
                        let _ = store.set_contract_verified(&address);
                    },
                    VerificationResult::HashMismatch { expected, actual } => {
                        let m = mismatch_message_text(&expected, &actual);
                        let _ = store.set_verification_status(
                            id,
                            VerificationStatus::Failed,
                            Some(m),
                            None,
                        );
                    },
                    VerificationResult::CompilationFailed(detail) => {
                        let m = compilation_message_text(&detail);
                        let _ = store.set_verification_status(
                            id,
                            VerificationStatus::Failed,
                            Some(m),
                            None,
                        );
                    },
                },
                Err(m) => {
                    let _ = store.set_verification_status(
                        id,
                        VerificationStatus::Failed,
                        Some(m),
                        None,
                    );
                },
            }
        },
        PreparedVerification::Invalid { message } => {
            let _ = store.set_verification_status(
                id,
                VerificationStatus::Failed,
                Some(message),
                None,
            );
        },
    }
    true
}

/// The pending requests (ids with distinct records) one pass picks up.
pub open spec fn scheduled_batch(s: Store) -> Seq<i32> {
    take_at_most(pending_ids_of(s.verifications@), VERIFICATION_BATCH_SIZE as int)
}

/// Under distinct record ids, the pending ids are distinct, and each names
/// a pending record.
pub proof fn lemma_pending_ids_wf(vs: Seq<ContractVerification>)
    requires
        forall|i: int, j: int| 0 <= i < j < vs.len() ==> vs[i].id != vs[j].id,
    ensures
        forall|p: int|
            0 <= p < pending_ids_of(vs).len() ==> exists|i: int|
                0 <= i < vs.len() && vs[i].id == #[trigger] pending_ids_of(vs)[p] && vs[i].status
                    == VerificationStatus::Pending,
        forall|p: int, q: int|
            0 <= p < q < pending_ids_of(vs).len() ==> pending_ids_of(vs)[p] != pending_ids_of(
                vs,
            )[q],
    decreases vs.len(),
{
    if vs.len() > 0 {
        let front = vs.drop_last();
        assert(forall|i: int, j: int| 0 <= i < j < front.len() ==> front[i].id != front[j].id);
        lemma_pending_ids_wf(front);
        let pend = pending_ids_of(vs);
        let pf = pending_ids_of(front);
        assert(forall|i: int| 0 <= i < front.len() ==> front[i] == vs[i]);
        assert forall|p: int|
            0 <= p < pend.len() implies exists|i: int|
            0 <= i < vs.len() && vs[i].id == #[trigger] pend[p] && vs[i].status
                == VerificationStatus::Pending by {
            if p < pf.len() {
                assert(pend[p] == pf[p]);
                let i = choose|i: int|
                    0 <= i < front.len() && front[i].id == pf[p] && front[i].status
                        == VerificationStatus::Pending;
                assert(vs[i].id == pend[p] && vs[i].status == VerificationStatus::Pending);
            } else {
                assert(vs.last().status == VerificationStatus::Pending);
                assert(pend[p] == vs.last().id);
                assert(vs[vs.len() - 1] == vs.last());
            }
        }
        assert forall|p: int, q: int| 0 <= p < q < pend.len() implies pend[p] != pend[q] by {
            if q < pf.len() {
                assert(pend[p] == pf[p] && pend[q] == pf[q]);
            } else {
                assert(pend[q] == vs.last().id);
                assert(pend[p] == pf[p]);
                let i = choose|i: int|
                    0 <= i < front.len() && front[i].id == pf[p] && front[i].status
                        == VerificationStatus::Pending;
                assert(vs[i].id != vs[vs.len() - 1].id);
            }
        }
    }
}

/// Whether one of the first `upto` scheduled requests succeeds and names
/// this contract's address.
pub open spec fn contract_marked(
    s0: Store,
    ids: Seq<i32>,
    outcomes: Seq<Result<VerificationResult, String>>,
    c: Contract,
    upto: int,
) -> bool {
    exists|p: int, i: int|
        0 <= p < upto && p < ids.len() && p < outcomes.len() && 0 <= i < s0.verifications@.len()
            && (#[trigger] s0.verifications@[i]).id == ids[p] && outcome_success(
            s0.verifications@[i],
            #[trigger] outcomes[p],
        ) && s0.verifications@[i].contract_address@ == c.address@
}

/// One scheduling pass: picks up the oldest pending requests, at most
/// `VERIFICATION_BATCH_SIZE` of them, and drives each — strictly in order —
/// to a terminal status using the corresponding compile outcome. Every
/// request the pass touches ends in `Success` or `Failed`, never in
/// `Building`; every untouched record is unchanged; a contract is marked
/// verified exactly when a touched request over its address succeeds.
#[verifier::loop_isolation(false)]
#[verifier::rlimit(30)]
pub fn process_pending_verifications(
    store: &mut Store,
    outcomes: Vec<Result<VerificationResult, String>>,
    now: i64,
) -> (ids: Vec<i32>)
    requires
        old(store).wf(),
        outcomes@.len() >= scheduled_batch(*old(store)).len(),
    ensures
        final(store).wf(),
        ids@ == scheduled_batch(*old(store)),
        final(store).verifications@.len() == old(store).verifications@.len(),
        forall|p: int, i: int|
            #![trigger ids@[p], old(store).verifications@[i]]
            0 <= p < ids@.len() && 0 <= i < old(store).verifications@.len() && old(
                store,
            ).verifications@[i].id == ids@[p] ==> finished_form(
                old(store).verifications@[i],
                final(store).verifications@[i],
                outcomes@[p],
                now,
            ),
        forall|p: int, i: int|
            #![trigger ids@[p], old(store).verifications@[i]]
            0 <= p < ids@.len() && 0 <= i < old(store).verifications@.len() && old(
                store,
            ).verifications@[i].id == ids@[p] ==> final(store).verifications@[i].status
                == VerificationStatus::Success || final(store).verifications@[i].status
                == VerificationStatus::Failed,
        forall|i: int|
            0 <= i < old(store).verifications@.len() && (forall|p: int|
                0 <= p < ids@.len() ==> old(store).verifications@[i].id != ids@[p])
                ==> final(store).verifications@[i] == old(store).verifications@[i],
        forall|j: int|
            0 <= j < old(store).contracts@.len() ==> final(store).contracts@[j] == (
            if contract_marked(*old(store), ids@, outcomes@, old(store).contracts@[j], ids@.len() as int) {
                Contract { verified: true, ..old(store).contracts@[j] }
            } else {
                old(store).contracts@[j]
            }),
        final(store).blocks@ == old(store).blocks@,
        final(store).extrinsics@ == old(store).extrinsics@,
        final(store).events@ == old(store).events@,
{
    proof {
        lemma_pending_ids_wf(old(store).verifications@);
    }
    let ids = store.fetch_pending(VERIFICATION_BATCH_SIZE);
    let mut rest = outcomes;
    let n = ids.len();
    let mut p: usize = 0;
    while p < n
        invariant
            p <= n,
            n == ids@.len(),
            ids@ == scheduled_batch(*old(store)),
            store.wf(),
            store.verifications@.len() == old(store).verifications@.len(),
            store.contracts@.len() == old(store).contracts@.len(),
            rest@.len() == outcomes@.len() - p,
            forall|q: int| 0 <= q < rest@.len() ==> rest@[q] == outcomes@[p + q],
            forall|p2: int, i: int|
                #![trigger ids@[p2], old(store).verifications@[i]]
                0 <= p2 < p && 0 <= i < old(store).verifications@.len() && old(
                    store,
                ).verifications@[i].id == ids@[p2] ==> finished_form(
                    old(store).verifications@[i],
                    store.verifications@[i],
                    outcomes@[p2],
                    now,
                ),
            forall|i: int|
                0 <= i < old(store).verifications@.len() && (forall|p2: int|
                    0 <= p2 < p ==> old(store).verifications@[i].id != ids@[p2])
                    ==> store.verifications@[i] == old(store).verifications@[i],
            forall|j: int|
                0 <= j < old(store).contracts@.len() ==> store.contracts@[j] == (
                if contract_marked(*old(store), ids@, outcomes@, old(store).contracts@[j], p as int) {
                    Contract { verified: true, ..old(store).contracts@[j] }
                } else {
                    old(store).contracts@[j]
                }),
            store.blocks@ == old(store).blocks@,
            store.extrinsics@ == old(store).extrinsics@,
            store.events@ == old(store).events@,
        decreases n - p,
    {
        let id = ids[p];
        let ghost pre = *store;
        let outcome = rest.remove(0);
        proof {
            assert(outcome == outcomes@[p as int]);
            assert(forall|q: int| 0 <= q < rest@.len() ==> rest@[q] == outcomes@[p + 1 + q]);
            // the record this id names is still untouched by earlier iterations
            assert(exists|i: int|
                0 <= i < old(store).verifications@.len() && old(store).verifications@[i].id
                    == #[trigger] pending_ids_of(old(store).verifications@)[p as int]
                    && old(store).verifications@[i].status == VerificationStatus::Pending);
        }
        let ghost iw = choose|i: int|
            0 <= i < old(store).verifications@.len() && old(store).verifications@[i].id == id
                && old(store).verifications@[i].status == VerificationStatus::Pending;
        proof {
            assert forall|p2: int| 0 <= p2 < p implies old(store).verifications@[iw].id
                != ids@[p2] by {
                assert(pending_ids_of(old(store).verifications@)[p2] != pending_ids_of(
                    old(store).verifications@,
                )[p as int]);
            }
            assert(pre.verifications@[iw] == old(store).verifications@[iw]);
        }
        let _ = run_verification(store, id, outcome, now);
        proof {
            assert forall|j: int| 0 <= j < old(store).contracts@.len() implies store.contracts@[j]
                == (if contract_marked(
                *old(store),
                ids@,
                outcomes@,
                old(store).contracts@[j],
                p + 1,
            ) {
                Contract { verified: true, ..old(store).contracts@[j] }
            } else {
                old(store).contracts@[j]
            }) by {
                let c0 = old(store).contracts@[j];
                assert(0 <= iw < pre.verifications@.len() && pre.verifications@[iw].id == id);
                assert(store.contracts@[j] == (if outcome_success(pre.verifications@[iw], outcome)
                    && pre.contracts@[j].address@ == pre.verifications@[iw].contract_address@ {
                    Contract { verified: true, ..pre.contracts@[j] }
                } else {
                    pre.contracts@[j]
                }));
                if contract_marked(*old(store), ids@, outcomes@, c0, p as int) {
                    assert(contract_marked(*old(store), ids@, outcomes@, c0, p + 1));
                    assert(pre.contracts@[j] == Contract { verified: true, ..c0 });
                    assert(store.contracts@[j] == Contract { verified: true, ..c0 });
                } else {
                    assert(pre.contracts@[j] == c0);
                    if outcome_success(pre.verifications@[iw], outcome)
                        && pre.contracts@[j].address@ == pre.verifications@[iw].contract_address@ {
                        assert(contract_marked(*old(store), ids@, outcomes@, c0, p + 1));
                        assert(store.contracts@[j] == Contract { verified: true, ..c0 });
                    } else {
                        assert(store.contracts@[j] == pre.contracts@[j]);
                        if contract_marked(*old(store), ids@, outcomes@, c0, p + 1) {
                            let (p2, i2) = choose|p2: int, i2: int|
                                0 <= p2 < p + 1 && p2 < ids@.len() && p2 < outcomes@.len() && 0
                                    <= i2 < old(store).verifications@.len() && (#[trigger] old(
                                    store,
                                ).verifications@[i2]).id == ids@[p2] && outcome_success(
                                    old(store).verifications@[i2],
                                    #[trigger] outcomes@[p2],
                                ) && old(store).verifications@[i2].contract_address@ == c0.address@;
                            assert(p2 == p);
                            assert(i2 == iw);
                            assert(false);
                        }
                    }
                }
            }
        }
        p = p + 1;
    }
    ids
}

} // verus!
