//! The relational store as the two workers see it: append-only tables for
//! blocks, extrinsics and events with idempotent keyed inserts, plus the
//! status updates the verification scheduler performs.
//!
//! An insert under a unique key that is already present leaves the store
//! unchanged and reports the conflict instead of failing; resumption safety
//! after a reconnect rests entirely on that.

use vstd::prelude::*;
use crate::models::Block;
use crate::models::Contract;
use crate::models::ContractVerification;
use crate::models::Event;
use crate::models::EventInput;
use crate::models::Extrinsic;
use crate::models::ExtrinsicInput;
use crate::models::VerificationStatus;

verus! {

/// Whether an extrinsic row under the unique key `(block_number, index)` is present.
pub open spec fn has_ext_key(rows: Seq<Extrinsic>, block_number: i64, index: i32) -> bool {
    exists|i: int|
        0 <= i < rows.len() && rows[i].block_number == block_number && rows[i].index == index
}

/// Whether an event row under the unique key `(block_number, index)` is present.
pub open spec fn has_event_key(rows: Seq<Event>, block_number: i64, index: i32) -> bool {
    exists|i: int|
        0 <= i < rows.len() && rows[i].block_number == block_number && rows[i].index == index
}

/// The extrinsic row an insert produces from a decoded extrinsic.
pub open spec fn ext_row(
    id: i64,
    block_number: i64,
    x: ExtrinsicInput,
    created_at: i64,
) -> Extrinsic {
    Extrinsic {
        id,
        block_number,
        index: x.index as i32,
        hash: x.hash,
        signer: x.signer,
        pallet: x.pallet,
        call: x.call,
        args: x.args,
        success: x.success,
        created_at,
    }
}

/// The event row an insert produces from a decoded event and its assigned index.
pub open spec fn event_row(
    id: i64,
    block_number: i64,
    index: i32,
    e: EventInput,
    created_at: i64,
) -> Event {
    Event {
        id,
        block_number,
        extrinsic_id: None,
        index,
        pallet: e.pallet,
        method: e.method,
        data: e.data,
        created_at,
    }
}

/// A verification record with its scheduler-owned fields rewritten.
pub open spec fn updated_verification(
    v: ContractVerification,
    status: VerificationStatus,
    error_message: Option<String>,
    verified_at: Option<i64>,
) -> ContractVerification {
    ContractVerification { status, error_message, verified_at, ..v }
}

/// The ids of the pending verification requests, in store order (which the
/// store invariant keeps equal to creation order).
pub open spec fn pending_ids_of(vs: Seq<ContractVerification>) -> Seq<i32>
    decreases vs.len(),
{
    if vs.len() == 0 {
        Seq::empty()
    } else {
        let rest = pending_ids_of(vs.drop_last());
        if vs.last().status == VerificationStatus::Pending {
            rest.push(vs.last().id)
        } else {
            rest
        }
    }
}

/// The extrinsic rows of one block, in store order.
pub open spec fn exts_of(rows: Seq<Extrinsic>, number: i64) -> Seq<Extrinsic>
    decreases rows.len(),
{
    if rows.len() == 0 {
        Seq::empty()
    } else {
        let rest = exts_of(rows.drop_last(), number);
        if rows.last().block_number == number {
            rest.push(rows.last())
        } else {
            rest
        }
    }
}

/// The event rows of one block, in store order.
pub open spec fn events_of(rows: Seq<Event>, number: i64) -> Seq<Event>
    decreases rows.len(),
{
    if rows.len() == 0 {
        Seq::empty()
    } else {
        let rest = events_of(rows.drop_last(), number);
        if rows.last().block_number == number {
            rest.push(rows.last())
        } else {
            rest
        }
    }
}

/// The first `n` elements, or all of them if there are fewer.
pub open spec fn take_at_most<A>(s: Seq<A>, n: int) -> Seq<A> {
    if s.len() <= n {
        s
    } else {
        s.take(n)
    }
}

/// The store: one growable table per record kind.
pub struct Store {
    pub blocks: Vec<Block>,
    pub extrinsics: Vec<Extrinsic>,
    pub events: Vec<Event>,
    pub contracts: Vec<Contract>,
    pub verifications: Vec<ContractVerification>,
}

#[verifier::loop_isolation(false)]
impl Store {
    /// Well-formedness: every unique key is unique, and verification
    /// requests sit in creation order.
    pub open spec fn wf(self) -> bool {
        &&& forall|i: int, j: int|
            0 <= i < j < self.blocks@.len() ==> self.blocks@[i].number != self.blocks@[j].number
        &&& forall|i: int, j: int|
            0 <= i < j < self.extrinsics@.len() ==> !(self.extrinsics@[i].block_number
                == self.extrinsics@[j].block_number && self.extrinsics@[i].index
                == self.extrinsics@[j].index)
        &&& forall|i: int, j: int|
            0 <= i < j < self.events@.len() ==> !(self.events@[i].block_number
                == self.events@[j].block_number && self.events@[i].index
                == self.events@[j].index)
        &&& forall|i: int, j: int|
            0 <= i < j < self.contracts@.len() ==> self.contracts@[i].address@
                != self.contracts@[j].address@
        &&& forall|i: int, j: int|
            0 <= i < j < self.verifications@.len() ==> self.verifications@[i].id
                != self.verifications@[j].id
        &&& forall|i: int, j: int|
            0 <= i < j < self.verifications@.len() ==> self.verifications@[i].created_at
                <= self.verifications@[j].created_at
    }

    pub open spec fn has_block(self, number: i64) -> bool {
        exists|i: int| 0 <= i < self.blocks@.len() && self.blocks@[i].number == number
    }

    pub open spec fn has_contract(self, address: Seq<char>) -> bool {
        exists|i: int| 0 <= i < self.contracts@.len() && self.contracts@[i].address@ == address
    }

    pub open spec fn has_verification(self, id: i32) -> bool {
        exists|i: int| 0 <= i < self.verifications@.len() && self.verifications@[i].id == id
    }

    /// An empty store.
    pub fn new() -> (s: Store)
        ensures
            s.wf(),
            s.blocks@.len() == 0,
            s.extrinsics@.len() == 0,
            s.events@.len() == 0,
            s.contracts@.len() == 0,
            s.verifications@.len() == 0,
    {
        Store {
            blocks: Vec::new(),
            extrinsics: Vec::new(),
            events: Vec::new(),
            contracts: Vec::new(),
            verifications: Vec::new(),
        }
    }

    /// Idempotent insert of a block row keyed by its number: a conflict
    /// leaves the store unchanged and is reported, not failed.
    pub fn insert_block(&mut self, b: Block) -> (inserted: bool)
        requires
            old(self).wf(),
        ensures
            final(self).wf(),
            inserted == !old(self).has_block(b.number),
            inserted ==> final(self).blocks@ == old(self).blocks@.push(b),
            !inserted ==> final(self).blocks@ == old(self).blocks@,
            final(self).extrinsics@ == old(self).extrinsics@,
            final(self).events@ == old(self).events@,
            final(self).contracts@ == old(self).contracts@,
            final(self).verifications@ == old(self).verifications@,
    {
        let n = self.blocks.len();
        let mut i: usize = 0;
        while i < n
            invariant
                i <= n,
                n == self.blocks@.len(),
                forall|j: int| 0 <= j < i ==> self.blocks@[j].number != b.number,
            decreases n - i,
        {
            if self.blocks[i].number == b.number {
                return false;
            }
            i = i + 1;
        }
        self.blocks.push(b);
        true
    }

    /// Idempotent insert of an extrinsic row keyed by `(block_number, index)`.
    /// Returns the id of a newly created row, and `None` on a conflict.
    pub fn insert_extrinsic(&mut self, block_number: i64, x: ExtrinsicInput, created_at: i64) -> (r:
        Option<i64>)
        requires
            old(self).wf(),
            x.index <= i32::MAX,
            old(self).extrinsics@.len() < i64::MAX,
        ensures
            final(self).wf(),
            r is Some <==> !has_ext_key(old(self).extrinsics@, block_number, x.index as i32),
            r matches Some(id) ==> id == old(self).extrinsics@.len() + 1
                && final(self).extrinsics@ == old(self).extrinsics@.push(
                ext_row(id, block_number, x, created_at),
            ),
            r is None ==> final(self).extrinsics@ == old(self).extrinsics@,
            final(self).blocks@ == old(self).blocks@,
            final(self).events@ == old(self).events@,
            final(self).contracts@ == old(self).contracts@,
            final(self).verifications@ == old(self).verifications@,
    {
        let index = x.index as i32;
        let n = self.extrinsics.len();
        let mut i: usize = 0;
        while i < n
            invariant
                i <= n,
                n == self.extrinsics@.len(),
                forall|j: int|
                    0 <= j < i ==> !(self.extrinsics@[j].block_number == block_number
                        && self.extrinsics@[j].index == index),
            decreases n - i,
        {
            let row = &self.extrinsics[i];
            if row.block_number == block_number && row.index == index {
                return None;
            }
            i = i + 1;
        }
        let id = n as i64 + 1;
        self.extrinsics.push(
            Extrinsic {
                id,
                block_number,
                index,
                hash: x.hash,
                signer: x.signer,
                pallet: x.pallet,
                call: x.call,
                args: x.args,
                success: x.success,
                created_at,
            },
        );
        Some(id)
    }

    /// Idempotent insert of an event row keyed by `(block_number, index)`.
    pub fn insert_event(&mut self, block_number: i64, index: i32, e: EventInput, created_at: i64) -> (
        inserted: bool)
        requires
            old(self).wf(),
            old(self).events@.len() < i64::MAX,
        ensures
            final(self).wf(),
            inserted == !has_event_key(old(self).events@, block_number, index),
            inserted ==> final(self).events@ == old(self).events@.push(
                event_row((old(self).events@.len() + 1) as i64, block_number, index, e, created_at),
            ),
            !inserted ==> final(self).events@ == old(self).events@,
            final(self).blocks@ == old(self).blocks@,
            final(self).extrinsics@ == old(self).extrinsics@,
            final(self).contracts@ == old(self).contracts@,
            final(self).verifications@ == old(self).verifications@,
    {
        let n = self.events.len();
        let mut i: usize = 0;
        while i < n
            invariant
                i <= n,
                n == self.events@.len(),
                forall|j: int|
                    0 <= j < i ==> !(self.events@[j].block_number == block_number
                        && self.events@[j].index == index),
            decreases n - i,
        {
            let row = &self.events[i];
            if row.block_number == block_number && row.index == index {
                return false;
            }
            i = i + 1;
        }
        let id = n as i64 + 1;
        self.events.push(
            Event {
                id,
                block_number,
                extrinsic_id: None,
                index,
                pallet: e.pallet,
                method: e.method,
                data: e.data,
                created_at,
            },
        );
        true
    }

    /// The highest block number present, if any block is.
    pub fn latest_block_number(&self) -> (r: Option<i64>)
        ensures
            r is Some <==> self.blocks@.len() > 0,
            r matches Some(m) ==> self.has_block(m) && forall|i: int|
                0 <= i < self.blocks@.len() ==> self.blocks@[i].number <= m,
    {
        if self.blocks.len() == 0 {
            return None;
        }
        let n = self.blocks.len();
        let mut best = self.blocks[0].number;
        let mut i: usize = 1;
        while i < n
            invariant
                1 <= i <= n,
                n == self.blocks@.len(),
                exists|j: int| 0 <= j < i && self.blocks@[j].number == best,
                forall|j: int| 0 <= j < i ==> self.blocks@[j].number <= best,
            decreases n - i,
        {
            if self.blocks[i].number > best {
                best = self.blocks[i].number;
            }
            i = i + 1;
        }
        Some(best)
    }

    /// The block row with the given number, if present.
    pub fn get_block(&self, number: i64) -> (r: Option<&Block>)
        ensures
            r is Some <==> self.has_block(number),
            r matches Some(b) ==> b.number == number && exists|i: int|
                0 <= i < self.blocks@.len() && self.blocks@[i] == *b,
    {
        let n = self.blocks.len();
        let mut i: usize = 0;
        while i < n
            invariant
                i <= n,
                n == self.blocks@.len(),
                forall|j: int| 0 <= j < i ==> self.blocks@[j].number != number,
            decreases n - i,
        {
            if self.blocks[i].number == number {
                return Some(&self.blocks[i]);
            }
            i = i + 1;
        }
        None
    }

    /// The extrinsic rows of one block, in store order.
    pub fn extrinsics_of_block(&self, number: i64) -> (r: Vec<Extrinsic>)
        ensures
            r@ == exts_of(self.extrinsics@, number),
    {
        let n = self.extrinsics.len();
        let mut r: Vec<Extrinsic> = Vec::new();
        let mut i: usize = 0;
        while i < n
            invariant
                i <= n,
                n == self.extrinsics@.len(),
                r@ == exts_of(self.extrinsics@.take(i as int), number),
            decreases n - i,
        {
            proof {
                assert(self.extrinsics@.take(i + 1).drop_last() =~= self.extrinsics@.take(i as int));
                assert(self.extrinsics@.take(i + 1).last() == self.extrinsics@[i as int]);
            }
            if self.extrinsics[i].block_number == number {
                r.push(self.extrinsics[i].clone());
            }
            i = i + 1;
        }
        proof {
            assert(self.extrinsics@.take(n as int) =~= self.extrinsics@);
        }
        r
    }

    /// The event rows of one block, in store order.
    pub fn events_of_block(&self, number: i64) -> (r: Vec<Event>)
        ensures
            r@ == events_of(self.events@, number),
    {
        let n = self.events.len();
        let mut r: Vec<Event> = Vec::new();
        let mut i: usize = 0;
        while i < n
            invariant
                i <= n,
                n == self.events@.len(),
                r@ == events_of(self.events@.take(i as int), number),
            decreases n - i,
        {
            proof {
                assert(self.events@.take(i + 1).drop_last() =~= self.events@.take(i as int));
                assert(self.events@.take(i + 1).last() == self.events@[i as int]);
            }
            if self.events[i].block_number == number {
                r.push(self.events[i].clone());
            }
            i = i + 1;
        }
        proof {
            assert(self.events@.take(n as int) =~= self.events@);
        }
        r
    }

    /// Registers a deployed contract, keyed by its address.
    pub fn add_contract(&mut self, c: Contract) -> (inserted: bool)
        requires
            old(self).wf(),
        ensures
            final(self).wf(),
            inserted == !old(self).has_contract(c.address@),
            inserted ==> final(self).contracts@ == old(self).contracts@.push(c),
            !inserted ==> final(self).contracts@ == old(self).contracts@,
            final(self).blocks@ == old(self).blocks@,
            final(self).extrinsics@ == old(self).extrinsics@,
            final(self).events@ == old(self).events@,
            final(self).verifications@ == old(self).verifications@,
    {
        let n = self.contracts.len();
        let mut i: usize = 0;
        while i < n
            invariant
                i <= n,
                n == self.contracts@.len(),
                forall|j: int| 0 <= j < i ==> self.contracts@[j].address@ != c.address@,
            decreases n - i,
        {
            if self.contracts[i].address.eq(&c.address) {
                return false;
            }
            i = i + 1;
        }
        self.contracts.push(c);
        true
    }

    /// Registers a verification request. Accepted only under a fresh id and
    /// a creation time no earlier than every present request.
    pub fn add_verification(&mut self, v: ContractVerification) -> (inserted: bool)
        requires
            old(self).wf(),
        ensures
            final(self).wf(),
            inserted == (!old(self).has_verification(v.id) && forall|i: int|
                0 <= i < old(self).verifications@.len() ==> old(self).verifications@[i].created_at
                    <= v.created_at),
            inserted ==> final(self).verifications@ == old(self).verifications@.push(v),
            !inserted ==> final(self).verifications@ == old(self).verifications@,
            final(self).blocks@ == old(self).blocks@,
            final(self).extrinsics@ == old(self).extrinsics@,
            final(self).events@ == old(self).events@,
            final(self).contracts@ == old(self).contracts@,
    {
        let n = self.verifications.len();
        let mut i: usize = 0;
        while i < n
            invariant
                i <= n,
                n == self.verifications@.len(),
                forall|j: int|
                    0 <= j < i ==> self.verifications@[j].id != v.id
                        && self.verifications@[j].created_at <= v.created_at,
            decreases n - i,
        {
            let row = &self.verifications[i];
            if row.id == v.id || row.created_at > v.created_at {
                return false;
            }
            i = i + 1;
        }
        self.verifications.push(v);
        true
    }

    /// The verification request with the given id, if present.
    pub fn get_verification(&self, id: i32) -> (r: Option<&ContractVerification>)
        ensures
            r is Some <==> self.has_verification(id),
            r matches Some(v) ==> v.id == id && exists|i: int|
                0 <= i < self.verifications@.len() && self.verifications@[i] == *v,
    {
        let n = self.verifications.len();
        let mut i: usize = 0;
        while i < n
            invariant
                i <= n,
                n == self.verifications@.len(),
                forall|j: int| 0 <= j < i ==> self.verifications@[j].id != id,
            decreases n - i,
        {
            if self.verifications[i].id == id {
                return Some(&self.verifications[i]);
            }
            i = i + 1;
        }
        None
    }

    /// The contract with the given address, if present.
    pub fn get_contract(&self, address: &String) -> (r: Option<&Contract>)
        ensures
            r is Some <==> self.has_contract(address@),
            r matches Some(c) ==> c.address@ == address@ && exists|i: int|
                0 <= i < self.contracts@.len() && self.contracts@[i] == *c,
    {
        let n = self.contracts.len();
        let mut i: usize = 0;
        while i < n
            invariant
                i <= n,
                n == self.contracts@.len(),
                forall|j: int| 0 <= j < i ==> self.contracts@[j].address@ != address@,
            decreases n - i,
        {
            if self.contracts[i].address.eq(address) {
                return Some(&self.contracts[i]);
            }
            i = i + 1;
        }
        None
    }

    /// The ids of the oldest pending verification requests, at most `limit`
    /// of them, oldest first.
    pub fn fetch_pending(&self, limit: usize) -> (r: Vec<i32>)
        ensures
            r@ == take_at_most(pending_ids_of(self.verifications@), limit as int),
    {
        let n = self.verifications.len();
        let mut r: Vec<i32> = Vec::new();
        let mut i: usize = 0;
        while i < n
            invariant
                i <= n,
                n == self.verifications@.len(),
                r@ == take_at_most(pending_ids_of(self.verifications@.take(i as int)), limit as int),
                r@.len() <= limit,
            decreases n - i,
        {
            proof {
                assert(self.verifications@.take(i + 1).drop_last() =~= self.verifications@.take(
                    i as int,
                ));
                assert(self.verifications@.take(i + 1).last() == self.verifications@[i as int]);
            }
            let ghost prev = pending_ids_of(self.verifications@.take(i as int));
            let ghost next = pending_ids_of(self.verifications@.take(i + 1));
            if matches!(self.verifications[i].status, VerificationStatus::Pending) {
                proof {
                    assert(next == prev.push(self.verifications@[i as int].id));
                }
                if r.len() < limit {
                    r.push(self.verifications[i].id);
                    proof {
                        if prev.len() <= limit as int {
                            assert(r@ =~= take_at_most(next, limit as int));
                        }
                    }
                } else {
                    proof {
                        assert(prev.len() >= limit);
                        assert(next.take(limit as int) =~= prev.take(limit as int));
                        assert(r@ == take_at_most(next, limit as int));
                    }
                }
            }
            i = i + 1;
        }
        proof {
            assert(self.verifications@.take(n as int) =~= self.verifications@);
        }
        r
    }

    /// Rewrites the scheduler-owned fields of the request with the given id;
    /// every other record is untouched.
    pub fn set_verification_status(
        &mut self,
        id: i32,
        status: VerificationStatus,
        error_message: Option<String>,
        verified_at: Option<i64>,
    ) -> (found: bool)
        requires
            old(self).wf(),
        ensures
            final(self).wf(),
            found == old(self).has_verification(id),
            final(self).verifications@.len() == old(self).verifications@.len(),
            forall|i: int|
                0 <= i < old(self).verifications@.len() ==> final(self).verifications@[i] == (
                if old(self).verifications@[i].id == id {
                    updated_verification(
                        old(self).verifications@[i],
                        status,
                        error_message,
                        verified_at,
                    )
                } else {
                    old(self).verifications@[i]
                }),
            final(self).blocks@ == old(self).blocks@,
            final(self).extrinsics@ == old(self).extrinsics@,
            final(self).events@ == old(self).events@,
            final(self).contracts@ == old(self).contracts@,
    {
        let n = self.verifications.len();
        let mut i: usize = 0;
        while i < n
            invariant
                i <= n,
                n == self.verifications@.len(),
                self == old(self),
                forall|j: int| 0 <= j < i ==> self.verifications@[j].id != id,
            decreases n - i,
        {
            if self.verifications[i].id == id {
                let mut rec = self.verifications.remove(i);
                rec.status = status;
                rec.error_message = error_message;
                rec.verified_at = verified_at;
                self.verifications.insert(i, rec);
                proof {
                    assert(self.verifications@ =~= old(self).verifications@.update(
                        i as int,
                        updated_verification(
                            old(self).verifications@[i as int],
                            status,
                            error_message,
                            verified_at,
                        ),
                    ));
                }
                return true;
            }
            i = i + 1;
        }
        false
    }

    /// Marks the contract with the given address verified; every other
    /// record is untouched.
    pub fn set_contract_verified(&mut self, address: &String) -> (found: bool)
        requires
            old(self).wf(),
        ensures
            final(self).wf(),
            found == old(self).has_contract(address@),
            final(self).contracts@.len() == old(self).contracts@.len(),
            forall|i: int|
                0 <= i < old(self).contracts@.len() ==> final(self).contracts@[i] == (
                if old(self).contracts@[i].address@ == address@ {
                    Contract { verified: true, ..old(self).contracts@[i] }
                } else {
                    old(self).contracts@[i]
                }),
            final(self).blocks@ == old(self).blocks@,
            final(self).extrinsics@ == old(self).extrinsics@,
            final(self).events@ == old(self).events@,
            final(self).verifications@ == old(self).verifications@,
    {
        let n = self.contracts.len();
        let mut i: usize = 0;
        while i < n
            invariant
                i <= n,
                n == self.contracts@.len(),
                self == old(self),
                forall|j: int| 0 <= j < i ==> self.contracts@[j].address@ != address@,
            decreases n - i,
        {
            if self.contracts[i].address.eq(address) {
                let mut rec = self.contracts.remove(i);
                rec.verified = true;
                self.contracts.insert(i, rec);
                proof {
                    assert(self.contracts@ =~= old(self).contracts@.update(
                        i as int,
                        Contract { verified: true, ..old(self).contracts@[i as int] },
                    ));
                }
                return true;
            }
            i = i + 1;
        }
        false
    }
}

} // verus!
