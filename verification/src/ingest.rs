//! The block ingestor: turns one finalized block (header fields plus the
//! per-item decode outcomes) into idempotent, ordered storage writes.
//!
//! A decode failure aborts the rest of the block — rows already written
//! stay, the error is reported, and the caller advances to the next block.
//! Reprocessing a block is always safe: every insert is keyed.

use vstd::prelude::*;
use crate::hexstr::encode_hex_prefixed;
use crate::hexstr::hex_prefixed;
use crate::models::Block;
use crate::models::BlockInput;
use crate::models::EventInput;
use crate::models::Extrinsic;
use crate::models::ExtrinsicInput;
use crate::models::Event;
use crate::store::Store;
use crate::store::event_row;
use crate::store::events_of;
use crate::store::ext_row;
use crate::store::exts_of;
use crate::store::has_event_key;
use crate::store::has_ext_key;

verus! {

/// Whether a block row carries the header fields, counts and timestamp of
/// an ingested block input.
pub open spec fn block_row_matches(b: Block, input: BlockInput) -> bool {
    &&& b.number == input.number
    &&& b.hash@ == hex_prefixed(input.hash@)
    &&& b.parent_hash@ == hex_prefixed(input.parent_hash@)
    &&& b.timestamp == input.timestamp
    &&& b.extrinsics_count == input.extrinsics@.len()
    &&& b.events_count == input.events@.len()
    &&& b.finalized == true
    &&& b.created_at == input.timestamp
}

/// The decoded record of a decode outcome known to be a success.
pub open spec fn ext_ok(r: Result<ExtrinsicInput, String>) -> ExtrinsicInput {
    match r {
        Ok(x) => x,
        Err(_) => arbitrary(),
    }
}

/// One idempotent extrinsic insert, at the specification level.
pub open spec fn insert_ext_rows(
    rows: Seq<Extrinsic>,
    bn: i64,
    ts: i64,
    x: ExtrinsicInput,
) -> Seq<Extrinsic> {
    if has_ext_key(rows, bn, x.index as i32) {
        rows
    } else {
        rows.push(ext_row((rows.len() + 1) as i64, bn, x, ts))
    }
}

/// The extrinsic table after one block's decode outcomes are processed in
/// order, stopping at the first decode failure.
pub open spec fn exts_after(
    rows: Seq<Extrinsic>,
    bn: i64,
    ts: i64,
    inputs: Seq<Result<ExtrinsicInput, String>>,
) -> Seq<Extrinsic>
    decreases inputs.len(),
{
    if inputs.len() == 0 {
        rows
    } else {
        match inputs[0] {
            Ok(x) => exts_after(insert_ext_rows(rows, bn, ts, x), bn, ts, inputs.drop_first()),
            Err(_) => rows,
        }
    }
}

/// One idempotent event insert, at the specification level.
pub open spec fn insert_event_rows(
    rows: Seq<Event>,
    bn: i64,
    ts: i64,
    index: i32,
    e: EventInput,
) -> Seq<Event> {
    if has_event_key(rows, bn, index) {
        rows
    } else {
        rows.push(event_row((rows.len() + 1) as i64, bn, index, e, ts))
    }
}

/// The event table after one block's decode outcomes are processed in
/// order, each assigned its position as index, stopping at the first
/// decode failure.
pub open spec fn events_after(
    rows: Seq<Event>,
    bn: i64,
    ts: i64,
    inputs: Seq<Result<EventInput, String>>,
    index: int,
) -> Seq<Event>
    decreases inputs.len(),
{
    if inputs.len() == 0 {
        rows
    } else {
        match inputs[0] {
            Ok(e) => events_after(
                insert_event_rows(rows, bn, ts, index as i32, e),
                bn,
                ts,
                inputs.drop_first(),
                index + 1,
            ),
            Err(_) => rows,
        }
    }
}

/// The reason of the first extrinsic decode failure, if any.
pub open spec fn first_ext_error(inputs: Seq<Result<ExtrinsicInput, String>>) -> Option<String>
    decreases inputs.len(),
{
    if inputs.len() == 0 {
        None
    } else {
        match inputs[0] {
            Ok(_) => first_ext_error(inputs.drop_first()),
            Err(m) => Some(m),
        }
    }
}

/// The reason of the first event decode failure, if any.
pub open spec fn first_event_error(inputs: Seq<Result<EventInput, String>>) -> Option<String>
    decreases inputs.len(),
{
    if inputs.len() == 0 {
        None
    } else {
        match inputs[0] {
            Ok(_) => first_event_error(inputs.drop_first()),
            Err(m) => Some(m),
        }
    }
}

/// What ingesting one block reports: the first decode failure, extrinsics
/// before events, or success.
pub open spec fn ingest_outcome(input: BlockInput) -> Result<(), String> {
    match first_ext_error(input.extrinsics@) {
        Some(m) => Err(m),
        None => match first_event_error(input.events@) {
            Some(m) => Err(m),
            None => Ok(()),
        },
    }
}

/// Ingests one finalized block: an idempotent insert of the block row, then
/// of each decoded extrinsic under `(number, index)` in source order, then
/// of each decoded event under `(number, position)`. The first decode
/// failure aborts the remainder and is returned; earlier writes stay.
#[verifier::loop_isolation(false)]
pub fn index_block(store: &mut Store, input: BlockInput) -> (r: Result<(), String>)
    requires
        old(store).wf(),
        input.extrinsics@.len() <= i32::MAX,
        input.events@.len() <= i32::MAX,
        forall|i: int|
            0 <= i < input.extrinsics@.len() ==> ((#[trigger] input.extrinsics@[i]) is Ok
                ==> ext_ok(input.extrinsics@[i]).index <= i32::MAX),
        old(store).extrinsics@.len() + input.extrinsics@.len() < i64::MAX,
        old(store).events@.len() + input.events@.len() < i64::MAX,
    ensures
        final(store).wf(),
        r == ingest_outcome(input),
        old(store).has_block(input.number) ==> final(store).blocks@ == old(store).blocks@,
        !old(store).has_block(input.number) ==> final(store).blocks@.len() == old(
            store,
        ).blocks@.len() + 1 && final(store).blocks@.take(old(store).blocks@.len() as int) == old(
            store,
        ).blocks@ && block_row_matches(final(store).blocks@.last(), input),
        final(store).extrinsics@ == exts_after(
            old(store).extrinsics@,
            input.number,
            input.timestamp,
            input.extrinsics@,
        ),
        final(store).events@ == (if first_ext_error(input.extrinsics@) is None {
            events_after(old(store).events@, input.number, input.timestamp, input.events@, 0)
        } else {
            old(store).events@
        }),
        final(store).contracts@ == old(store).contracts@,
        final(store).verifications@ == old(store).verifications@,
{
    let BlockInput { number, hash, parent_hash, timestamp, extrinsics, events } = input;
    let extrinsics_count = extrinsics.len() as i32;
    let events_count = events.len() as i32;
    let hash_text = encode_hex_prefixed(&hash);
    let parent_text = encode_hex_prefixed(&parent_hash);
    let block = Block {
        number,
        hash: hash_text,
        parent_hash: parent_text,
        timestamp,
        extrinsics_count,
        events_count,
        finalized: true,
        created_at: timestamp,
    };
    let inserted = store.insert_block(block);
    proof {
        if inserted {
            assert(store.blocks@.take(old(store).blocks@.len() as int) =~= old(store).blocks@);
        }
    }
    let ghost blocks1 = store.blocks@;

    let ghost exts0 = store.extrinsics@;
    let mut exts = extrinsics;
    while exts.len() > 0
        invariant
            store.wf(),
            exts0 == old(store).extrinsics@,
            forall|j: int|
                0 <= j < exts@.len() ==> ((#[trigger] exts@[j]) is Ok ==> ext_ok(
                    exts@[j],
                ).index <= i32::MAX),
            exts_after(exts0, number, timestamp, input.extrinsics@) == exts_after(
                store.extrinsics@,
                number,
                timestamp,
                exts@,
            ),
            first_ext_error(input.extrinsics@) == first_ext_error(exts@),
            store.extrinsics@.len() + exts@.len() <= exts0.len() + input.extrinsics@.len(),
            store.blocks@ == blocks1,
            store.events@ == old(store).events@,
            store.contracts@ == old(store).contracts@,
            store.verifications@ == old(store).verifications@,
        decreases exts@.len(),
    {
        let ghost rows_before = store.extrinsics@;
        let ghost exts_before = exts@;
        let item = exts.remove(0);
        proof {
            assert(exts@ =~= exts_before.drop_first());
        }
        match item {
            Ok(x) => {
                let _ = store.insert_extrinsic(number, x, timestamp);
                proof {
                    assert(store.extrinsics@ == insert_ext_rows(rows_before, number, timestamp, x));
                }
            },
            Err(m) => {
                return Err(m);
            },
        }
    }
    proof {
        assert(exts@.len() == 0);
        assert(store.extrinsics@ == exts_after(exts0, number, timestamp, input.extrinsics@));
        assert(first_ext_error(input.extrinsics@) is None);
    }

    let ghost events0 = store.events@;
    let mut evs = events;
    let mut index: usize = 0;
    while evs.len() > 0
        invariant
            store.wf(),
            events0 == old(store).events@,
            index == input.events@.len() - evs@.len(),
            events_after(events0, number, timestamp, input.events@, 0) == events_after(
                store.events@,
                number,
                timestamp,
                evs@,
                index as int,
            ),
            first_event_error(input.events@) == first_event_error(evs@),
            store.events@.len() + evs@.len() <= events0.len() + input.events@.len(),
            store.extrinsics@ == exts_after(exts0, number, timestamp, input.extrinsics@),
            store.blocks@ == blocks1,
            store.contracts@ == old(store).contracts@,
            store.verifications@ == old(store).verifications@,
        decreases evs@.len(),
    {
        let ghost rows_before = store.events@;
        let ghost evs_before = evs@;
        let item = evs.remove(0);
        proof {
            assert(evs@ =~= evs_before.drop_first());
        }
        match item {
            Ok(e) => {
                let _ = store.insert_event(number, index as i32, e, timestamp);
                proof {
                    assert(store.events@ == insert_event_rows(
                        rows_before,
                        number,
                        timestamp,
                        index as i32,
                        e,
                    ));
                }
                index = index + 1;
            },
            Err(m) => {
                return Err(m);
            },
        }
    }
    proof {
        assert(store.events@ == events_after(events0, number, timestamp, input.events@, 0));
        assert(first_event_error(input.events@) is None);
    }
    Ok(())
}

/// No extrinsic row of `rows` belongs to block `bn`.
pub open spec fn no_ext_rows_for_block(rows: Seq<Extrinsic>, bn: i64) -> bool {
    forall|i: int| 0 <= i < rows.len() ==> (#[trigger] rows[i]).block_number != bn
}

proof fn lemma_exts_after_fresh(
    rows: Seq<Extrinsic>,
    bn: i64,
    ts: i64,
    inputs: Seq<Result<ExtrinsicInput, String>>,
    m: int,
)
    requires
        0 <= m,
        m + inputs.len() <= i32::MAX,
        forall|i: int|
            0 <= i < rows.len() ==> ((#[trigger] rows[i]).block_number == bn ==> 0 <= rows[i].index
                < m),
        forall|k: int|
            0 <= k < inputs.len() ==> (#[trigger] inputs[k]) is Ok && ext_ok(inputs[k]).index == m
                + k,
    ensures
        exts_after(rows, bn, ts, inputs).len() == rows.len() + inputs.len(),
        forall|i: int|
            0 <= i < rows.len() ==> #[trigger] exts_after(rows, bn, ts, inputs)[i] == rows[i],
        forall|k: int|
            0 <= k < inputs.len() ==> #[trigger] exts_after(rows, bn, ts, inputs)[rows.len() + k]
                == ext_row((rows.len() + k + 1) as i64, bn, ext_ok(inputs[k]), ts),
    decreases inputs.len(),
{
    if inputs.len() > 0 {
        let x = ext_ok(inputs[0]);
        assert(inputs[0] is Ok && x.index == m);
        assert(!has_ext_key(rows, bn, x.index as i32));
        let rows2 = insert_ext_rows(rows, bn, ts, x);
        assert(rows2 == rows.push(ext_row((rows.len() + 1) as i64, bn, x, ts)));
        let rest = inputs.drop_first();
        assert(forall|k: int| 0 <= k < rest.len() ==> rest[k] == inputs[k + 1]);
        lemma_exts_after_fresh(rows2, bn, ts, rest, m + 1);
        let out = exts_after(rows, bn, ts, inputs);
        assert(out == exts_after(rows2, bn, ts, rest));
        assert forall|k: int| 0 <= k < inputs.len() implies #[trigger] out[rows.len() + k]
            == ext_row((rows.len() + k + 1) as i64, bn, ext_ok(inputs[k]), ts) by {
            if k == 0 {
                assert(out[rows2.len() - 1] == rows2[rows2.len() - 1]);
            } else {
                assert(out[rows2.len() + (k - 1)] == ext_row(
                    (rows2.len() + (k - 1) + 1) as i64,
                    bn,
                    ext_ok(rest[k - 1]),
                    ts,
                ));
            }
        }
    }
}

proof fn lemma_exts_of_none(rows: Seq<Extrinsic>, bn: i64)
    requires
        no_ext_rows_for_block(rows, bn),
    ensures
        exts_of(rows, bn) == Seq::<Extrinsic>::empty(),
    decreases rows.len(),
{
    if rows.len() > 0 {
        assert(forall|i: int|
            0 <= i < rows.drop_last().len() ==> (#[trigger] rows.drop_last()[i]).block_number
                != bn);
        lemma_exts_of_none(rows.drop_last(), bn);
    }
}

proof fn lemma_exts_of_concat_all(a: Seq<Extrinsic>, b: Seq<Extrinsic>, bn: i64)
    requires
        no_ext_rows_for_block(a, bn),
        forall|i: int| 0 <= i < b.len() ==> (#[trigger] b[i]).block_number == bn,
    ensures
        exts_of(a + b, bn) == b,
    decreases b.len(),
{
    if b.len() == 0 {
        assert(a + b =~= a);
        lemma_exts_of_none(a, bn);
        assert(exts_of(a + b, bn) =~= b);
    } else {
        assert((a + b).drop_last() =~= a + b.drop_last());
        assert((a + b).last() == b.last());
        lemma_exts_of_concat_all(a, b.drop_last(), bn);
        assert(exts_of(a + b, bn) == exts_of(a + b.drop_last(), bn).push(b.last()));
        assert(b.drop_last().push(b.last()) =~= b);
    }
}

/// Ordering law: ingesting into a table with no rows for block `bn` a list
/// of decode outcomes that all succeeded, the record at position `k`
/// carrying index `k`, appends exactly those records; the rows of block
/// `bn` afterwards are the source records in source order, their indices
/// the gapless, duplicate-free range `0 .. N`.
pub proof fn lemma_extrinsic_ordering(
    rows: Seq<Extrinsic>,
    bn: i64,
    ts: i64,
    inputs: Seq<Result<ExtrinsicInput, String>>,
)
    requires
        no_ext_rows_for_block(rows, bn),
        inputs.len() <= i32::MAX,
        forall|k: int|
            0 <= k < inputs.len() ==> (#[trigger] inputs[k]) is Ok && ext_ok(inputs[k]).index == k,
    ensures
        exts_of(exts_after(rows, bn, ts, inputs), bn).len() == inputs.len(),
        forall|k: int|
            0 <= k < inputs.len() ==> #[trigger] exts_of(exts_after(rows, bn, ts, inputs), bn)[k]
                == ext_row((rows.len() + k + 1) as i64, bn, ext_ok(inputs[k]), ts)
                && exts_of(exts_after(rows, bn, ts, inputs), bn)[k].index == k,
{
    lemma_exts_after_fresh(rows, bn, ts, inputs, 0);
    let out = exts_after(rows, bn, ts, inputs);
    let fresh = out.subrange(rows.len() as int, out.len() as int);
    assert(out =~= rows + fresh);
    assert(forall|k: int|
        0 <= k < fresh.len() ==> #[trigger] fresh[k] == ext_row(
            (rows.len() + k + 1) as i64,
            bn,
            ext_ok(inputs[k]),
            ts,
        ));
    lemma_exts_of_concat_all(rows, fresh, bn);
}

/// Idempotence law: re-delivering extrinsic decode outcomes whose keys are
/// all present already leaves the extrinsic table unchanged, with no error.
pub proof fn lemma_exts_after_idempotent(
    rows: Seq<Extrinsic>,
    bn: i64,
    ts: i64,
    inputs: Seq<Result<ExtrinsicInput, String>>,
)
    requires
        forall|k: int|
            0 <= k < inputs.len() ==> ((#[trigger] inputs[k]) is Ok ==> has_ext_key(
                rows,
                bn,
                ext_ok(inputs[k]).index as i32,
            )),
    ensures
        exts_after(rows, bn, ts, inputs) == rows,
    decreases inputs.len(),
{
    if inputs.len() > 0 {
        match inputs[0] {
            Ok(x) => {
                assert(insert_ext_rows(rows, bn, ts, x) == rows);
                let rest = inputs.drop_first();
                assert(forall|k: int| 0 <= k < rest.len() ==> rest[k] == inputs[k + 1]);
                lemma_exts_after_idempotent(rows, bn, ts, rest);
            },
            Err(_) => {},
        }
    }
}

/// Idempotence law, event side: re-delivering event decode outcomes whose
/// assigned indices are all present already leaves the event table
/// unchanged.
pub proof fn lemma_events_after_idempotent(
    rows: Seq<Event>,
    bn: i64,
    ts: i64,
    inputs: Seq<Result<EventInput, String>>,
    index: int,
)
    requires
        forall|k: int|
            0 <= k < inputs.len() ==> ((#[trigger] inputs[k]) is Ok ==> has_event_key(
                rows,
                bn,
                (index + k) as i32,
            )),
    ensures
        events_after(rows, bn, ts, inputs, index) == rows,
    decreases inputs.len(),
{
    if inputs.len() > 0 {
        match inputs[0] {
            Ok(e) => {
                assert(insert_event_rows(rows, bn, ts, index as i32, e) == rows);
                let rest = inputs.drop_first();
                assert(forall|k: int| 0 <= k < rest.len() ==> rest[k] == inputs[k + 1]);
                lemma_events_after_idempotent(rows, bn, ts, rest, index + 1);
            },
            Err(_) => {},
        }
    }
}

/// Redelivery law: once a block's extrinsics have been ingested in full
/// under fresh keys, ingesting the same decode outcomes again — at any
/// later timestamp — changes nothing.
pub proof fn lemma_extrinsic_redelivery(
    rows: Seq<Extrinsic>,
    bn: i64,
    ts: i64,
    ts2: i64,
    inputs: Seq<Result<ExtrinsicInput, String>>,
)
    requires
        no_ext_rows_for_block(rows, bn),
        inputs.len() <= i32::MAX,
        forall|k: int|
            0 <= k < inputs.len() ==> (#[trigger] inputs[k]) is Ok && ext_ok(inputs[k]).index == k,
    ensures
        exts_after(exts_after(rows, bn, ts, inputs), bn, ts2, inputs) == exts_after(
            rows,
            bn,
            ts,
            inputs,
        ),
{
    lemma_exts_after_fresh(rows, bn, ts, inputs, 0);
    let out = exts_after(rows, bn, ts, inputs);
    assert forall|k: int| 0 <= k < inputs.len() implies ((#[trigger] inputs[k]) is Ok
        ==> has_ext_key(out, bn, ext_ok(inputs[k]).index as i32)) by {
        assert(out[rows.len() + k] == ext_row(
            (rows.len() + k + 1) as i64,
            bn,
            ext_ok(inputs[k]),
            ts,
        ));
    }
    lemma_exts_after_idempotent(out, bn, ts2, inputs);
}

/// No event row of `rows` belongs to block `bn`.
pub open spec fn no_event_rows_for_block(rows: Seq<Event>, bn: i64) -> bool {
    forall|i: int| 0 <= i < rows.len() ==> (#[trigger] rows[i]).block_number != bn
}

/// The decoded record of an event decode outcome known to be a success.
pub open spec fn event_ok(r: Result<EventInput, String>) -> EventInput {
    match r {
        Ok(e) => e,
        Err(_) => arbitrary(),
    }
}

proof fn lemma_events_after_fresh(
    rows: Seq<Event>,
    bn: i64,
    ts: i64,
    inputs: Seq<Result<EventInput, String>>,
    m: int,
)
    requires
        0 <= m,
        m + inputs.len() <= i32::MAX,
        forall|i: int|
            0 <= i < rows.len() ==> ((#[trigger] rows[i]).block_number == bn ==> 0 <= rows[i].index
                < m),
        forall|k: int| 0 <= k < inputs.len() ==> (#[trigger] inputs[k]) is Ok,
    ensures
        events_after(rows, bn, ts, inputs, m).len() == rows.len() + inputs.len(),
        forall|i: int|
            0 <= i < rows.len() ==> #[trigger] events_after(rows, bn, ts, inputs, m)[i] == rows[i],
        forall|k: int|
            0 <= k < inputs.len() ==> #[trigger] events_after(rows, bn, ts, inputs, m)[rows.len()
                + k] == event_row((rows.len() + k + 1) as i64, bn, (m + k) as i32, event_ok(inputs[k]), ts),
    decreases inputs.len(),
{
    if inputs.len() > 0 {
        let e = event_ok(inputs[0]);
        assert(inputs[0] is Ok);
        assert(!has_event_key(rows, bn, m as i32));
        let rows2 = insert_event_rows(rows, bn, ts, m as i32, e);
        assert(rows2 == rows.push(event_row((rows.len() + 1) as i64, bn, m as i32, e, ts)));
        let rest = inputs.drop_first();
        assert(forall|k: int| 0 <= k < rest.len() ==> rest[k] == inputs[k + 1]);
        lemma_events_after_fresh(rows2, bn, ts, rest, m + 1);
        let out = events_after(rows, bn, ts, inputs, m);
        assert(out == events_after(rows2, bn, ts, rest, m + 1));
        assert forall|k: int| 0 <= k < inputs.len() implies #[trigger] out[rows.len() + k]
            == event_row((rows.len() + k + 1) as i64, bn, (m + k) as i32, event_ok(inputs[k]), ts) by {
            if k == 0 {
                assert(out[rows2.len() - 1] == rows2[rows2.len() - 1]);
            } else {
                assert(out[rows2.len() + (k - 1)] == event_row(
                    (rows2.len() + (k - 1) + 1) as i64,
                    bn,
                    (m + 1 + (k - 1)) as i32,
                    event_ok(rest[k - 1]),
                    ts,
                ));
            }
        }
    }
}

proof fn lemma_events_of_none(rows: Seq<Event>, bn: i64)
    requires
        no_event_rows_for_block(rows, bn),
    ensures
        events_of(rows, bn) == Seq::<Event>::empty(),
    decreases rows.len(),
{
    if rows.len() > 0 {
        assert(forall|i: int|
            0 <= i < rows.drop_last().len() ==> (#[trigger] rows.drop_last()[i]).block_number
                != bn);
        lemma_events_of_none(rows.drop_last(), bn);
    }
}

proof fn lemma_events_of_concat_all(a: Seq<Event>, b: Seq<Event>, bn: i64)
    requires
        no_event_rows_for_block(a, bn),
        forall|i: int| 0 <= i < b.len() ==> (#[trigger] b[i]).block_number == bn,
    ensures
        events_of(a + b, bn) == b,
    decreases b.len(),
{
    if b.len() == 0 {
        assert(a + b =~= a);
        lemma_events_of_none(a, bn);
        assert(events_of(a + b, bn) =~= b);
    } else {
        assert((a + b).drop_last() =~= a + b.drop_last());
        assert((a + b).last() == b.last());
        lemma_events_of_concat_all(a, b.drop_last(), bn);
        assert(events_of(a + b, bn) == events_of(a + b.drop_last(), bn).push(b.last()));
        assert(b.drop_last().push(b.last()) =~= b);
    }
}

/// Ordering law, event side: ingesting into a table with no rows for block
/// `bn` a list of event decode outcomes that all succeeded appends exactly
/// those records, in source order, the row at position `k` carrying index
/// `k`: the gapless, duplicate-free range `0 .. N`.
pub proof fn lemma_event_ordering(
    rows: Seq<Event>,
    bn: i64,
    ts: i64,
    inputs: Seq<Result<EventInput, String>>,
)
    requires
        no_event_rows_for_block(rows, bn),
        inputs.len() <= i32::MAX,
        forall|k: int| 0 <= k < inputs.len() ==> (#[trigger] inputs[k]) is Ok,
    ensures
        events_of(events_after(rows, bn, ts, inputs, 0), bn).len() == inputs.len(),
        forall|k: int|
            0 <= k < inputs.len() ==> #[trigger] events_of(
                events_after(rows, bn, ts, inputs, 0),
                bn,
            )[k] == event_row((rows.len() + k + 1) as i64, bn, k as i32, event_ok(inputs[k]), ts)
                && events_of(events_after(rows, bn, ts, inputs, 0), bn)[k].index == k,
{
    lemma_events_after_fresh(rows, bn, ts, inputs, 0);
    let out = events_after(rows, bn, ts, inputs, 0);
    let fresh = out.subrange(rows.len() as int, out.len() as int);
    assert(out =~= rows + fresh);
    assert(forall|k: int|
        0 <= k < fresh.len() ==> #[trigger] fresh[k] == event_row(
            (rows.len() + k + 1) as i64,
            bn,
            k as i32,
            event_ok(inputs[k]),
            ts,
        ));
    lemma_events_of_concat_all(rows, fresh, bn);
}

/// Redelivery law, event side: once a block's events have been ingested in
/// full into a table with no rows for it, ingesting the same decode
/// outcomes again — at any later timestamp — changes nothing.
pub proof fn lemma_event_redelivery(
    rows: Seq<Event>,
    bn: i64,
    ts: i64,
    ts2: i64,
    inputs: Seq<Result<EventInput, String>>,
)
    requires
        no_event_rows_for_block(rows, bn),
        inputs.len() <= i32::MAX,
        forall|k: int| 0 <= k < inputs.len() ==> (#[trigger] inputs[k]) is Ok,
    ensures
        events_after(events_after(rows, bn, ts, inputs, 0), bn, ts2, inputs, 0) == events_after(
            rows,
            bn,
            ts,
            inputs,
            0,
        ),
{
    lemma_events_after_fresh(rows, bn, ts, inputs, 0);
    let out = events_after(rows, bn, ts, inputs, 0);
    assert forall|k: int| 0 <= k < inputs.len() implies ((#[trigger] inputs[k]) is Ok
        ==> has_event_key(out, bn, (0 + k) as i32)) by {
        assert(out[rows.len() + k] == event_row(
            (rows.len() + k + 1) as i64,
            bn,
            k as i32,
            event_ok(inputs[k]),
            ts,
        ));
    }
    lemma_events_after_idempotent(out, bn, ts2, inputs, 0);
}

} // verus!
