use glinscan::ingest::index_block;
use glinscan::models::{BlockInput, EventInput, ExtrinsicInput};
use glinscan::store::Store;

fn ext(index: u32, call: &str) -> ExtrinsicInput {
    ExtrinsicInput {
        index,
        hash: format!("0xext{index}"),
        signer: Some(String::from("alice")),
        pallet: String::from("Balances"),
        call: String::from(call),
        args: String::from("{}"),
        success: true,
    }
}

fn ev(method: &str) -> EventInput {
    EventInput {
        pallet: String::from("System"),
        method: String::from(method),
        data: String::from("{}"),
    }
}

fn block_100() -> BlockInput {
    BlockInput {
        number: 100,
        hash: vec![0x11; 32],
        parent_hash: vec![0x10; 32],
        timestamp: 1_000,
        extrinsics: vec![Ok(ext(0, "transfer")), Ok(ext(1, "transfer_all"))],
        events: vec![Ok(ev("ExtrinsicSuccess")), Ok(ev("Transfer"))],
    }
}

fn block_101() -> BlockInput {
    BlockInput {
        number: 101,
        hash: vec![0x22; 32],
        parent_hash: vec![0x11; 32],
        timestamp: 1_006,
        extrinsics: vec![Ok(ext(0, "remark"))],
        events: vec![Ok(ev("ExtrinsicSuccess"))],
    }
}

#[test]
fn blocks_in_order_latest_and_ordered_extrinsics() {
    let mut store = Store::new();
    index_block(&mut store, block_100()).unwrap();
    index_block(&mut store, block_101()).unwrap();

    assert_eq!(store.latest_block_number(), Some(101));

    let exts = store.extrinsics_of_block(100);
    assert_eq!(exts.len(), 2);
    assert_eq!(exts[0].index, 0);
    assert_eq!(exts[1].index, 1);
    assert_eq!(exts[0].call, "transfer");
    assert_eq!(exts[1].call, "transfer_all");

    let block = store.get_block(100).unwrap();
    assert_eq!(block.extrinsics_count, 2);
    assert_eq!(block.events_count, 2);
    assert_eq!(block.hash, format!("0x{}", "11".repeat(32)));
    assert_eq!(block.parent_hash, format!("0x{}", "10".repeat(32)));
    assert!(block.finalized);
}

#[test]
fn redelivered_block_changes_nothing() {
    let mut store = Store::new();
    index_block(&mut store, block_100()).unwrap();
    index_block(&mut store, block_100()).unwrap();

    assert!(store.get_block(100).is_some());
    assert_eq!(store.latest_block_number(), Some(100));
    assert_eq!(store.extrinsics_of_block(100).len(), 2);
    assert_eq!(store.events_of_block(100).len(), 2);
}

#[test]
fn duplicate_keyed_inserts_are_silently_discarded() {
    let mut store = Store::new();
    index_block(&mut store, block_100()).unwrap();
    let ext_count = store.extrinsics_of_block(100).len();

    let again = glinscan::models::Block {
        number: 100,
        hash: format!("0x{}", "11".repeat(32)),
        parent_hash: format!("0x{}", "10".repeat(32)),
        timestamp: 1_000,
        extrinsics_count: 2,
        events_count: 2,
        finalized: true,
        created_at: 1_000,
    };
    assert!(!store.insert_block(again));
    assert!(store.insert_extrinsic(100, ext(0, "transfer"), 9_999).is_none());
    assert!(!store.insert_event(100, 0, ev("ExtrinsicSuccess"), 9_999));
    assert_eq!(store.extrinsics_of_block(100).len(), ext_count);
}

#[test]
fn decode_failure_aborts_block_but_keeps_earlier_rows() {
    let mut store = Store::new();
    let input = BlockInput {
        number: 200,
        hash: vec![0x33; 32],
        parent_hash: vec![0x22; 32],
        timestamp: 2_000,
        extrinsics: vec![
            Ok(ext(0, "transfer")),
            Err(String::from("unknown call")),
            Ok(ext(2, "remark")),
        ],
        events: vec![Ok(ev("ExtrinsicSuccess"))],
    };
    let r = index_block(&mut store, input);
    assert_eq!(r, Err(String::from("unknown call")));

    // the block row and the first extrinsic are persisted; the rest is not
    assert!(store.get_block(200).is_some());
    let exts = store.extrinsics_of_block(200);
    assert_eq!(exts.len(), 1);
    assert_eq!(exts[0].index, 0);
    assert_eq!(store.events_of_block(200).len(), 0);
}

#[test]
fn event_indices_follow_source_positions() {
    let mut store = Store::new();
    index_block(&mut store, block_100()).unwrap();
    let events = store.events_of_block(100);
    assert_eq!(events.len(), 2);
    assert_eq!(events[0].index, 0);
    assert_eq!(events[1].index, 1);
    assert_eq!(events[0].method, "ExtrinsicSuccess");
    assert_eq!(events[1].method, "Transfer");
}
