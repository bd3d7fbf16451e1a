use electrs_tracker::block::RawBlock;
use electrs_tracker::chain::Network;
use electrs_tracker::index::{FundingRow, HistoryRow, IndexedBlock, SpendRow, TweakRow};
use electrs_tracker::mempool::{FeeHistogram, Mempool};
use electrs_tracker::status::ScriptHashStatus;
use electrs_tracker::tracker::{Config, SyncAction, SyncEvent, SyncStep};
use electrs_tracker::{Error, Tracker};

fn config(ignore_mempool: bool, silent_payments_index: bool) -> Config {
    Config {
        network: Network::Bitcoin,
        ignore_mempool,
        silent_payments_index,
    }
}

fn id(b: u8) -> [u8; 32] {
    [b; 32]
}

fn row(sh: u8, tx: u8, height: u64, value: i64) -> HistoryRow {
    HistoryRow { scripthash: id(sh), txid: id(tx), height, value }
}

fn block(hash: u8, txids: Vec<[u8; 32]>, history: Vec<HistoryRow>) -> IndexedBlock {
    IndexedBlock { hash: id(hash), txids, history, funding: vec![], spending: vec![] }
}

fn empty_mempool() -> Mempool {
    Mempool::from_parts(Vec::new(), vec![], vec![], FeeHistogram { bins: Vec::new() })
}

fn txid_bytes(txid: bitcoin::Txid) -> [u8; 32] {
    <bitcoin::Txid as bitcoin::hashes::Hash>::to_byte_array(txid)
}

fn sha256_bytes(data: &[u8]) -> [u8; 32] {
    let digest = <bitcoin::hashes::sha256::Hash as bitcoin::hashes::Hash>::hash(data);
    <bitcoin::hashes::sha256::Hash as bitcoin::hashes::Hash>::to_byte_array(digest)
}

fn genesis_bytes() -> (Vec<u8>, [u8; 32]) {
    let genesis = bitcoin::blockdata::constants::genesis_block(bitcoin::Network::Bitcoin);
    let txid = txid_bytes(genesis.txdata[0].compute_txid());
    (bitcoin::consensus::serialize(&genesis), txid)
}

#[test]
fn new_tracker_is_not_ready() {
    let t = Tracker::new(&config(false, true));
    assert!(t.status() == Err(Error::NotReady));
    assert!(t.sp_status() == Err(Error::NotReady));
    assert_eq!(t.chain().len(), 1);
    assert!(t.silent_payments_index);
    let mut genesis = [0u8; 32];
    let shown = "000000000019d6689c085ae165831e934ff763ae46a2a6c172b3f1b60a8ce26f";
    for i in 0..32 {
        genesis[31 - i] = u8::from_str_radix(&shown[2 * i..2 * i + 2], 16).unwrap();
    }
    assert_eq!(t.chain().get_block_hash(0), Some(genesis));
}

#[test]
fn sync_runs_index_then_mempool() {
    let mut t = Tracker::new(&config(false, false));
    assert!(t.sync_start() == SyncAction::Run(SyncStep::Index));
    let a = t.sync(SyncEvent::Index { blocks: vec![block(1, vec![id(10)], vec![])], done: false });
    assert!(a == SyncAction::Finish(false));
    assert!(t.status() == Err(Error::NotReady));
    let a = t.sync(SyncEvent::Index { blocks: vec![block(2, vec![id(11)], vec![])], done: true });
    assert!(a == SyncAction::Run(SyncStep::Mempool));
    assert!(t.status() == Ok(()));
    assert_eq!(t.chain().len(), 3);
    assert_eq!(t.chain().get_block_hash(2), Some(id(2)));
    let snapshot = Mempool::from_parts(vec![row(5, 20, 0, 7)], vec![], vec![], FeeHistogram { bins: vec![(3, 250)] });
    let a = t.sync(SyncEvent::Mempool { snapshot });
    assert!(a == SyncAction::Finish(true));
    assert_eq!(t.fees_histogram().bins, vec![(3, 250)]);
}

#[test]
fn sync_ignoring_mempool_finishes_after_index() {
    let mut t = Tracker::new(&config(true, false));
    let a = t.sync(SyncEvent::Index { blocks: vec![], done: true });
    assert!(a == SyncAction::Finish(true));
}

#[test]
fn silent_payments_gate_done() {
    let mut t = Tracker::new(&config(false, true));
    let a = t.sync(SyncEvent::Index { blocks: vec![], done: true });
    assert!(a == SyncAction::Run(SyncStep::SilentPayments));
    let a = t.sync(SyncEvent::SilentPayments { tweaks: vec![], done: false });
    assert!(a == SyncAction::Finish(false));
    assert!(t.status() == Ok(()));
    assert!(t.sp_status() == Err(Error::NotReady));
    let a = t.sync(SyncEvent::SilentPayments { tweaks: vec![], done: true });
    assert!(a == SyncAction::Run(SyncStep::Mempool));
    assert!(t.sp_status() == Ok(()));
}

#[test]
fn caught_up_sync_is_done_and_keeps_state() {
    let mut t = Tracker::new(&config(false, true));
    let _ = t.sync(SyncEvent::Index { blocks: vec![block(1, vec![id(10)], vec![row(5, 10, 0, 4)])], done: true });
    let _ = t.sync(SyncEvent::SilentPayments { tweaks: vec![], done: true });
    let _ = t.sync(SyncEvent::Mempool { snapshot: empty_mempool() });
    let mut status = ScriptHashStatus::new(id(5));
    assert!(t.update_scripthash_status(&mut status));
    // a second pass with nothing new
    assert!(t.sync(SyncEvent::Index { blocks: vec![], done: true }) == SyncAction::Run(SyncStep::SilentPayments));
    assert!(t.sync(SyncEvent::SilentPayments { tweaks: vec![], done: true }) == SyncAction::Run(SyncStep::Mempool));
    assert!(t.sync(SyncEvent::Mempool { snapshot: empty_mempool() }) == SyncAction::Finish(true));
    assert_eq!(t.chain().len(), 2);
    assert!(!t.update_scripthash_status(&mut status));
}

#[test]
fn readiness_does_not_regress() {
    let mut t = Tracker::new(&config(false, true));
    let _ = t.sync(SyncEvent::Index { blocks: vec![], done: true });
    let _ = t.sync(SyncEvent::SilentPayments { tweaks: vec![], done: true });
    let _ = t.sync(SyncEvent::Index { blocks: vec![], done: false });
    let _ = t.sync(SyncEvent::SilentPayments { tweaks: vec![], done: false });
    assert!(t.status() == Ok(()));
    assert!(t.sp_status() == Ok(()));
}

fn tracker_with_tweaks(rows: Vec<TweakRow>) -> Tracker {
    let mut t = Tracker::new(&config(false, true));
    let _ = t.sync(SyncEvent::Index { blocks: vec![], done: true });
    let _ = t.sync(SyncEvent::SilentPayments { tweaks: rows, done: true });
    t
}

#[test]
fn tweaks_of_one_height_are_merged() {
    let t = tracker_with_tweaks(vec![
        TweakRow { height: 100, tweaks: vec![String::from("a")] },
        TweakRow { height: 100, tweaks: vec![String::from("b")] },
    ]);
    let res = t.get_tweaks(100);
    assert_eq!(res.len(), 1);
    let mut v = res.get(&100).unwrap().clone();
    v.sort();
    assert_eq!(v, vec![String::from("a"), String::from("b")]);
}

#[test]
fn tweaks_below_height_are_left_out() {
    let t = tracker_with_tweaks(vec![
        TweakRow { height: 99, tweaks: vec![String::from("x")] },
        TweakRow { height: 101, tweaks: vec![String::from("c"), String::from("d")] },
        TweakRow { height: 100, tweaks: vec![] },
    ]);
    let res = t.get_tweaks(100);
    assert_eq!(res.len(), 2);
    assert!(!res.contains_key(&99));
    assert_eq!(res.get(&101).unwrap(), &vec![String::from("c"), String::from("d")]);
    assert_eq!(res.get(&100).unwrap(), &Vec::<String>::new());
}

#[test]
fn no_tweaks_give_empty_map() {
    let t = tracker_with_tweaks(vec![TweakRow { height: 5, tweaks: vec![String::from("z")] }]);
    assert!(t.get_tweaks(6).is_empty());
}

#[test]
fn status_hash_follows_history() {
    let mut t = Tracker::new(&config(false, false));
    let mut status = ScriptHashStatus::new(id(5));
    // nothing to see yet
    assert!(!t.update_scripthash_status(&mut status));
    assert_eq!(status.statushash(), None);
    let _ = t.sync(SyncEvent::Index {
        blocks: vec![block(1, vec![id(10), id(11)], vec![row(5, 10, 0, 50), row(6, 11, 0, 9)])],
        done: true,
    });
    assert!(t.update_scripthash_status(&mut status));
    let mut data = id(10).to_vec();
    // the block lands at height 1, above the genesis block
    data.extend_from_slice(&1u64.to_le_bytes());
    let expected = sha256_bytes(&data);
    assert_eq!(status.statushash(), Some(expected));
    assert!(!t.update_scripthash_status(&mut status));
    // a pending transaction enters
    let _ = t.sync(SyncEvent::Mempool { snapshot: Mempool::from_parts(vec![row(5, 12, 0, -20)], vec![], vec![], FeeHistogram { bins: vec![] }) });
    assert!(t.update_scripthash_status(&mut status));
    assert!(!t.update_scripthash_status(&mut status));
    // and leaves
    let _ = t.sync(SyncEvent::Mempool { snapshot: empty_mempool() });
    assert!(t.update_scripthash_status(&mut status));
    assert_eq!(status.statushash(), Some(expected));
}

#[test]
fn status_is_deterministic() {
    let mut t = Tracker::new(&config(false, false));
    let _ = t.sync(SyncEvent::Index { blocks: vec![block(1, vec![id(10)], vec![row(5, 10, 0, 50)])], done: true });
    let _ = t.sync(SyncEvent::Mempool { snapshot: Mempool::from_parts(vec![row(5, 12, 0, 1)], vec![], vec![], FeeHistogram { bins: vec![] }) });
    let mut a = ScriptHashStatus::new(id(5));
    let mut b = ScriptHashStatus::new(id(5));
    assert!(t.update_scripthash_status(&mut a));
    assert!(t.update_scripthash_status(&mut b));
    assert_eq!(a.statushash(), b.statushash());
    assert!(a.statushash().is_some());
}

#[test]
fn balance_sums_confirmed_and_pending() {
    let mut t = Tracker::new(&config(false, false));
    let _ = t.sync(SyncEvent::Index {
        blocks: vec![
            block(1, vec![id(10)], vec![row(5, 10, 0, 50)]),
            block(2, vec![id(11)], vec![row(5, 11, 1, -20), row(6, 11, 1, 20)]),
        ],
        done: true,
    });
    let _ = t.sync(SyncEvent::Mempool {
        snapshot: Mempool::from_parts(vec![row(5, 12, 0, 7), row(5, 13, 0, -3)], vec![], vec![], FeeHistogram { bins: vec![] }),
    });
    let mut status = ScriptHashStatus::new(id(5));
    t.update_scripthash_status(&mut status);
    let b = t.get_balance(&status);
    assert_eq!(b.confirmed, 30);
    assert_eq!(b.mempool_delta, 4);
}

#[test]
fn candidates_come_in_index_order() {
    let mut t = Tracker::new(&config(false, false));
    let _ = t.sync(SyncEvent::Index {
        blocks: vec![block(1, vec![id(10), id(11)], vec![]), block(2, vec![id(10)], vec![])],
        done: true,
    });
    assert_eq!(t.transaction_candidates(&id(10)), vec![id(1), id(2)]);
    assert_eq!(t.transaction_candidates(&id(11)), vec![id(1)]);
    assert!(t.transaction_candidates(&id(12)).is_empty());
}

#[test]
fn lookup_finds_transaction_in_block() {
    let (bytes, txid) = genesis_bytes();
    let mut t = Tracker::new(&config(false, false));
    let _ = t.sync(SyncEvent::Index { blocks: vec![block(1, vec![txid], vec![])], done: true });
    let blocks = vec![RawBlock { hash: id(1), bytes }];
    let found = t.lookup_transaction(&blocks, &txid).ok().unwrap().unwrap();
    assert_eq!(found.0, id(1));
    assert_eq!(txid_bytes(found.1.compute_txid()), txid);
}

#[test]
fn lookup_duplicate_txid_takes_first_block() {
    let (bytes, txid) = genesis_bytes();
    let mut t = Tracker::new(&config(false, false));
    let _ = t.sync(SyncEvent::Index {
        blocks: vec![block(1, vec![txid], vec![]), block(2, vec![txid], vec![])],
        done: true,
    });
    // the second block is garbage: it must not be scanned
    let blocks = vec![RawBlock { hash: id(1), bytes }, RawBlock { hash: id(2), bytes: vec![1, 2, 3] }];
    let found = t.lookup_transaction(&blocks, &txid).ok().unwrap().unwrap();
    assert_eq!(found.0, id(1));
}

#[test]
fn lookup_of_absent_transaction_is_none() {
    let (bytes, _) = genesis_bytes();
    let mut t = Tracker::new(&config(false, false));
    let _ = t.sync(SyncEvent::Index { blocks: vec![block(1, vec![id(9)], vec![])], done: true });
    let blocks = vec![RawBlock { hash: id(1), bytes }];
    assert!(t.lookup_transaction(&blocks, &id(9)).ok().unwrap().is_none());
    assert!(t.lookup_transaction(&vec![], &id(8)).ok().unwrap().is_none());
}

#[test]
fn lookup_in_malformed_block_is_a_fault() {
    let (bytes, txid) = genesis_bytes();
    let mut t = Tracker::new(&config(false, false));
    let _ = t.sync(SyncEvent::Index { blocks: vec![block(1, vec![txid], vec![])], done: true });
    let blocks = vec![RawBlock { hash: id(1), bytes: bytes[..50].to_vec() }];
    match t.lookup_transaction(&blocks, &txid) {
        Err(e) => assert_eq!(e.hash, id(1)),
        Ok(_) => panic!("malformed block accepted"),
    }
}

fn out(sh: u8, tx: u8, vout: u32, value: u64, height: u64) -> FundingRow {
    FundingRow { scripthash: id(sh), txid: id(tx), vout, value, height }
}

#[test]
fn unspent_leaves_out_spent_outputs() {
    let mut t = Tracker::new(&config(false, false));
    let b1 = IndexedBlock {
        hash: id(1),
        txids: vec![id(10)],
        history: vec![row(5, 10, 0, 80)],
        funding: vec![out(5, 10, 0, 50, 0), out(5, 10, 1, 30, 0), out(6, 10, 2, 9, 0)],
        spending: vec![],
    };
    let b2 = IndexedBlock {
        hash: id(2),
        txids: vec![id(11)],
        history: vec![row(5, 11, 1, -50)],
        funding: vec![],
        spending: vec![SpendRow { txid: id(10), vout: 0 }],
    };
    let _ = t.sync(SyncEvent::Index { blocks: vec![b1, b2], done: true });
    let snapshot = Mempool::from_parts(
        vec![row(5, 12, 0, 4)],
        vec![out(5, 12, 0, 4, 0)],
        vec![SpendRow { txid: id(10), vout: 1 }],
        FeeHistogram { bins: vec![] },
    );
    let _ = t.sync(SyncEvent::Mempool { snapshot });
    let mut status = ScriptHashStatus::new(id(5));
    assert!(t.update_scripthash_status(&mut status));
    let unspent = t.get_unspent(&status);
    assert_eq!(unspent.len(), 1);
    assert_eq!(unspent[0].txid, id(12));
    assert_eq!(unspent[0].value, 4);
}

#[test]
fn ignored_mempool_keeps_empty_snapshot() {
    let mut t = Tracker::new(&config(true, false));
    assert!(t.fees_histogram().bins.is_empty());
    let snapshot = Mempool::from_parts(vec![row(5, 20, 0, 7)], vec![], vec![], FeeHistogram { bins: vec![(3, 250)] });
    assert!(t.sync(SyncEvent::Mempool { snapshot }) == SyncAction::Finish(true));
    assert!(t.fees_histogram().bins.is_empty());
}

#[test]
fn failed_mempool_refresh_keeps_snapshot() {
    let mut t = Tracker::new(&config(false, false));
    let snapshot = Mempool::from_parts(vec![], vec![], vec![], FeeHistogram { bins: vec![(2, 100)] });
    let _ = t.sync(SyncEvent::Mempool { snapshot });
    assert!(t.sync(SyncEvent::MempoolFailed) == SyncAction::Finish(true));
    assert_eq!(t.fees_histogram().bins, vec![(2, 100)]);
}

#[test]
fn indexed_rows_take_block_height() {
    let mut t = Tracker::new(&config(false, false));
    let _ = t.sync(SyncEvent::Index {
        blocks: vec![block(1, vec![id(10)], vec![row(5, 10, 77, 1)]), block(2, vec![id(11)], vec![row(5, 11, 3, 1)])],
        done: true,
    });
    let heights: Vec<u64> = t.index().history().iter().map(|r| r.height).collect();
    assert_eq!(heights, vec![1, 2]);
}

#[test]
fn oversized_block_is_a_fault() {
    let (mut bytes, txid) = genesis_bytes();
    bytes.resize(4_000_001, 0);
    let mut t = Tracker::new(&config(false, false));
    let _ = t.sync(SyncEvent::Index { blocks: vec![block(1, vec![txid], vec![])], done: true });
    let blocks = vec![RawBlock { hash: id(1), bytes }];
    match t.lookup_transaction(&blocks, &txid) {
        Err(e) => assert_eq!(e.hash, id(1)),
        Ok(_) => panic!("oversized block accepted"),
    }
}
