use imbibe::domain::block::Block;
use imbibe::domain::tx::Tx;
use imbibe::errors::{IndexerError, StoreError};
use imbibe::live::{LiveIndexer, LiveOutcome, NewBlockEvent, RawBlock};
use imbibe::normalize::{process_block, RawHeader, RawTxResult};
use imbibe::registry::SignerRegistry;
use imbibe::store::Store;
use imbibe::types::Sha256;

fn empty_registry() -> SignerRegistry {
    SignerRegistry::new(Vec::new()).unwrap()
}

fn header_at(height: u64) -> RawHeader {
    RawHeader {
        chain_id: "test-chain".to_string(),
        height,
        time_ns: 1_700_000_000_000_000_000,
        validators_hash: Some(vec![1u8; 32]),
        next_validators_hash: Some(vec![2u8; 32]),
        consensus_hash: Some(vec![3u8; 32]),
        app_hash: vec![4u8; 8],
        proposer_address: vec![5u8; 20],
        last_commit_hash: None,
        data_hash: None,
        last_results_hash: None,
        evidence_hash: None,
    }
}

fn block_at(height: u64) -> (Block, Vec<Tx>) {
    let mut hash = vec![0u8; 32];
    hash[0] = height as u8;
    process_block(
        false,
        &empty_registry(),
        header_at(height),
        Some(hash),
        Vec::new(),
        Vec::new(),
    )
    .unwrap()
}

#[test]
fn gap_query_reports_absent_heights_in_order() {
    let mut store = Store::new();
    for h in [1u64, 2, 5] {
        let (b, txs) = block_at(h);
        store.save_block_with_txs(&b, &txs).unwrap();
    }
    let missing = store.fetch_missing_block_heights(1, 6).unwrap();
    assert_eq!(missing, vec![3, 4, 6]);
}

#[test]
fn gap_query_on_present_singleton_is_empty() {
    let mut store = Store::new();
    let (b, txs) = block_at(5);
    store.save_block_with_txs(&b, &txs).unwrap();
    let missing = store.fetch_missing_block_heights(5, 5).unwrap();
    assert!(missing.is_empty());
}

#[test]
fn duplicate_height_is_rejected_and_store_unchanged() {
    let mut store = Store::new();
    let (b, txs) = block_at(4);
    store.save_block_with_txs(&b, &txs).unwrap();
    let (b2, txs2) = block_at(4);
    let r = store.save_block_with_txs(&b2, &txs2);
    assert!(matches!(r, Err(StoreError::Duplicate)));
    assert_eq!(store.block_count(), 1);
}

#[test]
fn fetch_of_absent_rows_is_not_found() {
    let store = Store::new();
    assert!(matches!(
        store.fetch_block_by_height(1),
        Err(StoreError::NotFound)
    ));
    let h = Sha256::new(vec![0u8; 32]);
    assert!(matches!(
        store.fetch_block_by_block_hash(&h),
        Err(StoreError::NotFound)
    ));
    assert!(matches!(
        store.fetch_tx_by_block_height_and_tx_idx_in_block(1, 0),
        Err(StoreError::NotFound)
    ));
    assert!(matches!(
        store.fetch_tx_by_tx_hash(&h),
        Err(StoreError::NotFound)
    ));
}

#[test]
fn fetch_block_by_hash_finds_saved_block() {
    let mut store = Store::new();
    let (b, txs) = block_at(9);
    let hash_bytes = b.hash().get().clone();
    store.save_block_with_txs(&b, &txs).unwrap();
    let fetched = store
        .fetch_block_by_block_hash(&Sha256::new(hash_bytes))
        .unwrap();
    assert_eq!(fetched.header().height(), 9);
}

#[test]
fn batch_save_persists_all_blocks() {
    let mut store = Store::new();
    let mut batch: Vec<(Block, Vec<Tx>)> = Vec::new();
    for h in [10u64, 11, 12] {
        batch.push(block_at(h));
    }
    store.save_blocks_with_txs(&batch).unwrap();
    assert_eq!(store.block_count(), 3);
    for h in [10u64, 11, 12] {
        assert_eq!(store.fetch_block_by_height(h).unwrap().header().height(), h);
    }
}

#[test]
fn batch_save_rejects_duplicates_atomically() {
    let mut store = Store::new();
    let (b, txs) = block_at(10);
    store.save_block_with_txs(&b, &txs).unwrap();
    let batch = vec![block_at(11), block_at(10)];
    assert!(matches!(
        store.save_blocks_with_txs(&batch),
        Err(StoreError::Duplicate)
    ));
    assert_eq!(store.block_count(), 1);
    let batch2 = vec![block_at(12), block_at(12)];
    assert!(matches!(
        store.save_blocks_with_txs(&batch2),
        Err(StoreError::Duplicate)
    ));
    assert_eq!(store.block_count(), 1);
}

fn event_at(height: u64) -> NewBlockEvent {
    let mut hash = vec![0u8; 32];
    hash[0] = height as u8;
    NewBlockEvent {
        block: Some(RawBlock { header: header_at(height), data: Vec::new() }),
        block_id_hash: Some(hash),
        tx_results: Some(Vec::new()),
    }
}

#[test]
fn first_height_signal_fires_exactly_once() {
    let mut store = Store::new();
    let mut live = LiveIndexer::new(false);
    let registry = empty_registry();

    let skipped = live
        .on_event(
            &mut store,
            &registry,
            &NewBlockEvent { block: None, block_id_hash: None, tx_results: None },
        )
        .unwrap();
    assert!(matches!(skipped, LiveOutcome::Skipped));

    let first = live.on_event(&mut store, &registry, &event_at(100)).unwrap();
    match first {
        LiveOutcome::Processed(sig) => assert_eq!(sig, Some(100)),
        LiveOutcome::Skipped => panic!("first accepted event must be processed"),
    }
    let second = live.on_event(&mut store, &registry, &event_at(101)).unwrap();
    match second {
        LiveOutcome::Processed(sig) => assert_eq!(sig, None),
        LiveOutcome::Skipped => panic!("second accepted event must be processed"),
    }
    assert_eq!(store.block_count(), 2);
    assert_eq!(imbibe::backfill::backfill_bounds(100), Some((1, 99)));
}

#[test]
fn live_event_with_zero_height_is_fatal() {
    let mut store = Store::new();
    let mut live = LiveIndexer::new(false);
    let registry = empty_registry();
    let r = live.on_event(&mut store, &registry, &event_at(0));
    assert!(matches!(r, Err(IndexerError::Height)));
    assert_eq!(store.block_count(), 0);
}

#[test]
fn querier_reads_back_saved_blocks() {
    let mut store = Store::new();
    let (b, txs) = block_at(21);
    store.save_block_with_txs(&b, &txs).unwrap();
    let q = imbibe::querier::Querier::new(store);
    assert_eq!(q.get_block_by_height(21).unwrap().header().height(), 21);
    assert!(matches!(
        q.get_block_by_height(22),
        Err(imbibe::errors::QuerierError::Store(StoreError::NotFound))
    ));
}
