use imbibe::backfill::{backfill_bounds, to_rpc_height, BackfillIndexer};
use imbibe::domain::block::Block;
use imbibe::domain::tx::Tx;
use imbibe::errors::IndexerError;
use imbibe::normalize::{process_block, RawHeader, RawTxResult};
use imbibe::registry::SignerRegistry;
use imbibe::store::Store;

fn empty_registry() -> SignerRegistry {
    SignerRegistry::new(Vec::new()).unwrap()
}

fn header_at(height: u64) -> RawHeader {
    RawHeader {
        chain_id: "test-chain".to_string(),
        height,
        time_ns: 1_700_000_000_000_000_000,
        validators_hash: Some(vec![1u8; 32]),
        next_validators_hash: Some(vec![2u8; 32]),
        consensus_hash: Some(vec![3u8; 32]),
        app_hash: vec![4u8; 8],
        proposer_address: vec![5u8; 20],
        last_commit_hash: Some(vec![6u8; 32]),
        data_hash: None,
        last_results_hash: None,
        evidence_hash: Some(vec![7u8; 32]),
    }
}

fn process_empty_block(height: u64) -> Result<(Block, Vec<Tx>), IndexerError> {
    process_block(
        false,
        &empty_registry(),
        header_at(height),
        Some(vec![9u8; 32]),
        Vec::new(),
        Vec::new(),
    )
}

#[test]
fn empty_tx_list_block_round_trips() {
    let (block, txs) = process_empty_block(42).unwrap();
    assert_eq!(block.gas_used(), 0);
    assert_eq!(block.data().len(), 0);
    assert_eq!(txs.len(), 0);
    assert_eq!(block.header().height(), 42);

    let mut store = Store::new();
    store.save_block_with_txs(&block, &txs).unwrap();
    let fetched = store.fetch_block_by_height(42).unwrap();
    assert_eq!(fetched.header().height(), 42);
    assert_eq!(fetched.header().chain_id().as_str(), "test-chain");
    assert_eq!(fetched.gas_used(), 0);
    assert_eq!(fetched.data().len(), 0);
    assert_eq!(fetched.hash().get().as_slice(), &[9u8; 32]);
    assert_eq!(
        fetched.header().time().as_nanosecond(),
        1_700_000_000_000_000_000
    );
    assert_eq!(fetched.header().validators_hash().get().as_slice(), &[1u8; 32]);
    assert_eq!(fetched.header().app_hash().get().as_slice(), &[4u8; 8]);
    assert_eq!(fetched.header().proposer().as_bytes().as_slice(), &[5u8; 20]);
    assert!(fetched.header().data_hash().is_none());
    assert_eq!(
        fetched.header().evidence_hash().as_ref().unwrap().get().as_slice(),
        &[7u8; 32]
    );
}

#[test]
fn block_data_mismatch_is_rejected() {
    let r = process_block(
        false,
        &empty_registry(),
        header_at(3),
        Some(vec![9u8; 32]),
        vec![vec![1u8, 2u8]],
        Vec::new(),
    );
    assert!(matches!(r, Err(IndexerError::BlockData)));
}

#[test]
fn empty_tx_bytes_are_rejected() {
    let r = process_block(
        false,
        &empty_registry(),
        header_at(3),
        Some(vec![9u8; 32]),
        vec![Vec::new()],
        vec![RawTxResult {
            code: 0,
            data: Vec::new(),
            codespace: String::new(),
            gas_wanted: 0,
            gas_used: 0,
        }],
    );
    assert!(matches!(r, Err(IndexerError::BlockData)));
}

#[test]
fn zero_height_is_rejected() {
    let r = process_empty_block(0);
    assert!(matches!(r, Err(IndexerError::Height)));
}

#[test]
fn missing_block_hash_is_rejected() {
    let r = process_block(
        false,
        &empty_registry(),
        header_at(7),
        None,
        Vec::new(),
        Vec::new(),
    );
    assert!(matches!(r, Err(IndexerError::BlockHash)));
}

#[test]
fn missing_validators_hash_is_rejected() {
    let mut h = header_at(7);
    h.validators_hash = None;
    let r = process_block(false, &empty_registry(), h, Some(vec![9u8; 32]), Vec::new(), Vec::new());
    assert!(matches!(r, Err(IndexerError::ValidatorHash)));
}

#[test]
fn missing_next_validators_hash_is_rejected() {
    let mut h = header_at(7);
    h.next_validators_hash = None;
    let r = process_block(false, &empty_registry(), h, Some(vec![9u8; 32]), Vec::new(), Vec::new());
    assert!(matches!(r, Err(IndexerError::NextValidatorsHash)));
}

#[test]
fn missing_consensus_hash_is_rejected() {
    let mut h = header_at(7);
    h.consensus_hash = None;
    let r = process_block(false, &empty_registry(), h, Some(vec![9u8; 32]), Vec::new(), Vec::new());
    assert!(matches!(r, Err(IndexerError::ConsensusHash)));
}

#[test]
fn out_of_range_time_is_rejected() {
    let mut h = header_at(7);
    h.time_ns = i128::MAX;
    let r = process_block(false, &empty_registry(), h, Some(vec![9u8; 32]), Vec::new(), Vec::new());
    assert!(matches!(r, Err(IndexerError::Timestamp)));
}

#[test]
fn undecodable_tx_bytes_are_rejected() {
    let r = process_block(
        false,
        &empty_registry(),
        header_at(3),
        Some(vec![9u8; 32]),
        vec![vec![0xffu8, 0xff, 0xff, 0xff]],
        vec![RawTxResult {
            code: 0,
            data: Vec::new(),
            codespace: String::new(),
            gas_wanted: 0,
            gas_used: 0,
        }],
    );
    assert!(matches!(r, Err(IndexerError::TxDecodeError)));
}

#[test]
fn rpc_height_conversion_rejects_overflow() {
    let r = to_rpc_height(1u64 << 63);
    assert!(matches!(r, Err(IndexerError::RpcHeight)));
    assert_eq!(to_rpc_height((1u64 << 63) - 1).unwrap(), i64::MAX);
    assert_eq!(to_rpc_height(17).unwrap(), 17);
}

#[test]
fn backfill_builder_rejects_bad_ranges() {
    assert!(matches!(
        BackfillIndexer::new(1, 1, 5, 5),
        Err(IndexerError::Other(_))
    ));
    assert!(matches!(
        BackfillIndexer::new(1, 1, 7, 5),
        Err(IndexerError::Other(_))
    ));
    assert!(matches!(
        BackfillIndexer::new(0, 1, 1, 5),
        Err(IndexerError::BackfillRange)
    ));
    assert!(matches!(
        BackfillIndexer::new(1, 0, 1, 5),
        Err(IndexerError::BackfillRange)
    ));
    assert!(matches!(
        BackfillIndexer::new(1, 1, 0, 5),
        Err(IndexerError::BackfillRange)
    ));
    let b = BackfillIndexer::new(8, 2, 1, 5).unwrap();
    assert_eq!(b.batch(), 8);
    assert_eq!(b.workers(), 2);
    assert_eq!(b.lo(), 1);
    assert_eq!(b.hi(), 5);
}

#[test]
fn coordinator_bounds_follow_first_height() {
    assert_eq!(backfill_bounds(100), Some((1, 99)));
    assert_eq!(backfill_bounds(2), Some((1, 1)));
    assert_eq!(backfill_bounds(1), None);
}

#[test]
fn chunking_preserves_order_and_size() {
    let heights: Vec<u64> = vec![3, 4, 6, 9, 11];
    let chunks = imbibe::backfill::chunk_heights(&heights, 2);
    assert_eq!(chunks.len(), 3);
    assert_eq!(chunks[0], vec![3, 4]);
    assert_eq!(chunks[1], vec![6, 9]);
    assert_eq!(chunks[2], vec![11]);
    let chunks1 = imbibe::backfill::chunk_heights(&heights, 10);
    assert_eq!(chunks1.len(), 1);
    assert_eq!(chunks1[0], heights);
}
