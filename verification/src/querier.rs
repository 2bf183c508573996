use vstd::prelude::*;

use crate::domain::block::Block;
use crate::domain::tx::Tx;
use crate::errors::{QuerierError, StoreError};
use crate::record::{block_from_record_spec, tx_from_record_spec, BlockWithDataRecordV};
use crate::store::{entry_data, lookup_block_hash, lookup_height, lookup_tx_hash, Store};
use crate::types::Sha256;

verus! {

/// The read-side façade over the store: point lookups by height, block
/// hash, transaction index and transaction hash.
pub struct Querier {
    store: Store,
}

impl View for Querier {
    type V = Seq<crate::store::BlockEntryV>;

    closed spec fn view(&self) -> Seq<crate::store::BlockEntryV> {
        self.store@
    }
}

impl Querier {
    /// Wraps a store for reading.
    pub fn new(store: Store) -> (r: Self)
        ensures
            r@ == store@,
    {
        Querier { store }
    }

    /// Fetches a full block by height.
    pub fn get_block_by_height(&self, height: u64) -> (r: Result<Block, QuerierError>)
        ensures
            match lookup_height(self@, height as int) {
                None => r matches Err(QuerierError::Store(e)) && e is NotFound,
                Some(i) => match block_from_record_spec(
                    BlockWithDataRecordV { block: self@[i].block, data: entry_data(self@[i]) },
                ) {
                    Ok(bv) => r matches Ok(b) && b@ == bv,
                    Err(iv) => r matches Err(QuerierError::Store(e)) && (
                    e matches StoreError::InvalidValue(iv2) && iv2 == iv),
                },
            },
    {
        match self.store.fetch_block_by_height(height) {
            Ok(b) => Ok(b),
            Err(e) => Err(QuerierError::Store(e)),
        }
    }

    /// Fetches a full block by its block hash.
    pub fn get_block_by_block_hash(&self, block_hash: &Sha256) -> (r: Result<Block, QuerierError>)
        ensures
            match lookup_block_hash(self@, block_hash@) {
                None => r matches Err(QuerierError::Store(e)) && e is NotFound,
                Some(i) => match block_from_record_spec(
                    BlockWithDataRecordV { block: self@[i].block, data: entry_data(self@[i]) },
                ) {
                    Ok(bv) => r matches Ok(b) && b@ == bv,
                    Err(iv) => r matches Err(QuerierError::Store(e)) && (
                    e matches StoreError::InvalidValue(iv2) && iv2 == iv),
                },
            },
    {
        match self.store.fetch_block_by_block_hash(block_hash) {
            Ok(b) => Ok(b),
            Err(e) => Err(QuerierError::Store(e)),
        }
    }

    /// Fetches a full transaction by block height and index.
    pub fn get_tx_by_block_height_and_tx_idx_in_block(&self, height: u64, tx_idx_in_block: u64)
        -> (r: Result<Tx, QuerierError>)
        ensures
            match lookup_height(self@, height as int) {
                None => r matches Err(QuerierError::Store(e)) && e is NotFound,
                Some(i) => if tx_idx_in_block as int >= self@[i].txs.len() {
                    r matches Err(QuerierError::Store(e)) && e is NotFound
                } else {
                    match tx_from_record_spec(self@[i].txs[tx_idx_in_block as int]) {
                        Ok(tv) => r matches Ok(t) && t@ == tv,
                        Err(iv) => r matches Err(QuerierError::Store(e)) && (
                        e matches StoreError::InvalidValue(iv2) && iv2 == iv),
                    }
                },
            },
    {
        match self.store.fetch_tx_by_block_height_and_tx_idx_in_block(height, tx_idx_in_block) {
            Ok(t) => Ok(t),
            Err(e) => Err(QuerierError::Store(e)),
        }
    }

    /// Fetches a full transaction by its hash.
    pub fn get_tx_by_tx_hash(&self, tx_hash: &Sha256) -> (r: Result<Tx, QuerierError>)
        ensures
            match lookup_tx_hash(self@, tx_hash@) {
                None => r matches Err(QuerierError::Store(e)) && e is NotFound,
                Some(p) => match tx_from_record_spec(self@[p.0].txs[p.1]) {
                    Ok(tv) => r matches Ok(t) && t@ == tv,
                    Err(iv) => r matches Err(QuerierError::Store(e)) && (
                    e matches StoreError::InvalidValue(iv2) && iv2 == iv),
                },
            },
    {
        match self.store.fetch_tx_by_tx_hash(tx_hash) {
            Ok(t) => Ok(t),
            Err(e) => Err(QuerierError::Store(e)),
        }
    }
}

} // verus!
