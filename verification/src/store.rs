use vstd::prelude::*;

use crate::crypto::sha256_of;
use crate::domain::block::{Block, BlockV};
use crate::domain::tx::{Tx, TxV};
use crate::errors::{InvalidValueError, StoreError};
use crate::record::{
    block_from_record_spec, block_record_spec, new_block_record, tx_from_record_spec, tx_records,
    tx_records_spec, BlockWithDataRecord, BlockWithDataRecordV, NewBlockRecord, NewBlockRecordV,
    NewFeeRecord, NewFeeRecordV, NewMsgRecord, NewMsgRecordV, NewSignatureRecord,
    NewSignatureRecordV, NewTxRecord, TxWithDetailsRecord, TxWithDetailsRecordV,
};
use crate::types::clone_bytes;

verus! {

/// View of one persisted block with its transactions.
#[verifier::ext_equal]
pub ghost struct BlockEntryV {
    pub block: NewBlockRecordV,
    pub txs: Seq<TxWithDetailsRecordV>,
}

/// One persisted block with its transaction rows, clustered by height.
pub struct BlockEntry {
    pub block: NewBlockRecord,
    pub txs: Vec<TxWithDetailsRecord>,
}

impl View for BlockEntry {
    type V = BlockEntryV;

    open spec fn view(&self) -> BlockEntryV {
        BlockEntryV { block: self.block@, txs: self.txs.deep_view() }
    }
}

impl DeepView for BlockEntry {
    type V = BlockEntryV;

    open spec fn deep_view(&self) -> BlockEntryV {
        self.view()
    }
}

/// The gas total of a list of transaction views.
pub open spec fn sum_gas(ts: Seq<TxV>) -> int
    decreases ts.len(),
{
    if ts.len() == 0 {
        0
    } else {
        sum_gas(ts.drop_last()) + ts.last().gas_used
    }
}

/// The gas total of a list of transaction rows.
pub open spec fn sum_row_gas(ts: Seq<TxWithDetailsRecordV>) -> int
    decreases ts.len(),
{
    if ts.len() == 0 {
        0
    } else {
        sum_row_gas(ts.drop_last()) + ts.last().tx.gas_used
    }
}

pub proof fn lemma_sum_gas_pointwise(rows: Seq<TxWithDetailsRecordV>, ts: Seq<TxV>)
    requires
        rows.len() == ts.len(),
        forall|i: int| 0 <= i < rows.len() ==> (#[trigger] rows[i]).tx.gas_used == ts[i].gas_used,
    ensures
        sum_row_gas(rows) == sum_gas(ts),
    decreases rows.len(),
{
    if rows.len() > 0 {
        lemma_sum_gas_pointwise(rows.drop_last(), ts.drop_last());
    }
}

/// A block and its transaction list belong together: one transaction per
/// raw byte string, densely indexed at the block's height, each hashing
/// its bytes, with the block's gas the sum over them.
pub open spec fn bundle_wf(b: BlockV, ts: Seq<TxV>) -> bool {
    &&& b.header.height >= 1
    &&& ts.len() == b.data.len()
    &&& forall|i: int|
        0 <= i < ts.len() ==> {
            &&& (#[trigger] ts[i]).block_height == b.header.height
            &&& ts[i].tx_idx_in_block == i
            &&& ts[i].tx_bz == b.data[i]
            &&& ts[i].tx_hash == sha256_of(ts[i].tx_bz)
            &&& ts[i].msgs.len() > 0
            &&& ts[i].tx_bz.len() > 0
        }
    &&& b.gas_used == sum_gas(ts)
}

/// Validity of one transaction row group within its block: the keys match
/// the block's height and the row's position, the child rows carry dense
/// zero-based sub-indices, the hash column is the digest of the raw
/// bytes, and at least one message row exists.
pub open spec fn tx_entry_wf(t: TxWithDetailsRecordV, h: int, k: int) -> bool {
    &&& t.tx.block_height == h
    &&& t.tx.tx_idx_in_block == k
    &&& t.msgs.len() > 0
    &&& t.tx.tx_bz.len() > 0
    &&& t.tx.tx_hash == sha256_of(t.tx.tx_bz)
    &&& forall|j: int|
        0 <= j < t.signatures.len() ==> {
            &&& (#[trigger] t.signatures[j]).block_height == h
            &&& t.signatures[j].tx_idx_in_block == k
            &&& t.signatures[j].signature_idx_in_tx == j
        }
    &&& forall|j: int|
        0 <= j < t.fees.len() ==> {
            &&& (#[trigger] t.fees[j]).block_height == h
            &&& t.fees[j].tx_idx_in_block == k
            &&& t.fees[j].fee_idx_in_tx == j
        }
    &&& forall|j: int|
        0 <= j < t.msgs.len() ==> {
            &&& (#[trigger] t.msgs[j]).block_height == h
            &&& t.msgs[j].tx_idx_in_block == k
            &&& t.msgs[j].msg_idx_in_tx == j
        }
}

/// Validity of one persisted block entry.
pub open spec fn entry_wf(e: BlockEntryV) -> bool {
    &&& e.block.height >= 1
    &&& forall|k: int| 0 <= k < e.txs.len() ==> tx_entry_wf(#[trigger] e.txs[k], e.block.height, k)
    &&& e.block.gas_used == sum_row_gas(e.txs)
}

/// Validity of the whole store: block heights are unique and every entry
/// is internally consistent.
pub open spec fn store_wf(s: Seq<BlockEntryV>) -> bool {
    &&& forall|i: int, j: int|
        0 <= i < j < s.len() ==> (#[trigger] s[i]).block.height != (#[trigger] s[j]).block.height
    &&& forall|i: int| 0 <= i < s.len() ==> entry_wf(#[trigger] s[i])
}

/// Whether some entry persists the given height.
pub open spec fn has_height(s: Seq<BlockEntryV>, h: int) -> bool {
    exists|i: int| 0 <= i < s.len() && (#[trigger] s[i]).block.height == h
}

/// The index of the entry persisting the given height, if any.
pub open spec fn lookup_height(s: Seq<BlockEntryV>, h: int) -> Option<int>
    decreases s.len(),
{
    if s.len() == 0 {
        None
    } else if s[0].block.height == h {
        Some(0int)
    } else {
        match lookup_height(s.drop_first(), h) {
            Some(i) => Some(i + 1),
            None => None,
        }
    }
}

pub proof fn lemma_lookup_height_at(s: Seq<BlockEntryV>, h: int, i: int)
    requires
        0 <= i < s.len(),
        s[i].block.height == h,
        forall|j: int| 0 <= j < i ==> (#[trigger] s[j]).block.height != h,
    ensures
        lookup_height(s, h) == Some(i),
    decreases s.len(),
{
    if i > 0 {
        lemma_lookup_height_at(s.drop_first(), h, i - 1);
    }
}

pub proof fn lemma_lookup_height_none(s: Seq<BlockEntryV>, h: int)
    requires
        forall|j: int| 0 <= j < s.len() ==> (#[trigger] s[j]).block.height != h,
    ensures
        lookup_height(s, h) is None,
        !has_height(s, h),
    decreases s.len(),
{
    if s.len() > 0 {
        lemma_lookup_height_none(s.drop_first(), h);
    }
}

pub proof fn lemma_lookup_height_found(s: Seq<BlockEntryV>, h: int)
    requires
        lookup_height(s, h) matches Some(i),
    ensures
        lookup_height(s, h) matches Some(i) ==> 0 <= i < s.len() && s[i].block.height == h,
        has_height(s, h),
    decreases s.len(),
{
    if s.len() > 0 && s[0].block.height != h {
        lemma_lookup_height_found(s.drop_first(), h);
    }
}

/// The persisted transactional store, modeled as the list of its block
/// entries in insertion order.
pub struct Store {
    entries: Vec<BlockEntry>,
}

impl View for Store {
    type V = Seq<BlockEntryV>;

    closed spec fn view(&self) -> Seq<BlockEntryV> {
        self.entries.deep_view()
    }
}

impl Store {
    /// An empty store.
    pub fn new() -> (r: Self)
        ensures
            r@ == Seq::<BlockEntryV>::empty(),
            store_wf(r@),
    {
        let entries: Vec<BlockEntry> = Vec::new();
        proof {
            assert(entries.deep_view() =~= Seq::<BlockEntryV>::empty());
        }
        Store { entries }
    }

    /// The number of persisted blocks.
    pub fn block_count(&self) -> (r: usize)
        ensures
            r == self@.len(),
    {
        self.entries.len()
    }

    fn find_height(&self, height: i64) -> (r: Option<usize>)
        ensures
            match r {
                Some(i) => i < self@.len() && lookup_height(self@, height as int) == Some(
                    i as int,
                ),
                None => lookup_height(self@, height as int) is None,
            },
    {
        let mut i: usize = 0;
        while i < self.entries.len()
            invariant
                i <= self.entries@.len(),
                forall|j: int|
                    0 <= j < i ==> (#[trigger] self.entries.deep_view()[j]).block.height
                        != height as int,
            decreases self.entries@.len() - i,
        {
            if self.entries[i].block.height == height {
                proof {
                    assert(self.entries.deep_view()[i as int].block.height == height as int);
                    lemma_lookup_height_at(self.entries.deep_view(), height as int, i as int);
                }
                return Some(i);
            }
            proof {
                assert(self.entries.deep_view()[i as int].block.height == self.entries@[
                    i as int
                ].block.height as int);
            }
            i = i + 1;
        }
        proof {
            lemma_lookup_height_none(self.entries.deep_view(), height as int);
        }
        None
    }
}

/// What persisting one block with its transactions appends to the store:
/// its block row and, per transaction, its row group.
pub open spec fn entry_spec(b: BlockV, ts: Seq<TxV>) -> Result<BlockEntryV, InvalidValueError> {
    match block_record_spec(b) {
        Err(e) => Err(e),
        Ok(br) => match tx_bundles_spec(ts) {
            Err(e) => Err(e),
            Ok(rows) => Ok(BlockEntryV { block: br, txs: rows }),
        },
    }
}

/// The row groups of a list of transactions, each converted in order.
pub open spec fn tx_bundles_spec(ts: Seq<TxV>) -> Result<
    Seq<TxWithDetailsRecordV>,
    InvalidValueError,
>
    decreases ts.len(),
{
    if ts.len() == 0 {
        Ok(seq![])
    } else {
        match tx_records_spec(ts[0]) {
            Err(e) => Err(e),
            Ok(row) => match tx_bundles_spec(ts.drop_first()) {
                Err(e) => Err(e),
                Ok(rest) => Ok(seq![row] + rest),
            },
        }
    }
}

pub proof fn lemma_tx_bundles_fields(ts: Seq<TxV>)
    requires
        tx_bundles_spec(ts) is Ok,
    ensures
        tx_bundles_spec(ts)->Ok_0.len() == ts.len(),
        forall|i: int|
            0 <= i < ts.len() ==> #[trigger] tx_bundles_spec(ts)->Ok_0[i] == tx_records_spec(
                ts[i],
            )->Ok_0 && tx_records_spec(ts[i]) is Ok,
    decreases ts.len(),
{
    if ts.len() > 0 {
        lemma_tx_bundles_fields(ts.drop_first());
        let rows = tx_bundles_spec(ts)->Ok_0;
        let rest = tx_bundles_spec(ts.drop_first())->Ok_0;
        assert forall|i: int| 0 <= i < ts.len() implies #[trigger] rows[i] == tx_records_spec(
            ts[i],
        )->Ok_0 && tx_records_spec(ts[i]) is Ok by {
            if i > 0 {
                assert(rows[i] == rest[i - 1]);
                assert(ts.drop_first()[i - 1] == ts[i]);
            }
        }
    }
}

impl Store {
    /// Persists one block together with its transactions, atomically: on
    /// any failure the store is unchanged. A failed value conversion and
    /// an already-persisted height are rejected.
    fn build_entry(block: &Block, txs: &Vec<Tx>) -> (r: Result<BlockEntry, InvalidValueError>)
        ensures
            match entry_spec(block@, txs.deep_view()) {
                Ok(ev) => r matches Ok(entry) && entry@ == ev,
                Err(e) => r matches Err(e2) && e2 == e,
            },
    {
        let br = match new_block_record(block) {
            Ok(rec) => rec,
            Err(e) => {
                return Err(e);
            },
        };
        let mut rows: Vec<TxWithDetailsRecord> = Vec::new();
        let mut i: usize = 0;
        proof {
            assert(txs.deep_view().skip(0) =~= txs.deep_view());
            if tx_bundles_spec(txs.deep_view()) is Ok {
                assert(Seq::<TxWithDetailsRecordV>::empty() + tx_bundles_spec(
                    txs.deep_view(),
                )->Ok_0 =~= tx_bundles_spec(txs.deep_view())->Ok_0);
                assert(rows.deep_view() =~~= Seq::<TxWithDetailsRecordV>::empty());
            }
        }
        while i < txs.len()
            invariant
                i <= txs@.len(),
                rows@.len() == i,
                block_record_spec(block@) is Ok,
                ({
                    let full = tx_bundles_spec(txs.deep_view());
                    match tx_bundles_spec(txs.deep_view().skip(i as int)) {
                        Err(e) => full == Err::<Seq<TxWithDetailsRecordV>, InvalidValueError>(e),
                        Ok(rest) => full == Ok::<Seq<TxWithDetailsRecordV>, InvalidValueError>(
                            rows.deep_view() + rest,
                        ),
                    }
                }),
            decreases txs@.len() - i,
        {
            proof {
                assert(txs.deep_view().skip(i as int)[0] =~~= (txs@[i as int])@);
                assert(txs.deep_view().skip(i as int).drop_first() =~= txs.deep_view().skip(
                    i as int + 1,
                ));
            }
            let row = match tx_records(&txs[i]) {
                Ok(row) => row,
                Err(e) => {
                    return Err(e);
                },
            };
            let ghost rows0 = rows.deep_view();
            let ghost rv = row@;
            rows.push(row);
            proof {
                assert(rows.deep_view() =~~= rows0.push(rv));
                if tx_bundles_spec(txs.deep_view().skip(i as int + 1)) is Ok {
                    let rest2 = tx_bundles_spec(txs.deep_view().skip(i as int + 1))->Ok_0;
                    assert(rows0 + (seq![rv] + rest2) =~= (rows0.push(rv)) + rest2);
                }
            }
            i = i + 1;
        }
        proof {
            assert(txs.deep_view().skip(txs@.len() as int) =~= Seq::<TxV>::empty());
            assert(rows.deep_view() + Seq::<TxWithDetailsRecordV>::empty() =~= rows.deep_view());
        }
        let entry = BlockEntry { block: br, txs: rows };
        proof {
            assert(entry@ =~~= entry_spec(block@, txs.deep_view())->Ok_0);
        }
        Ok(entry)
    }

    /// Persists one block together with its transactions, atomically: on
    /// any failure the store is unchanged. A failed value conversion and
    /// an already-persisted height are rejected.
    pub fn save_block_with_txs(&mut self, block: &Block, txs: &Vec<Tx>) -> (r: Result<
        (),
        StoreError,
    >)
        requires
            store_wf(old(self)@),
            bundle_wf(block@, txs.deep_view()),
        ensures
            store_wf(final(self)@),
            match r {
                Ok(()) => {
                    &&& entry_spec(block@, txs.deep_view()) matches Ok(e) && final(self)@ == old(
                        self,
                    )@.push(e)
                    &&& !has_height(old(self)@, block@.header.height)
                },
                Err(StoreError::InvalidValue(iv)) => entry_spec(block@, txs.deep_view()) == Err::<
                    BlockEntryV,
                    InvalidValueError,
                >(iv) && final(self)@ == old(self)@,
                Err(StoreError::Duplicate) => entry_spec(block@, txs.deep_view()) is Ok
                    && has_height(old(self)@, block@.header.height) && final(self)@ == old(self)@,
                Err(StoreError::NotFound) => false,
            },
    {
        let entry = match Self::build_entry(block, txs) {
            Ok(entry) => entry,
            Err(e) => {
                return Err(StoreError::InvalidValue(e));
            },
        };
        let height = entry.block.height;
        proof {
            assert(entry@.block.height == block@.header.height);
        }
        match self.find_height(height) {
            Some(_) => {
                proof {
                    lemma_lookup_height_found(self.entries.deep_view(), height as int);
                }
                Err(StoreError::Duplicate)
            },
            None => {
                proof {
                    lemma_lookup_height_none_converse(self.entries.deep_view(), height as int);
                }
                let ghost ev = entry@;
                let ghost s0 = self.entries.deep_view();
                proof {
                    lemma_new_entry_wf(block@, txs.deep_view());
                    assert(entry_wf(ev));
                }
                self.entries.push(entry);
                proof {
                    assert(self.entries.deep_view() =~~= s0.push(ev));
                    assert forall|a: int, b: int|
                        0 <= a < b < self.entries.deep_view().len() implies (
                    #[trigger] self.entries.deep_view()[a]).block.height != (
                    #[trigger] self.entries.deep_view()[b]).block.height by {
                        if b < s0.len() {
                        } else {
                            assert(self.entries.deep_view()[b] == ev);
                            if s0[a].block.height == ev.block.height {
                                assert(has_height(s0, ev.block.height));
                            }
                        }
                    }
                }
                Ok(())
            },
        }
    }
}


/// The raw transaction bytes a block's entry aggregates, ordered by
/// transaction index.
pub open spec fn entry_data(e: BlockEntryV) -> Seq<Seq<u8>> {
    Seq::new(e.txs.len(), |k: int| e.txs[k].tx.tx_bz)
}

/// The index of the first transaction row with the given hash.
pub open spec fn find_tx_in_entry(txs: Seq<TxWithDetailsRecordV>, h: Seq<u8>) -> Option<int>
    decreases txs.len(),
{
    if txs.len() == 0 {
        None
    } else if txs[0].tx.tx_hash == h {
        Some(0int)
    } else {
        match find_tx_in_entry(txs.drop_first(), h) {
            Some(k) => Some(k + 1),
            None => None,
        }
    }
}

/// The entry and row indices of the first transaction with the given
/// hash.
pub open spec fn lookup_tx_hash(s: Seq<BlockEntryV>, h: Seq<u8>) -> Option<(int, int)>
    decreases s.len(),
{
    if s.len() == 0 {
        None
    } else {
        match find_tx_in_entry(s[0].txs, h) {
            Some(k) => Some((0int, k)),
            None => match lookup_tx_hash(s.drop_first(), h) {
                Some(p) => Some((p.0 + 1, p.1)),
                None => None,
            },
        }
    }
}

/// The index of the first entry whose block hash is the given one.
pub open spec fn lookup_block_hash(s: Seq<BlockEntryV>, h: Seq<u8>) -> Option<int>
    decreases s.len(),
{
    if s.len() == 0 {
        None
    } else if s[0].block.block_hash == h {
        Some(0int)
    } else {
        match lookup_block_hash(s.drop_first(), h) {
            Some(i) => Some(i + 1),
            None => None,
        }
    }
}

proof fn lemma_find_tx_at(txs: Seq<TxWithDetailsRecordV>, h: Seq<u8>, k: int)
    requires
        0 <= k < txs.len(),
        txs[k].tx.tx_hash == h,
        forall|j: int| 0 <= j < k ==> (#[trigger] txs[j]).tx.tx_hash != h,
    ensures
        find_tx_in_entry(txs, h) == Some(k),
    decreases txs.len(),
{
    if k > 0 {
        lemma_find_tx_at(txs.drop_first(), h, k - 1);
    }
}

proof fn lemma_find_tx_none(txs: Seq<TxWithDetailsRecordV>, h: Seq<u8>)
    requires
        forall|j: int| 0 <= j < txs.len() ==> (#[trigger] txs[j]).tx.tx_hash != h,
    ensures
        find_tx_in_entry(txs, h) is None,
    decreases txs.len(),
{
    if txs.len() > 0 {
        lemma_find_tx_none(txs.drop_first(), h);
    }
}

proof fn lemma_lookup_tx_hash_at(s: Seq<BlockEntryV>, h: Seq<u8>, i: int)
    requires
        0 <= i < s.len(),
        find_tx_in_entry(s[i].txs, h) is Some,
        forall|j: int| 0 <= j < i ==> find_tx_in_entry((#[trigger] s[j]).txs, h) is None,
    ensures
        lookup_tx_hash(s, h) == Some((i, find_tx_in_entry(s[i].txs, h)->Some_0)),
    decreases s.len(),
{
    if i > 0 {
        lemma_lookup_tx_hash_at(s.drop_first(), h, i - 1);
    }
}

proof fn lemma_lookup_tx_hash_none(s: Seq<BlockEntryV>, h: Seq<u8>)
    requires
        forall|j: int| 0 <= j < s.len() ==> find_tx_in_entry((#[trigger] s[j]).txs, h) is None,
    ensures
        lookup_tx_hash(s, h) is None,
    decreases s.len(),
{
    if s.len() > 0 {
        lemma_lookup_tx_hash_none(s.drop_first(), h);
    }
}

proof fn lemma_lookup_block_hash_at(s: Seq<BlockEntryV>, h: Seq<u8>, i: int)
    requires
        0 <= i < s.len(),
        s[i].block.block_hash == h,
        forall|j: int| 0 <= j < i ==> (#[trigger] s[j]).block.block_hash != h,
    ensures
        lookup_block_hash(s, h) == Some(i),
    decreases s.len(),
{
    if i > 0 {
        lemma_lookup_block_hash_at(s.drop_first(), h, i - 1);
    }
}

proof fn lemma_lookup_block_hash_none(s: Seq<BlockEntryV>, h: Seq<u8>)
    requires
        forall|j: int| 0 <= j < s.len() ==> (#[trigger] s[j]).block.block_hash != h,
    ensures
        lookup_block_hash(s, h) is None,
    decreases s.len(),
{
    if s.len() > 0 {
        lemma_lookup_block_hash_none(s.drop_first(), h);
    }
}

impl Store {
    fn entry_data_vec(e: &BlockEntry) -> (r: Vec<Vec<u8>>)
        ensures
            r.deep_view() == entry_data(e@),
    {
        let mut data: Vec<Vec<u8>> = Vec::new();
        let mut k: usize = 0;
        while k < e.txs.len()
            invariant
                k <= e.txs@.len(),
                data@.len() == k,
                forall|j: int| 0 <= j < k ==> (#[trigger] data@[j])@ == (e.txs@[j]).tx.tx_bz@,
            decreases e.txs@.len() - k,
        {
            data.push(clone_bytes(&e.txs[k].tx.tx_bz));
            k = k + 1;
        }
        proof {
            assert forall|j: int| 0 <= j < e.txs@.len() implies #[trigger] data.deep_view()[j]
                == entry_data(e@)[j] by {
                assert(data.deep_view()[j] == (data@[j])@);
                assert(e@.txs[j] == (e.txs@[j])@);
            }
            assert(data.deep_view() =~= entry_data(e@));
        }
        data
    }

    /// Fetches a full block by height: its row rejoined with the raw
    /// bytes of its transactions, in index order.
    pub fn fetch_block_by_height(&self, height: u64) -> (r: Result<Block, StoreError>)
        ensures
            match lookup_height(self@, height as int) {
                None => r matches Err(e) && e is NotFound,
                Some(i) => match block_from_record_spec(
                    BlockWithDataRecordV { block: self@[i].block, data: entry_data(self@[i]) },
                ) {
                    Ok(bv) => r matches Ok(b) && b@ == bv,
                    Err(iv) => r matches Err(e) && (e matches StoreError::InvalidValue(iv2)
                        && iv2 == iv),
                },
            },
    {
        if height > crate::record::I64_MAX_AS_U64 {
            proof {
                assert forall|j: int| 0 <= j < self@.len() implies (
                #[trigger] self@[j]).block.height != height as int by {
                    assert(self@[j].block.height == self.entries@[j].block.height as int);
                }
                lemma_lookup_height_none(self@, height as int);
            }
            return Err(StoreError::NotFound);
        }
        match self.find_height(height as i64) {
            None => Err(StoreError::NotFound),
            Some(i) => {
                let e = &self.entries[i];
                proof {
                    assert(e@ == self@[i as int]);
                }
                let data = Self::entry_data_vec(e);
                let rec = BlockWithDataRecord { block: e.block.clone_rec(), data };
                proof {
                    assert(rec@ =~~= (BlockWithDataRecordV {
                        block: self@[i as int].block,
                        data: entry_data(self@[i as int]),
                    }));
                }
                match crate::record::block_from_record(&rec) {
                    Ok(b) => Ok(b),
                    Err(iv) => Err(StoreError::InvalidValue(iv)),
                }
            },
        }
    }

    /// Fetches a full block by its block hash.
    pub fn fetch_block_by_block_hash(&self, block_hash: &crate::types::Sha256) -> (r: Result<
        Block,
        StoreError,
    >)
        ensures
            match lookup_block_hash(self@, block_hash@) {
                None => r matches Err(e) && e is NotFound,
                Some(i) => match block_from_record_spec(
                    BlockWithDataRecordV { block: self@[i].block, data: entry_data(self@[i]) },
                ) {
                    Ok(bv) => r matches Ok(b) && b@ == bv,
                    Err(iv) => r matches Err(e) && (e matches StoreError::InvalidValue(iv2)
                        && iv2 == iv),
                },
            },
    {
        let mut i: usize = 0;
        while i < self.entries.len()
            invariant
                i <= self.entries@.len(),
                forall|j: int|
                    0 <= j < i ==> (#[trigger] self.entries.deep_view()[j]).block.block_hash
                        != block_hash@,
            decreases self.entries@.len() - i,
        {
            if crate::types::bytes_eq(&self.entries[i].block.block_hash, block_hash.get()) {
                proof {
                    assert(self.entries.deep_view()[i as int].block.block_hash == block_hash@);
                    lemma_lookup_block_hash_at(self@, block_hash@, i as int);
                }
                let e = &self.entries[i];
                let data = Self::entry_data_vec(e);
                let rec = BlockWithDataRecord { block: e.block.clone_rec(), data };
                proof {
                    assert(rec@ =~~= (BlockWithDataRecordV {
                        block: self@[i as int].block,
                        data: entry_data(self@[i as int]),
                    }));
                }
                return match crate::record::block_from_record(&rec) {
                    Ok(b) => Ok(b),
                    Err(iv) => Err(StoreError::InvalidValue(iv)),
                };
            }
            proof {
                assert(self.entries.deep_view()[i as int].block.block_hash == (self.entries@[
                    i as int
                ].block.block_hash)@);
            }
            i = i + 1;
        }
        proof {
            lemma_lookup_block_hash_none(self@, block_hash@);
        }
        Err(StoreError::NotFound)
    }

    /// Fetches a full transaction by block height and index within the
    /// block.
    pub fn fetch_tx_by_block_height_and_tx_idx_in_block(&self, height: u64, tx_idx_in_block: u64)
        -> (r: Result<Tx, StoreError>)
        ensures
            match lookup_height(self@, height as int) {
                None => r matches Err(e) && e is NotFound,
                Some(i) => if tx_idx_in_block as int >= self@[i].txs.len() {
                    r matches Err(e) && e is NotFound
                } else {
                    match tx_from_record_spec(self@[i].txs[tx_idx_in_block as int]) {
                        Ok(tv) => r matches Ok(t) && t@ == tv,
                        Err(iv) => r matches Err(e) && (e matches StoreError::InvalidValue(iv2)
                            && iv2 == iv),
                    }
                },
            },
    {
        if height > crate::record::I64_MAX_AS_U64 {
            proof {
                assert forall|j: int| 0 <= j < self@.len() implies (
                #[trigger] self@[j]).block.height != height as int by {
                    assert(self@[j].block.height == self.entries@[j].block.height as int);
                }
                lemma_lookup_height_none(self@, height as int);
            }
            return Err(StoreError::NotFound);
        }
        match self.find_height(height as i64) {
            None => Err(StoreError::NotFound),
            Some(i) => {
                let e = &self.entries[i];
                proof {
                    assert(e@ == self@[i as int]);
                    assert(e@.txs.len() == e.txs@.len());
                }
                if tx_idx_in_block >= e.txs.len() as u64 {
                    return Err(StoreError::NotFound);
                }
                let k = tx_idx_in_block as usize;
                proof {
                    assert(self@[i as int].txs[k as int] == (e.txs@[k as int])@);
                }
                match crate::record::tx_from_record(&e.txs[k]) {
                    Ok(t) => Ok(t),
                    Err(iv) => Err(StoreError::InvalidValue(iv)),
                }
            },
        }
    }

    /// Fetches a full transaction by its hash.
    pub fn fetch_tx_by_tx_hash(&self, tx_hash: &crate::types::Sha256) -> (r: Result<
        Tx,
        StoreError,
    >)
        ensures
            match lookup_tx_hash(self@, tx_hash@) {
                None => r matches Err(e) && e is NotFound,
                Some(p) => match tx_from_record_spec(self@[p.0].txs[p.1]) {
                    Ok(tv) => r matches Ok(t) && t@ == tv,
                    Err(iv) => r matches Err(e) && (e matches StoreError::InvalidValue(iv2)
                        && iv2 == iv),
                },
            },
    {
        let mut i: usize = 0;
        while i < self.entries.len()
            invariant
                i <= self.entries@.len(),
                forall|j: int|
                    0 <= j < i ==> find_tx_in_entry(
                        (#[trigger] self.entries.deep_view()[j]).txs,
                        tx_hash@,
                    ) is None,
            decreases self.entries@.len() - i,
        {
            let e = &self.entries[i];
            let mut k: usize = 0;
            while k < e.txs.len()
                invariant
                    k <= e.txs@.len(),
                    i < self.entries@.len(),
                    *e == self.entries@[i as int],
                    forall|j: int|
                        0 <= j < i ==> find_tx_in_entry(
                            (#[trigger] self.entries.deep_view()[j]).txs,
                            tx_hash@,
                        ) is None,
                    forall|j: int|
                        0 <= j < k ==> (#[trigger] e.txs.deep_view()[j]).tx.tx_hash != tx_hash@,
                decreases e.txs@.len() - k,
            {
                if crate::types::bytes_eq(&e.txs[k].tx.tx_hash, tx_hash.get()) {
                    proof {
                        assert(e.txs.deep_view()[k as int].tx.tx_hash == tx_hash@);
                        lemma_find_tx_at(e.txs.deep_view(), tx_hash@, k as int);
                        assert(self@[i as int].txs =~= e.txs.deep_view());
                        lemma_lookup_tx_hash_at(self@, tx_hash@, i as int);
                        assert(self@[i as int].txs[k as int] == (e.txs@[k as int])@);
                    }
                    return match crate::record::tx_from_record(&e.txs[k]) {
                        Ok(t) => Ok(t),
                        Err(iv) => Err(StoreError::InvalidValue(iv)),
                    };
                }
                proof {
                    assert(e.txs.deep_view()[k as int].tx.tx_hash == (e.txs@[k as int]).tx.tx_hash@);
                }
                k = k + 1;
            }
            proof {
                lemma_find_tx_none(e.txs.deep_view(), tx_hash@);
                assert(self.entries.deep_view()[i as int].txs =~= e.txs.deep_view());
            }
            i = i + 1;
        }
        proof {
            lemma_lookup_tx_hash_none(self@, tx_hash@);
        }
        Err(StoreError::NotFound)
    }
}

/// The heights in `[lo, hi]` absent from the store, in ascending order.
pub open spec fn missing_heights(s: Seq<BlockEntryV>, lo: int, hi: int) -> Seq<int>
    decreases hi + 1 - lo,
{
    if lo > hi {
        seq![]
    } else if has_height(s, lo) {
        missing_heights(s, lo + 1, hi)
    } else {
        seq![lo] + missing_heights(s, lo + 1, hi)
    }
}

/// A height is reported missing exactly when it lies in the range and no
/// entry persists it.
pub proof fn lemma_missing_heights_contains(s: Seq<BlockEntryV>, lo: int, hi: int, h: int)
    ensures
        missing_heights(s, lo, hi).contains(h) <==> (lo <= h <= hi && !has_height(s, h)),
    decreases hi + 1 - lo,
{
    if lo > hi {
    } else {
        lemma_missing_heights_contains(s, lo + 1, hi, h);
        let rest = missing_heights(s, lo + 1, hi);
        if has_height(s, lo) {
            if h == lo {
                assert(!rest.contains(h));
            }
        } else {
            let full = seq![lo] + rest;
            if h == lo {
                assert(full[0] == h);
                assert(full.contains(h));
            } else {
                if rest.contains(h) {
                    let j = choose|j: int| 0 <= j < rest.len() && rest[j] == h;
                    assert(full[j + 1] == h);
                    assert(full.contains(h));
                }
                if full.contains(h) {
                    let j = choose|j: int| 0 <= j < full.len() && full[j] == h;
                    assert(j > 0 && rest[j - 1] == h);
                    assert(rest.contains(h));
                }
            }
        }
    }
}

/// After a live run persisting every height from `first` up to `top` and
/// a backfill persisting every height the store was missing below
/// `first`, no height up to `top` is absent.
pub proof fn lemma_gap_fill_completeness(
    s0: Seq<BlockEntryV>,
    s1: Seq<BlockEntryV>,
    first: int,
    top: int,
    h: int,
)
    requires
        1 <= h <= top,
        1 <= first,
        forall|x: int| first <= x <= top ==> has_height(s1, x),
        forall|x: int| missing_heights(s0, 1, first - 1).contains(x) ==> has_height(s1, x),
        forall|x: int| has_height(s0, x) ==> has_height(s1, x),
    ensures
        has_height(s1, h),
{
    if h < first {
        lemma_missing_heights_contains(s0, 1, first - 1, h);
        if !has_height(s0, h) {
            assert(missing_heights(s0, 1, first - 1).contains(h));
        }
    }
}

impl Store {
    /// The ascending heights in `[lo, hi]` that no block row covers; the
    /// bounds must fit the signed column type.
    pub fn fetch_missing_block_heights(&self, lo: u64, hi: u64) -> (r: Result<Vec<u64>, StoreError>)
        ensures
            lo > crate::record::I64_MAX_AS_U64 || hi > crate::record::I64_MAX_AS_U64 ==> (
            r matches Err(e) && (e matches StoreError::InvalidValue(iv) && iv is IntConversion)),
            lo <= crate::record::I64_MAX_AS_U64 && hi <= crate::record::I64_MAX_AS_U64 ==> (
            r matches Ok(v) && Seq::new(v@.len(), |j: int| v@[j] as int) == missing_heights(
                self@,
                lo as int,
                hi as int,
            )),
    {
        if lo > crate::record::I64_MAX_AS_U64 || hi > crate::record::I64_MAX_AS_U64 {
            return Err(StoreError::InvalidValue(InvalidValueError::IntConversion));
        }
        let mut acc: Vec<u64> = Vec::new();
        let mut h: u64 = lo;
        proof {
            assert(Seq::new(acc@.len(), |j: int| acc@[j] as int) + missing_heights(
                self@,
                lo as int,
                hi as int,
            ) =~= missing_heights(self@, lo as int, hi as int));
        }
        while h <= hi
            invariant
                lo <= h,
                hi <= crate::record::I64_MAX_AS_U64,
                missing_heights(self@, lo as int, hi as int) =~= Seq::new(
                    acc@.len(),
                    |j: int| acc@[j] as int,
                ) + missing_heights(self@, h as int, hi as int),
            decreases hi + 1 - h,
        {
            let ghost acc0 = acc@;
            match self.find_height(h as i64) {
                Some(_) => {
                    proof {
                        lemma_lookup_height_found(self@, h as int);
                    }
                },
                None => {
                    proof {
                        lemma_lookup_height_none_converse(self@, h as int);
                    }
                    acc.push(h);
                    proof {
                        let rest = missing_heights(self@, h as int + 1, hi as int);
                        assert(Seq::new(acc@.len(), |j: int| acc@[j] as int) =~= Seq::new(
                            acc0.len(),
                            |j: int| acc0[j] as int,
                        ) + seq![h as int]);
                        assert((Seq::new(acc0.len(), |j: int| acc0[j] as int) + seq![h as int])
                            + rest =~= Seq::new(acc0.len(), |j: int| acc0[j] as int) + (seq![
                            h as int,
                        ] + rest));
                    }
                },
            }
            h = h + 1;
        }
        proof {
            assert(missing_heights(self@, h as int, hi as int) =~= Seq::<int>::empty());
            assert(Seq::new(acc@.len(), |j: int| acc@[j] as int) + Seq::<int>::empty() =~= Seq::new(
                acc@.len(),
                |j: int| acc@[j] as int,
            ));
        }
        Ok(acc)
    }
}

pub proof fn lemma_lookup_height_none_converse(s: Seq<BlockEntryV>, h: int)
    requires
        lookup_height(s, h) is None,
    ensures
        !has_height(s, h),
        forall|j: int| 0 <= j < s.len() ==> (#[trigger] s[j]).block.height != h,
    decreases s.len(),
{
    if s.len() > 0 {
        lemma_lookup_height_none_converse(s.drop_first(), h);
        assert forall|j: int| 0 <= j < s.len() implies (#[trigger] s[j]).block.height != h by {
            if j > 0 {
                assert(s.drop_first()[j - 1] == s[j]);
            }
        }
    }
}

/// What persisting a batch appends to the store: the entries of its
/// bundles, each converted in order.
pub open spec fn batch_entries_spec(batch: Seq<(Block, Vec<Tx>)>) -> Result<
    Seq<BlockEntryV>,
    InvalidValueError,
>
    decreases batch.len(),
{
    if batch.len() == 0 {
        Ok(seq![])
    } else {
        match entry_spec(batch[0].0@, batch[0].1.deep_view()) {
            Err(e) => Err(e),
            Ok(en) => match batch_entries_spec(batch.drop_first()) {
                Err(e) => Err(e),
                Ok(rest) => Ok(seq![en] + rest),
            },
        }
    }
}

pub proof fn lemma_batch_entries_fields(batch: Seq<(Block, Vec<Tx>)>)
    requires
        batch_entries_spec(batch) is Ok,
    ensures
        batch_entries_spec(batch)->Ok_0.len() == batch.len(),
        forall|i: int|
            0 <= i < batch.len() ==> #[trigger] batch_entries_spec(batch)->Ok_0[i] == entry_spec(
                batch[i].0@,
                batch[i].1.deep_view(),
            )->Ok_0 && entry_spec(batch[i].0@, batch[i].1.deep_view()) is Ok,
    decreases batch.len(),
{
    if batch.len() > 0 {
        lemma_batch_entries_fields(batch.drop_first());
        let es = batch_entries_spec(batch)->Ok_0;
        let rest = batch_entries_spec(batch.drop_first())->Ok_0;
        assert forall|i: int| 0 <= i < batch.len() implies #[trigger] es[i] == entry_spec(
            batch[i].0@,
            batch[i].1.deep_view(),
        )->Ok_0 && entry_spec(batch[i].0@, batch[i].1.deep_view()) is Ok by {
            if i > 0 {
                assert(es[i] == rest[i - 1]);
                assert(batch.drop_first()[i - 1] == batch[i]);
            }
        }
    }
}

/// No batch block's height is already persisted, and no two batch blocks
/// share a height.
pub open spec fn batch_heights_fresh(s: Seq<BlockEntryV>, batch: Seq<(Block, Vec<Tx>)>) -> bool {
    &&& forall|i: int|
        0 <= i < batch.len() ==> !has_height(s, (#[trigger] batch[i]).0@.header.height)
    &&& forall|i: int, j: int|
        0 <= i < j < batch.len() ==> (#[trigger] batch[i]).0@.header.height != (
        #[trigger] batch[j]).0@.header.height
}

impl Store {
    /// Persists a batch of blocks with their transactions in one
    /// transaction: on any failure the store is unchanged. A failed value
    /// conversion, an already-persisted height and a height repeated
    /// within the batch are rejected.
    #[verifier::rlimit(60)]
    pub fn save_blocks_with_txs(&mut self, batch: &Vec<(Block, Vec<Tx>)>) -> (r: Result<
        (),
        StoreError,
    >)
        requires
            store_wf(old(self)@),
            forall|i: int|
                0 <= i < batch@.len() ==> bundle_wf(
                    (#[trigger] batch@[i]).0@,
                    batch@[i].1.deep_view(),
                ),
        ensures
            store_wf(final(self)@),
            match r {
                Ok(()) => {
                    &&& batch_entries_spec(batch@) matches Ok(es) && final(self)@ == old(self)@
                        + es
                    &&& batch_heights_fresh(old(self)@, batch@)
                },
                Err(StoreError::InvalidValue(iv)) => batch_entries_spec(batch@) == Err::<
                    Seq<BlockEntryV>,
                    InvalidValueError,
                >(iv) && final(self)@ == old(self)@,
                Err(StoreError::Duplicate) => batch_entries_spec(batch@) is Ok
                    && !batch_heights_fresh(old(self)@, batch@) && final(self)@ == old(self)@,
                Err(StoreError::NotFound) => false,
            },
    {
        let mut entries_new: Vec<BlockEntry> = Vec::new();
        let mut i: usize = 0;
        proof {
            assert(batch@.skip(0) =~= batch@);
            if batch_entries_spec(batch@) is Ok {
                assert(Seq::<BlockEntryV>::empty() + batch_entries_spec(batch@)->Ok_0
                    =~= batch_entries_spec(batch@)->Ok_0);
                assert(entries_new.deep_view() =~~= Seq::<BlockEntryV>::empty());
            }
        }
        while i < batch.len()
            invariant
                i <= batch@.len(),
                entries_new@.len() == i,
                *self == *old(self),
                store_wf(old(self)@),
                forall|k: int|
                    0 <= k < batch@.len() ==> bundle_wf(
                        (#[trigger] batch@[k]).0@,
                        batch@[k].1.deep_view(),
                    ),
                ({
                    let full = batch_entries_spec(batch@);
                    match batch_entries_spec(batch@.skip(i as int)) {
                        Err(e) => full == Err::<Seq<BlockEntryV>, InvalidValueError>(e),
                        Ok(rest) => full == Ok::<Seq<BlockEntryV>, InvalidValueError>(
                            entries_new.deep_view() + rest,
                        ),
                    }
                }),
            decreases batch@.len() - i,
        {
            proof {
                assert(batch@.skip(i as int)[0] == batch@[i as int]);
                assert(batch@.skip(i as int).drop_first() =~= batch@.skip(i as int + 1));
            }
            let entry = match Self::build_entry(&batch[i].0, &batch[i].1) {
                Ok(entry) => entry,
                Err(e) => {
                    return Err(StoreError::InvalidValue(e));
                },
            };
            let ghost es0 = entries_new.deep_view();
            let ghost ev = entry@;
            entries_new.push(entry);
            proof {
                assert(entries_new.deep_view() =~~= es0.push(ev));
                if batch_entries_spec(batch@.skip(i as int + 1)) is Ok {
                    let rest2 = batch_entries_spec(batch@.skip(i as int + 1))->Ok_0;
                    assert(es0 + (seq![ev] + rest2) =~= (es0.push(ev)) + rest2);
                }
            }
            i = i + 1;
        }
        proof {
            assert(batch@.skip(batch@.len() as int) =~= Seq::<(Block, Vec<Tx>)>::empty());
            assert(entries_new.deep_view() + Seq::<BlockEntryV>::empty() =~= entries_new
                .deep_view());
            lemma_batch_entries_fields(batch@);
        }
        let mut i: usize = 0;
        while i < entries_new.len()
            invariant
                i <= entries_new@.len(),
                *self == *old(self),
                store_wf(old(self)@),
                entries_new@.len() == batch@.len(),
                batch_entries_spec(batch@) matches Ok(es) && es == entries_new.deep_view(),
                forall|k: int|
                    0 <= k < entries_new@.len() ==> (#[trigger] entries_new.deep_view()[k])
                        == entry_spec(batch@[k].0@, batch@[k].1.deep_view())->Ok_0 && entry_spec(
                        batch@[k].0@,
                        batch@[k].1.deep_view(),
                    ) is Ok && bundle_wf(batch@[k].0@, batch@[k].1.deep_view()),
                forall|k: int|
                    0 <= k < i ==> !has_height(
                        old(self)@,
                        (#[trigger] entries_new.deep_view()[k]).block.height,
                    ),
                forall|k: int, l: int|
                    0 <= k < l < i ==> (#[trigger] entries_new.deep_view()[k]).block.height != (
                    #[trigger] entries_new.deep_view()[l]).block.height,
            decreases entries_new@.len() - i,
        {
            proof {
                assert(entries_new.deep_view()[i as int].block.height == batch@[
                    i as int
                ].0@.header.height);
            }
            match self.find_height(entries_new[i].block.height) {
                Some(_) => {
                    proof {
                        lemma_lookup_height_found(
                            self.entries.deep_view(),
                            entries_new.deep_view()[i as int].block.height,
                        );
                    }
                    return Err(StoreError::Duplicate);
                },
                None => {
                    proof {
                        lemma_lookup_height_none_converse(
                            self.entries.deep_view(),
                            entries_new.deep_view()[i as int].block.height,
                        );
                    }
                },
            }
            let mut j: usize = 0;
            while j < i
                invariant
                    j <= i < entries_new@.len(),
                    *self == *old(self),
                    store_wf(old(self)@),
                    entries_new@.len() == batch@.len(),
                    batch_entries_spec(batch@) matches Ok(es) && es == entries_new.deep_view(),
                    forall|k: int|
                        0 <= k < entries_new@.len() ==> (#[trigger] entries_new.deep_view()[k])
                            == entry_spec(batch@[k].0@, batch@[k].1.deep_view())->Ok_0
                            && entry_spec(batch@[k].0@, batch@[k].1.deep_view()) is Ok,
                    forall|k: int|
                        0 <= k < j ==> (#[trigger] entries_new.deep_view()[k]).block.height
                            != entries_new.deep_view()[i as int].block.height,
                decreases i - j,
            {
                if entries_new[j].block.height == entries_new[i].block.height {
                    proof {
                        assert(entries_new.deep_view()[j as int].block.height == entries_new@[
                            j as int
                        ].block.height as int);
                        assert(entries_new.deep_view()[i as int].block.height == entries_new@[
                            i as int
                        ].block.height as int);
                        assert(entries_new.deep_view()[j as int].block.height == entries_new
                            .deep_view()[i as int].block.height);
                        assert(batch@[j as int].0@.header.height == batch@[
                            i as int
                        ].0@.header.height);
                    }
                    return Err(StoreError::Duplicate);
                }
                proof {
                    assert(entries_new.deep_view()[j as int].block.height == entries_new@[
                        j as int
                    ].block.height as int);
                    assert(entries_new.deep_view()[i as int].block.height == entries_new@[
                        i as int
                    ].block.height as int);
                }
                j = j + 1;
            }
            i = i + 1;
        }
        proof {
            assert forall|k: int| 0 <= k < batch@.len() implies !has_height(
                old(self)@,
                (#[trigger] batch@[k]).0@.header.height,
            ) by {
                assert(entries_new.deep_view()[k].block.height == batch@[k].0@.header.height);
            }
            assert forall|k: int, l: int| 0 <= k < l < batch@.len() implies (
            #[trigger] batch@[k]).0@.header.height != (#[trigger] batch@[l]).0@.header.height by {
                assert(entries_new.deep_view()[k].block.height == batch@[k].0@.header.height);
                assert(entries_new.deep_view()[l].block.height == batch@[l].0@.header.height);
            }
        }
        let ghost s0 = self.entries.deep_view();
        let ghost new_views = entries_new.deep_view();
        let ghost total = new_views.len();
        proof {
            assert forall|x: int| 0 <= x < total implies entry_wf(#[trigger] new_views[x]) by {
                assert(new_views[x] == entry_spec(batch@[x].0@, batch@[x].1.deep_view())->Ok_0);
                lemma_new_entry_wf(batch@[x].0@, batch@[x].1.deep_view());
            }
        }
        let ghost mut k: int = 0;
        proof {
            assert(s0 + new_views.subrange(0, 0) =~= s0);
            assert(entries_new.deep_view() =~= new_views.skip(0));
        }
        while entries_new.len() > 0
            invariant
                k == total - entries_new@.len(),
                0 <= k,
                total == new_views.len(),
                total == batch@.len(),
                entries_new.deep_view() =~= new_views.skip(k),
                s0 == old(self)@,
                store_wf(old(self)@),
                self.entries.deep_view() =~= s0 + new_views.subrange(0, k),
                store_wf(self.entries.deep_view()),
                forall|x: int|
                    0 <= x < total ==> !has_height(s0, (#[trigger] new_views[x]).block.height),
                forall|x: int, y: int|
                    0 <= x < y < total ==> (#[trigger] new_views[x]).block.height != (
                    #[trigger] new_views[y]).block.height,
                forall|x: int| 0 <= x < total ==> entry_wf(#[trigger] new_views[x]),
            decreases entries_new@.len(),
        {
            let ghost cur = self.entries.deep_view();
            let ghost ev = new_views[k];
            let ghost pre = entries_new@;
            let ghost pre_deep = entries_new.deep_view();
            proof {
                assert(entries_new.deep_view()[0] == new_views.skip(k)[0]);
            }
            let entry = entries_new.remove(0);
            proof {
                assert(entry@ =~~= ev);
                assert forall|t: int| 0 <= t < entries_new.deep_view().len() implies
                    #[trigger] entries_new.deep_view()[t] == new_views.skip(k + 1)[t] by {
                    assert(entries_new@[t] == pre[t + 1]);
                    assert(entries_new.deep_view()[t] == (entries_new@[t])@);
                    assert(pre_deep[t + 1] == (pre[t + 1])@);
                    assert(pre_deep[t + 1] == new_views.skip(k)[t + 1]);
                    assert(new_views.skip(k)[t + 1] == new_views.skip(k + 1)[t]);
                }
                assert(entries_new.deep_view() =~~= new_views.skip(k + 1));
            }
            self.entries.push(entry);
            proof {
                assert(self.entries.deep_view() =~~= cur.push(ev));
                assert(self.entries.deep_view() =~= s0 + new_views.subrange(0, k + 1));
                assert forall|a: int, b: int|
                    0 <= a < b < self.entries.deep_view().len() implies (
                #[trigger] self.entries.deep_view()[a]).block.height != (
                #[trigger] self.entries.deep_view()[b]).block.height by {
                    if b == cur.len() {
                        if a < s0.len() {
                            if s0[a].block.height == ev.block.height {
                                assert(has_height(s0, ev.block.height));
                            }
                        } else {
                            assert(self.entries.deep_view()[a] == new_views[a - s0.len()]);
                        }
                    }
                }
            }
            proof {
                k = k + 1;
            }
        }
        proof {
            assert(new_views.subrange(0, new_views.len() as int) =~= new_views);
            assert(self.entries.deep_view() =~= s0 + new_views);
        }
        Ok(())
    }
}

pub proof fn lemma_sum_gas_prepend(t: TxV, ts: Seq<TxV>)
    ensures
        sum_gas(seq![t] + ts) == t.gas_used + sum_gas(ts),
    decreases ts.len(),
{
    if ts.len() == 0 {
        assert(seq![t] + ts =~= seq![t]);
        assert(sum_gas(seq![t]) == sum_gas(Seq::<TxV>::empty()) + t.gas_used) by {
            assert(seq![t].drop_last() =~= Seq::<TxV>::empty());
        }
    } else {
        assert((seq![t] + ts).drop_last() =~= seq![t] + ts.drop_last());
        assert((seq![t] + ts).last() == ts.last());
        lemma_sum_gas_prepend(t, ts.drop_last());
    }
}

/// Every transaction a successful normalization yields sits at its dense
/// index with the block's height, hashes its own bytes, carries at least
/// one message, and the returned total is the gas sum.
pub proof fn lemma_process_txs_fields(
    eth_enabled: bool,
    reg: Seq<crate::registry::RegistryEntryV>,
    height: int,
    data: Seq<Seq<u8>>,
    results: Seq<crate::normalize::RawTxResultV>,
    idx: int,
    gas0: int,
)
    requires
        crate::normalize::process_txs_spec(eth_enabled, reg, height, data, results, idx, gas0)
            is Ok,
    ensures
        ({
            let p = crate::normalize::process_txs_spec(
                eth_enabled,
                reg,
                height,
                data,
                results,
                idx,
                gas0,
            )->Ok_0;
            &&& p.0.len() == data.len()
            &&& forall|i: int|
                0 <= i < p.0.len() ==> {
                    &&& (#[trigger] p.0[i]).block_height == height
                    &&& p.0[i].tx_idx_in_block == idx + i
                    &&& p.0[i].tx_bz == data[i]
                    &&& p.0[i].tx_hash == sha256_of(data[i])
                    &&& p.0[i].msgs.len() > 0
                    &&& p.0[i].gas_used >= 0
                }
            &&& p.1 == gas0 + sum_gas(p.0)
        }),
    decreases data.len(),
{
    if data.len() > 0 {
        let tv = crate::normalize::make_tx_spec(eth_enabled, reg, height, idx, data[0], results[0])->Ok_0;
        lemma_process_txs_fields(
            eth_enabled,
            reg,
            height,
            data.drop_first(),
            results.drop_first(),
            idx + 1,
            gas0 + tv.gas_used,
        );
        let rest = crate::normalize::process_txs_spec(
            eth_enabled,
            reg,
            height,
            data.drop_first(),
            results.drop_first(),
            idx + 1,
            gas0 + tv.gas_used,
        )->Ok_0;
        let p = crate::normalize::process_txs_spec(
            eth_enabled,
            reg,
            height,
            data,
            results,
            idx,
            gas0,
        )->Ok_0;
        assert(p.0 == seq![tv] + rest.0);
        lemma_sum_gas_prepend(tv, rest.0);
        assert forall|i: int| 0 <= i < p.0.len() implies {
            &&& (#[trigger] p.0[i]).block_height == height
            &&& p.0[i].tx_idx_in_block == idx + i
            &&& p.0[i].tx_bz == data[i]
            &&& p.0[i].tx_hash == sha256_of(data[i])
            &&& p.0[i].msgs.len() > 0
            &&& p.0[i].gas_used >= 0
        } by {
            if i > 0 {
                assert(p.0[i] == rest.0[i - 1]);
                assert(data.drop_first()[i - 1] == data[i]);
            }
        }
    } else {
        assert(sum_gas(Seq::<TxV>::empty()) == 0);
    }
}

/// A successfully normalized block and its transactions form a consistent
/// bundle: the data length matches the transaction count, every
/// transaction is densely indexed at the block's height over its own raw
/// bytes and hash, and the block's gas is the sum over them.
pub proof fn lemma_process_block_bundle(
    eth_enabled: bool,
    reg: Seq<crate::registry::RegistryEntryV>,
    header: crate::normalize::RawHeaderV,
    hash: Option<Seq<u8>>,
    data: Seq<Seq<u8>>,
    results: Seq<crate::normalize::RawTxResultV>,
)
    requires
        crate::normalize::process_block_spec(eth_enabled, reg, header, hash, data, results) is Ok,
    ensures
        ({
            let p = crate::normalize::process_block_spec(
                eth_enabled,
                reg,
                header,
                hash,
                data,
                results,
            )->Ok_0;
            bundle_wf(p.0, p.1)
        }),
{
    lemma_process_txs_fields(eth_enabled, reg, header.height, data, results, 0, 0);
}

/// In a well-formed store, every block row's gas column is the sum of the
/// gas of its transaction rows.
pub proof fn lemma_persisted_gas_total(s: Seq<BlockEntryV>, i: int)
    requires
        store_wf(s),
        0 <= i < s.len(),
    ensures
        s[i].block.gas_used == sum_row_gas(s[i].txs),
{
}

/// In a well-formed store, every transaction row's hash column is the
/// digest of its raw bytes.
pub proof fn lemma_persisted_tx_hash(s: Seq<BlockEntryV>, i: int, k: int)
    requires
        store_wf(s),
        0 <= i < s.len(),
        0 <= k < s[i].txs.len(),
    ensures
        s[i].txs[k].tx.tx_hash == sha256_of(s[i].txs[k].tx.tx_bz),
{
    assert(tx_entry_wf(s[i].txs[k], s[i].block.height, k));
}

/// In a well-formed store, every transaction has at least one message row.
pub proof fn lemma_persisted_msgs_nonempty(s: Seq<BlockEntryV>, i: int, k: int)
    requires
        store_wf(s),
        0 <= i < s.len(),
        0 <= k < s[i].txs.len(),
    ensures
        s[i].txs[k].msgs.len() > 0,
{
    assert(tx_entry_wf(s[i].txs[k], s[i].block.height, k));
}

/// In a well-formed store, the child rows of every transaction carry
/// dense zero-based sub-indices in order.
pub proof fn lemma_persisted_child_indices(s: Seq<BlockEntryV>, i: int, k: int)
    requires
        store_wf(s),
        0 <= i < s.len(),
        0 <= k < s[i].txs.len(),
    ensures
        forall|j: int|
            0 <= j < s[i].txs[k].signatures.len() ==> (
            #[trigger] s[i].txs[k].signatures[j]).signature_idx_in_tx == j,
        forall|j: int|
            0 <= j < s[i].txs[k].fees.len() ==> (#[trigger] s[i].txs[k].fees[j]).fee_idx_in_tx
                == j,
        forall|j: int|
            0 <= j < s[i].txs[k].msgs.len() ==> (#[trigger] s[i].txs[k].msgs[j]).msg_idx_in_tx
                == j,
{
    assert(tx_entry_wf(s[i].txs[k], s[i].block.height, k));
}

/// In any store, the raw byte strings a block's entry aggregates are in
/// one-to-one correspondence with its transaction rows.
pub proof fn lemma_persisted_block_data_count(s: Seq<BlockEntryV>, i: int)
    requires
        0 <= i < s.len(),
    ensures
        entry_data(s[i]).len() == s[i].txs.len(),
{
}

impl Store {
    /// Builds the flat row lists a batch insert writes, in table order:
    /// one transaction row per transaction and, per transaction, its
    /// signature, fee and message rows with dense sub-indices; any value
    /// conversion failure yields no rows at all.
    pub fn process_new_records_from_txs(txs: &Vec<Tx>) -> (r: Result<
        (Vec<NewTxRecord>, Vec<NewSignatureRecord>, Vec<NewFeeRecord>, Vec<NewMsgRecord>),
        InvalidValueError,
    >)
        ensures
            match tx_bundles_spec(txs.deep_view()) {
                Err(e) => r matches Err(e2) && e2 == e,
                Ok(rows) => r matches Ok(t) && {
                    &&& t.0.deep_view() == Seq::new(rows.len(), |i: int| rows[i].tx)
                    &&& t.1.deep_view() == Seq::new(
                        rows.len(),
                        |i: int| rows[i].signatures,
                    ).flatten()
                    &&& t.2.deep_view() == Seq::new(rows.len(), |i: int| rows[i].fees).flatten()
                    &&& t.3.deep_view() == Seq::new(rows.len(), |i: int| rows[i].msgs).flatten()
                },
            },
    {
        let mut tx_rows: Vec<NewTxRecord> = Vec::new();
        let mut sig_rows: Vec<NewSignatureRecord> = Vec::new();
        let mut fee_rows: Vec<NewFeeRecord> = Vec::new();
        let mut msg_rows: Vec<NewMsgRecord> = Vec::new();
        let ghost mut rows_acc: Seq<TxWithDetailsRecordV> = Seq::empty();
        let mut i: usize = 0;
        proof {
            assert(txs.deep_view().skip(0) =~= txs.deep_view());
            if tx_bundles_spec(txs.deep_view()) is Ok {
                assert(Seq::<TxWithDetailsRecordV>::empty() + tx_bundles_spec(
                    txs.deep_view(),
                )->Ok_0 =~= tx_bundles_spec(txs.deep_view())->Ok_0);
            }
            assert(tx_rows.deep_view() =~~= Seq::new(rows_acc.len(), |k: int| rows_acc[k].tx));
            assert(Seq::new(rows_acc.len(), |k: int| rows_acc[k].signatures).flatten() =~= Seq::<
                NewSignatureRecordV,
            >::empty());
            assert(sig_rows.deep_view() =~~= Seq::<NewSignatureRecordV>::empty());
            assert(Seq::new(rows_acc.len(), |k: int| rows_acc[k].fees).flatten() =~= Seq::<
                NewFeeRecordV,
            >::empty());
            assert(fee_rows.deep_view() =~~= Seq::<NewFeeRecordV>::empty());
            assert(Seq::new(rows_acc.len(), |k: int| rows_acc[k].msgs).flatten() =~= Seq::<
                NewMsgRecordV,
            >::empty());
            assert(msg_rows.deep_view() =~~= Seq::<NewMsgRecordV>::empty());
        }
        while i < txs.len()
            invariant
                i <= txs@.len(),
                rows_acc.len() == i,
                ({
                    let full = tx_bundles_spec(txs.deep_view());
                    match tx_bundles_spec(txs.deep_view().skip(i as int)) {
                        Err(e) => full == Err::<Seq<TxWithDetailsRecordV>, InvalidValueError>(e),
                        Ok(rest) => full == Ok::<Seq<TxWithDetailsRecordV>, InvalidValueError>(
                            rows_acc + rest,
                        ),
                    }
                }),
                tx_rows.deep_view() == Seq::new(rows_acc.len(), |k: int| rows_acc[k].tx),
                sig_rows.deep_view() == Seq::new(
                    rows_acc.len(),
                    |k: int| rows_acc[k].signatures,
                ).flatten(),
                fee_rows.deep_view() == Seq::new(rows_acc.len(), |k: int| rows_acc[k].fees)
                    .flatten(),
                msg_rows.deep_view() == Seq::new(rows_acc.len(), |k: int| rows_acc[k].msgs)
                    .flatten(),
            decreases txs@.len() - i,
        {
            proof {
                assert(txs.deep_view().skip(i as int)[0] =~~= (txs@[i as int])@);
                assert(txs.deep_view().skip(i as int).drop_first() =~= txs.deep_view().skip(
                    i as int + 1,
                ));
            }
            let mut row = match tx_records(&txs[i]) {
                Ok(row) => row,
                Err(e) => {
                    return Err(e);
                },
            };
            let ghost rv = row@;
            let ghost t0 = tx_rows.deep_view();
            let ghost s0 = sig_rows.deep_view();
            let ghost f0 = fee_rows.deep_view();
            let ghost m0 = msg_rows.deep_view();
            let TxWithDetailsRecord { tx, mut signatures, mut fees, mut msgs } = row;
            tx_rows.push(tx);
            sig_rows.append(&mut signatures);
            fee_rows.append(&mut fees);
            msg_rows.append(&mut msgs);
            proof {
                if tx_bundles_spec(txs.deep_view().skip(i as int + 1)) is Ok {
                    let rest2 = tx_bundles_spec(txs.deep_view().skip(i as int + 1))->Ok_0;
                    assert(rows_acc + (seq![rv] + rest2) =~= (rows_acc.push(rv)) + rest2);
                }
                let acc2 = rows_acc.push(rv);
                assert(Seq::new(acc2.len(), |k: int| acc2[k].tx) =~= Seq::new(
                    rows_acc.len(),
                    |k: int| rows_acc[k].tx,
                ).push(rv.tx));
                assert(tx_rows.deep_view() =~~= t0.push(rv.tx));
                assert(Seq::new(acc2.len(), |k: int| acc2[k].signatures) =~= Seq::new(
                    rows_acc.len(),
                    |k: int| rows_acc[k].signatures,
                ).push(rv.signatures));
                Seq::new(rows_acc.len(), |k: int| rows_acc[k].signatures).lemma_flatten_push(
                    rv.signatures,
                );
                assert(sig_rows.deep_view() =~~= s0 + rv.signatures);
                assert(Seq::new(acc2.len(), |k: int| acc2[k].fees) =~= Seq::new(
                    rows_acc.len(),
                    |k: int| rows_acc[k].fees,
                ).push(rv.fees));
                Seq::new(rows_acc.len(), |k: int| rows_acc[k].fees).lemma_flatten_push(rv.fees);
                assert(fee_rows.deep_view() =~~= f0 + rv.fees);
                assert(Seq::new(acc2.len(), |k: int| acc2[k].msgs) =~= Seq::new(
                    rows_acc.len(),
                    |k: int| rows_acc[k].msgs,
                ).push(rv.msgs));
                Seq::new(rows_acc.len(), |k: int| rows_acc[k].msgs).lemma_flatten_push(rv.msgs);
                assert(msg_rows.deep_view() =~~= m0 + rv.msgs);
                rows_acc = acc2;
            }
            i = i + 1;
        }
        proof {
            assert(txs.deep_view().skip(txs@.len() as int) =~= Seq::<TxV>::empty());
            assert(rows_acc + Seq::<TxWithDetailsRecordV>::empty() =~= rows_acc);
        }
        Ok((tx_rows, sig_rows, fee_rows, msg_rows))
    }
}

pub proof fn lemma_sum_gas_nonneg(ts: Seq<TxV>)
    requires
        forall|i: int| 0 <= i < ts.len() ==> (#[trigger] ts[i]).gas_used >= 0,
    ensures
        sum_gas(ts) >= 0,
    decreases ts.len(),
{
    if ts.len() > 0 {
        lemma_sum_gas_nonneg(ts.drop_last());
    }
}

/// A successfully normalized block is a valid block view: exact widths,
/// positive height, representable time, non-negative gas and non-empty
/// raw transactions.
pub proof fn lemma_process_block_valid(
    eth_enabled: bool,
    reg: Seq<crate::registry::RegistryEntryV>,
    header: crate::normalize::RawHeaderV,
    hash: Option<Seq<u8>>,
    data: Seq<Seq<u8>>,
    results: Seq<crate::normalize::RawTxResultV>,
)
    requires
        crate::normalize::process_block_spec(eth_enabled, reg, header, hash, data, results) is Ok,
        crate::normalize::raw_header_wf(header),
        hash matches Some(h) ==> h.len() == crate::types::SHA256_LEN,
    ensures
        ({
            let p = crate::normalize::process_block_spec(
                eth_enabled,
                reg,
                header,
                hash,
                data,
                results,
            )->Ok_0;
            crate::record::block_v_wf(p.0)
        }),
{
    lemma_process_txs_fields(eth_enabled, reg, header.height, data, results, 0, 0);
    let p = crate::normalize::process_block_spec(eth_enabled, reg, header, hash, data, results)->Ok_0;
    lemma_sum_gas_nonneg(p.1);
}

/// Persisting a block's bundle and rejoining its entry's row with the
/// aggregated raw bytes of its transaction rows yields the block
/// unchanged: the stored form loses nothing.
pub proof fn lemma_saved_block_round_trip(b: BlockV, ts: Seq<TxV>)
    requires
        bundle_wf(b, ts),
        crate::record::block_v_wf(b),
        entry_spec(b, ts) is Ok,
    ensures
        ({
            let e = entry_spec(b, ts)->Ok_0;
            block_from_record_spec(BlockWithDataRecordV { block: e.block, data: entry_data(e) })
                == Ok::<BlockV, InvalidValueError>(b)
        }),
{
    let e = entry_spec(b, ts)->Ok_0;
    lemma_tx_bundles_fields(ts);
    assert forall|k: int| 0 <= k < e.txs.len() implies #[trigger] entry_data(e)[k]
        == b.data[k] by {
        assert(e.txs[k] == tx_records_spec(ts[k])->Ok_0);
    }
    assert(entry_data(e) =~= b.data);
    crate::record::lemma_block_round_trip(b);
}

/// Persisting a transaction's rows within its block's entry and reading
/// them back yields the transaction unchanged, orderings included.
pub proof fn lemma_saved_tx_round_trip(b: BlockV, ts: Seq<TxV>, k: int)
    requires
        bundle_wf(b, ts),
        entry_spec(b, ts) is Ok,
        0 <= k < ts.len(),
        crate::record::tx_v_wf(ts[k]),
    ensures
        tx_from_record_spec(entry_spec(b, ts)->Ok_0.txs[k]) == Ok::<TxV, InvalidValueError>(
            ts[k],
        ),
{
    lemma_tx_bundles_fields(ts);
    crate::record::lemma_tx_round_trip(ts[k]);
}

/// A bundle's converted entry is internally consistent.
pub proof fn lemma_new_entry_wf(b: BlockV, ts: Seq<TxV>)
    requires
        bundle_wf(b, ts),
        entry_spec(b, ts) is Ok,
    ensures
        entry_wf(entry_spec(b, ts)->Ok_0),
{
    let e = entry_spec(b, ts)->Ok_0;
    lemma_tx_bundles_fields(ts);
    assert forall|k: int| 0 <= k < e.txs.len() implies tx_entry_wf(
        #[trigger] e.txs[k],
        e.block.height,
        k,
    ) by {
        assert(e.txs[k] == tx_records_spec(ts[k])->Ok_0);
    }
    lemma_sum_gas_pointwise(e.txs, ts);
}

} // verus!
