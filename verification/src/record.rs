use vstd::prelude::*;

use crate::domain::block::{Block, BlockData, BlockV, Header, HeaderV};
use crate::domain::tx::{Codespace, Fees, Memo, Msgs, Tx, TxV};
use crate::domain::{ts_in_range, AnyMsg, AnyMsgV, Coin, CoinV, SignerKey, Timestamp};
use crate::errors::InvalidValueError;
use crate::signer::{classify_signer_any, signer_any_of, signer_key_from_any, signer_key_to_any};
use crate::types::{clone_bytes, Address, AppHash, NonEmptyBz, Sha256, ACCOUNT_LEN, SHA256_LEN};

verus! {

/// Nanoseconds in one second.
pub const NANOS_IN_ONE_SEC: i128 = 1000000000;

/// View of a block row.
#[verifier::ext_equal]
pub ghost struct NewBlockRecordV {
    pub height: int,
    pub block_hash: Seq<u8>,
    pub chain_id: Seq<char>,
    pub time_secs: int,
    pub time_nanos: int,
    pub app_hash: Seq<u8>,
    pub validators_hash: Seq<u8>,
    pub next_validators_hash: Seq<u8>,
    pub consensus_hash: Seq<u8>,
    pub proposer: Seq<u8>,
    pub gas_used: int,
    pub last_commit_hash: Option<Seq<u8>>,
    pub data_hash: Option<Seq<u8>>,
    pub last_results_hash: Option<Seq<u8>>,
    pub evidence_hash: Option<Seq<u8>>,
}

/// A block row: the persisted representation of a block header with its
/// hash and aggregated gas. The timestamp is persisted as whole seconds
/// plus non-negative sub-second nanoseconds.
pub struct NewBlockRecord {
    pub height: i64,
    pub block_hash: Vec<u8>,
    pub chain_id: String,
    pub time_secs: i64,
    pub time_nanos: u32,
    pub app_hash: Vec<u8>,
    pub validators_hash: Vec<u8>,
    pub next_validators_hash: Vec<u8>,
    pub consensus_hash: Vec<u8>,
    pub proposer: Vec<u8>,
    pub gas_used: i64,
    pub last_commit_hash: Option<Vec<u8>>,
    pub data_hash: Option<Vec<u8>>,
    pub last_results_hash: Option<Vec<u8>>,
    pub evidence_hash: Option<Vec<u8>>,
}

impl View for NewBlockRecord {
    type V = NewBlockRecordV;

    open spec fn view(&self) -> NewBlockRecordV {
        NewBlockRecordV {
            height: self.height as int,
            block_hash: self.block_hash@,
            chain_id: self.chain_id@,
            time_secs: self.time_secs as int,
            time_nanos: self.time_nanos as int,
            app_hash: self.app_hash@,
            validators_hash: self.validators_hash@,
            next_validators_hash: self.next_validators_hash@,
            consensus_hash: self.consensus_hash@,
            proposer: self.proposer@,
            gas_used: self.gas_used as int,
            last_commit_hash: self.last_commit_hash.deep_view(),
            data_hash: self.data_hash.deep_view(),
            last_results_hash: self.last_results_hash.deep_view(),
            evidence_hash: self.evidence_hash.deep_view(),
        }
    }
}

/// View of a transaction row.
#[verifier::ext_equal]
pub ghost struct NewTxRecordV {
    pub block_height: int,
    pub tx_idx_in_block: int,
    pub tx_hash: Seq<u8>,
    pub memo: Option<Seq<char>>,
    pub timeout_height: Option<int>,
    pub signers: Seq<AnyMsgV>,
    pub payer: Seq<u8>,
    pub granter: Option<Seq<u8>>,
    pub gas_limit: int,
    pub gas_wanted: int,
    pub gas_used: int,
    pub code: int,
    pub codespace: Option<Seq<char>>,
    pub data_bz: Option<Seq<u8>>,
    pub tx_bz: Seq<u8>,
}

/// A transaction row. The signers column holds the canonical opaque form
/// of each signer public key, as the persisted JSON array does.
pub struct NewTxRecord {
    pub block_height: i64,
    pub tx_idx_in_block: i64,
    pub tx_hash: Vec<u8>,
    pub memo: Option<String>,
    pub timeout_height: Option<i64>,
    pub signers: Vec<AnyMsg>,
    pub payer: Vec<u8>,
    pub granter: Option<Vec<u8>>,
    pub gas_limit: i64,
    pub gas_wanted: i64,
    pub gas_used: i64,
    pub code: i32,
    pub codespace: Option<String>,
    pub data_bz: Option<Vec<u8>>,
    pub tx_bz: Vec<u8>,
}

impl View for NewTxRecord {
    type V = NewTxRecordV;

    open spec fn view(&self) -> NewTxRecordV {
        NewTxRecordV {
            block_height: self.block_height as int,
            tx_idx_in_block: self.tx_idx_in_block as int,
            tx_hash: self.tx_hash@,
            memo: match self.memo {
                Some(ref m) => Some(m@),
                None => None,
            },
            timeout_height: match self.timeout_height {
                Some(t) => Some(t as int),
                None => None,
            },
            signers: self.signers.deep_view(),
            payer: self.payer@,
            granter: self.granter.deep_view(),
            gas_limit: self.gas_limit as int,
            gas_wanted: self.gas_wanted as int,
            gas_used: self.gas_used as int,
            code: self.code as int,
            codespace: match self.codespace {
                Some(ref c) => Some(c@),
                None => None,
            },
            data_bz: self.data_bz.deep_view(),
            tx_bz: self.tx_bz@,
        }
    }
}

impl DeepView for NewTxRecord {
    type V = NewTxRecordV;

    open spec fn deep_view(&self) -> NewTxRecordV {
        self.view()
    }
}

/// View of a signature row.
#[verifier::ext_equal]
pub ghost struct NewSignatureRecordV {
    pub block_height: int,
    pub tx_idx_in_block: int,
    pub signature_idx_in_tx: int,
    pub bz: Seq<u8>,
}

/// A signature row.
pub struct NewSignatureRecord {
    pub block_height: i64,
    pub tx_idx_in_block: i64,
    pub signature_idx_in_tx: i64,
    pub bz: Vec<u8>,
}

impl View for NewSignatureRecord {
    type V = NewSignatureRecordV;

    open spec fn view(&self) -> NewSignatureRecordV {
        NewSignatureRecordV {
            block_height: self.block_height as int,
            tx_idx_in_block: self.tx_idx_in_block as int,
            signature_idx_in_tx: self.signature_idx_in_tx as int,
            bz: self.bz@,
        }
    }
}

impl DeepView for NewSignatureRecord {
    type V = NewSignatureRecordV;

    open spec fn deep_view(&self) -> NewSignatureRecordV {
        self.view()
    }
}

/// View of a fee row.
#[verifier::ext_equal]
pub ghost struct NewFeeRecordV {
    pub block_height: int,
    pub tx_idx_in_block: int,
    pub fee_idx_in_tx: int,
    pub amount: int,
    pub denom: Seq<char>,
}

/// A fee row.
pub struct NewFeeRecord {
    pub block_height: i64,
    pub tx_idx_in_block: i64,
    pub fee_idx_in_tx: i64,
    pub amount: u128,
    pub denom: String,
}

impl View for NewFeeRecord {
    type V = NewFeeRecordV;

    open spec fn view(&self) -> NewFeeRecordV {
        NewFeeRecordV {
            block_height: self.block_height as int,
            tx_idx_in_block: self.tx_idx_in_block as int,
            fee_idx_in_tx: self.fee_idx_in_tx as int,
            amount: self.amount as int,
            denom: self.denom@,
        }
    }
}

impl DeepView for NewFeeRecord {
    type V = NewFeeRecordV;

    open spec fn deep_view(&self) -> NewFeeRecordV {
        self.view()
    }
}

/// View of a message row.
#[verifier::ext_equal]
pub ghost struct NewMsgRecordV {
    pub block_height: int,
    pub tx_idx_in_block: int,
    pub msg_idx_in_tx: int,
    pub type_url: Seq<char>,
    pub value: Seq<u8>,
}

/// A message row.
pub struct NewMsgRecord {
    pub block_height: i64,
    pub tx_idx_in_block: i64,
    pub msg_idx_in_tx: i64,
    pub type_url: String,
    pub value: Vec<u8>,
}

impl View for NewMsgRecord {
    type V = NewMsgRecordV;

    open spec fn view(&self) -> NewMsgRecordV {
        NewMsgRecordV {
            block_height: self.block_height as int,
            tx_idx_in_block: self.tx_idx_in_block as int,
            msg_idx_in_tx: self.msg_idx_in_tx as int,
            type_url: self.type_url@,
            value: self.value@,
        }
    }
}

impl DeepView for NewMsgRecord {
    type V = NewMsgRecordV;

    open spec fn deep_view(&self) -> NewMsgRecordV {
        self.view()
    }
}

/// View of a transaction row with its child rows.
#[verifier::ext_equal]
pub ghost struct TxWithDetailsRecordV {
    pub tx: NewTxRecordV,
    pub signatures: Seq<NewSignatureRecordV>,
    pub fees: Seq<NewFeeRecordV>,
    pub msgs: Seq<NewMsgRecordV>,
}

/// A transaction row with its child rows, each list ordered by its dense
/// sub-index.
pub struct TxWithDetailsRecord {
    pub tx: NewTxRecord,
    pub signatures: Vec<NewSignatureRecord>,
    pub fees: Vec<NewFeeRecord>,
    pub msgs: Vec<NewMsgRecord>,
}

impl View for TxWithDetailsRecord {
    type V = TxWithDetailsRecordV;

    open spec fn view(&self) -> TxWithDetailsRecordV {
        TxWithDetailsRecordV {
            tx: self.tx@,
            signatures: self.signatures.deep_view(),
            fees: self.fees.deep_view(),
            msgs: self.msgs.deep_view(),
        }
    }
}

impl DeepView for TxWithDetailsRecord {
    type V = TxWithDetailsRecordV;

    open spec fn deep_view(&self) -> TxWithDetailsRecordV {
        self.view()
    }
}

/// View of a block row with its aggregated raw transaction bytes.
#[verifier::ext_equal]
pub ghost struct BlockWithDataRecordV {
    pub block: NewBlockRecordV,
    pub data: Seq<Seq<u8>>,
}

/// A block row with its aggregated raw transaction bytes, ordered by
/// transaction index.
pub struct BlockWithDataRecord {
    pub block: NewBlockRecord,
    pub data: Vec<Vec<u8>>,
}

impl View for BlockWithDataRecord {
    type V = BlockWithDataRecordV;

    open spec fn view(&self) -> BlockWithDataRecordV {
        BlockWithDataRecordV { block: self.block@, data: self.data.deep_view() }
    }
}

/// Splits a nanosecond count into whole seconds and non-negative
/// sub-second nanoseconds, truncating toward zero as the persisted form
/// requires: a pre-epoch time with a fractional second has no such form.
pub open spec fn time_parts(nanos: int) -> Option<(int, int)> {
    if nanos >= 0 {
        Some((nanos / (NANOS_IN_ONE_SEC as int), nanos % (NANOS_IN_ONE_SEC as int)))
    } else if nanos % (NANOS_IN_ONE_SEC as int) == 0 {
        Some((nanos / (NANOS_IN_ONE_SEC as int), 0))
    } else {
        None
    }
}

/// Rejoins persisted seconds and sub-second nanoseconds into a nanosecond
/// count.
pub open spec fn time_join(secs: int, sub: int) -> int {
    secs * (NANOS_IN_ONE_SEC as int) + sub
}

/// Splitting then rejoining a nanosecond count gives it back.
pub proof fn lemma_time_round_trip(nanos: int)
    ensures
        time_parts(nanos) matches Some(p) ==> time_join(p.0, p.1) == nanos,
{
    let d = NANOS_IN_ONE_SEC as int;
    assert(d * (nanos / d) + nanos % d == nanos) by {
        vstd::arithmetic::div_mod::lemma_fundamental_div_mod(nanos, d);
    }
}

/// Splits a timestamp for persistence.
pub fn timestamp_to_parts(t: &Timestamp) -> (r: Result<(i64, u32), InvalidValueError>)
    ensures
        match time_parts(t@) {
            Some(p) => r matches Ok(v) && v.0 as int == p.0 && v.1 as int == p.1,
            None => r matches Err(e) && e is Time,
        },
{
    let nanos = t.as_nanosecond();
    if nanos >= 0 {
        let secs = nanos / NANOS_IN_ONE_SEC;
        let sub = nanos % NANOS_IN_ONE_SEC;
        Ok((secs as i64, sub as u32))
    } else {
        let pos = -nanos;
        let q = pos / NANOS_IN_ONE_SEC;
        let r = pos % NANOS_IN_ONE_SEC;
        if r == 0 {
            proof {
                let d = NANOS_IN_ONE_SEC as int;
                vstd::arithmetic::div_mod::lemma_fundamental_div_mod(pos as int, d);
                vstd::arithmetic::div_mod::lemma_fundamental_div_mod(nanos as int, d);
                assert((nanos as int) == d * (-(q as int)));
                assert((nanos as int) % d == 0 && (nanos as int) / d == -(q as int)) by {
                    vstd::arithmetic::div_mod::lemma_div_multiples_vanish(-(q as int), d);
                    vstd::arithmetic::div_mod::lemma_mod_multiples_basic(-(q as int), d);
                }
            }
            Ok((-(q as i64), 0))
        } else {
            proof {
                let d = NANOS_IN_ONE_SEC as int;
                vstd::arithmetic::div_mod::lemma_fundamental_div_mod(pos as int, d);
                if (nanos as int) % d == 0 {
                    let k = (nanos as int) / d;
                    vstd::arithmetic::div_mod::lemma_fundamental_div_mod(nanos as int, d);
                    vstd::arithmetic::div_mod::lemma_div_multiples_vanish(-k, d);
                    vstd::arithmetic::div_mod::lemma_mod_multiples_basic(-k, d);
                    assert(false);
                }
            }
            Err(InvalidValueError::Time)
        }
    }
}

/// Rejoins persisted time parts into a timestamp; fails outside the
/// representable range.
pub fn parts_to_timestamp(secs: i64, sub: u32) -> (r: Result<Timestamp, InvalidValueError>)
    ensures
        ts_in_range(time_join(secs as int, sub as int)) ==> (r matches Ok(t) && t@ == time_join(
            secs as int,
            sub as int,
        )),
        !ts_in_range(time_join(secs as int, sub as int)) ==> (r matches Err(e) && e is Time),
{
    let nanos: i128 = (secs as i128) * NANOS_IN_ONE_SEC + (sub as i128);
    match Timestamp::from_nanosecond(nanos) {
        Some(t) => Ok(t),
        None => Err(InvalidValueError::Time),
    }
}

/// The largest u64 value that fits a signed 64-bit column.
pub const I64_MAX_AS_U64: u64 = 0x7fffffffffffffff;

/// The largest u32 value that fits a signed 32-bit column.
pub const I32_MAX_AS_U32: u32 = 0x7fffffff;

fn clone_opt_bytes(o: &Option<Vec<u8>>) -> (r: Option<Vec<u8>>)
    ensures
        r.deep_view() == o.deep_view(),
{
    match o {
        Some(v) => Some(clone_bytes(v)),
        None => None,
    }
}

fn clone_opt_hash(o: &Option<Sha256>) -> (r: Option<Vec<u8>>)
    ensures
        r.deep_view() == (match *o {
            Some(h) => Some(h@),
            None => None::<Seq<u8>>,
        }),
{
    match o {
        Some(h) => Some(clone_bytes(h.get())),
        None => None,
    }
}

/// What a block persists as: height and gas must fit the signed column
/// and the time must have a persisted form, checked in that order.
pub open spec fn block_record_spec(b: BlockV) -> Result<NewBlockRecordV, InvalidValueError> {
    if b.header.height > I64_MAX_AS_U64 {
        Err(InvalidValueError::IntConversion)
    } else {
        match time_parts(b.header.time) {
            None => Err(InvalidValueError::Time),
            Some(p) => if b.gas_used > I64_MAX_AS_U64 {
                Err(InvalidValueError::IntConversion)
            } else {
                Ok(
                    NewBlockRecordV {
                        height: b.header.height,
                        block_hash: b.hash,
                        chain_id: b.header.chain_id,
                        time_secs: p.0,
                        time_nanos: p.1,
                        app_hash: b.header.app_hash,
                        validators_hash: b.header.validators_hash,
                        next_validators_hash: b.header.next_validators_hash,
                        consensus_hash: b.header.consensus_hash,
                        proposer: b.header.proposer,
                        gas_used: b.gas_used,
                        last_commit_hash: b.header.last_commit_hash,
                        data_hash: b.header.data_hash,
                        last_results_hash: b.header.last_results_hash,
                        evidence_hash: b.header.evidence_hash,
                    },
                )
            },
        }
    }
}

/// Builds the block row of a block.
pub fn new_block_record(block: &Block) -> (r: Result<NewBlockRecord, InvalidValueError>)
    ensures
        match block_record_spec(block@) {
            Ok(rv) => r matches Ok(rec) && rec@ == rv,
            Err(e) => r matches Err(e2) && e2 == e,
        },
{
    let header = block.header();
    let height = header.height();
    if height > I64_MAX_AS_U64 {
        return Err(InvalidValueError::IntConversion);
    }
    let (time_secs, time_nanos) = match timestamp_to_parts(header.time()) {
        Ok(p) => p,
        Err(e) => {
            return Err(e);
        },
    };
    let gas_used = block.gas_used();
    if gas_used > I64_MAX_AS_U64 {
        return Err(InvalidValueError::IntConversion);
    }
    Ok(
        NewBlockRecord {
            height: height as i64,
            block_hash: clone_bytes(block.hash().get()),
            chain_id: header.chain_id().clone(),
            time_secs,
            time_nanos,
            app_hash: clone_bytes(header.app_hash().get()),
            validators_hash: clone_bytes(header.validators_hash().get()),
            next_validators_hash: clone_bytes(header.next_validators_hash().get()),
            consensus_hash: clone_bytes(header.consensus_hash().get()),
            proposer: clone_bytes(header.proposer().as_bytes()),
            gas_used: gas_used as i64,
            last_commit_hash: clone_opt_hash(header.last_commit_hash()),
            data_hash: clone_opt_hash(header.data_hash()),
            last_results_hash: clone_opt_hash(header.last_results_hash()),
            evidence_hash: clone_opt_hash(header.evidence_hash()),
        },
    )
}

/// The signature rows of a transaction: one per signature, densely
/// indexed from zero in order.
pub open spec fn sig_rows_spec(t: TxV) -> Seq<NewSignatureRecordV> {
    Seq::new(
        t.signatures.len(),
        |j: int|
            NewSignatureRecordV {
                block_height: t.block_height,
                tx_idx_in_block: t.tx_idx_in_block,
                signature_idx_in_tx: j,
                bz: t.signatures[j],
            },
    )
}

/// The fee rows of a transaction: one per coin, densely indexed from zero
/// in order; no fees persist no rows.
pub open spec fn fee_rows_spec(t: TxV) -> Seq<NewFeeRecordV> {
    let cs = match t.fees {
        Some(f) => f,
        None => seq![],
    };
    Seq::new(
        cs.len(),
        |j: int|
            NewFeeRecordV {
                block_height: t.block_height,
                tx_idx_in_block: t.tx_idx_in_block,
                fee_idx_in_tx: j,
                amount: cs[j].amount,
                denom: cs[j].denom,
            },
    )
}

/// The message rows of a transaction: one per message, densely indexed
/// from zero in order.
pub open spec fn msg_rows_spec(t: TxV) -> Seq<NewMsgRecordV> {
    Seq::new(
        t.msgs.len(),
        |j: int|
            NewMsgRecordV {
                block_height: t.block_height,
                tx_idx_in_block: t.tx_idx_in_block,
                msg_idx_in_tx: j,
                type_url: t.msgs[j].type_url,
                value: t.msgs[j].value,
            },
    )
}

/// What a transaction persists as: the key, timeout, gas and code fields
/// must fit their signed columns, and the child lists must be countable.
pub open spec fn tx_records_spec(t: TxV) -> Result<TxWithDetailsRecordV, InvalidValueError> {
    if t.block_height > I64_MAX_AS_U64 {
        Err(InvalidValueError::IntConversion)
    } else if t.tx_idx_in_block > I64_MAX_AS_U64 {
        Err(InvalidValueError::IntConversion)
    } else if t.timeout_height matches Some(th) && th > I64_MAX_AS_U64 {
        Err(InvalidValueError::IntConversion)
    } else if t.gas_limit > I64_MAX_AS_U64 || t.gas_wanted > I64_MAX_AS_U64 || t.gas_used
        > I64_MAX_AS_U64 {
        Err(InvalidValueError::IntConversion)
    } else if t.code > I32_MAX_AS_U32 {
        Err(InvalidValueError::IntConversion)
    } else if t.signatures.len() > I64_MAX_AS_U64 || t.msgs.len() > I64_MAX_AS_U64 || (
    t.fees matches Some(f) && f.len() > I64_MAX_AS_U64) {
        Err(InvalidValueError::IntConversion)
    } else {
        Ok(
            TxWithDetailsRecordV {
                tx: NewTxRecordV {
                    block_height: t.block_height,
                    tx_idx_in_block: t.tx_idx_in_block,
                    tx_hash: t.tx_hash,
                    memo: t.memo,
                    timeout_height: t.timeout_height,
                    signers: Seq::new(t.signers.len(), |j: int| signer_any_of(t.signers[j])),
                    payer: t.payer,
                    granter: t.granter,
                    gas_limit: t.gas_limit,
                    gas_wanted: t.gas_wanted,
                    gas_used: t.gas_used,
                    code: t.code,
                    codespace: t.codespace,
                    data_bz: t.data_bz,
                    tx_bz: t.tx_bz,
                },
                signatures: sig_rows_spec(t),
                fees: fee_rows_spec(t),
                msgs: msg_rows_spec(t),
            },
        )
    }
}

/// Builds the transaction row and its child rows for one transaction.
#[verifier::rlimit(60)]
pub fn tx_records(tx: &Tx) -> (r: Result<TxWithDetailsRecord, InvalidValueError>)
    ensures
        match tx_records_spec(tx@) {
            Ok(rv) => r matches Ok(rec) && rec@ == rv,
            Err(e) => r matches Err(e2) && e2 == e,
        },
{
    let block_height = tx.block_height();
    if block_height > I64_MAX_AS_U64 {
        return Err(InvalidValueError::IntConversion);
    }
    let tx_idx_in_block = tx.tx_idx_in_block();
    if tx_idx_in_block > I64_MAX_AS_U64 {
        return Err(InvalidValueError::IntConversion);
    }
    let timeout_height: Option<i64> = match tx.timeout_height() {
        Some(th) => {
            if th > I64_MAX_AS_U64 {
                return Err(InvalidValueError::IntConversion);
            }
            Some(th as i64)
        },
        None => None,
    };
    let gas_limit = tx.gas_limit();
    let gas_wanted = tx.gas_wanted();
    let gas_used = tx.gas_used();
    if gas_limit > I64_MAX_AS_U64 || gas_wanted > I64_MAX_AS_U64 || gas_used > I64_MAX_AS_U64 {
        return Err(InvalidValueError::IntConversion);
    }
    let code = tx.code();
    if code > I32_MAX_AS_U32 {
        return Err(InvalidValueError::IntConversion);
    }
    if tx.signatures().len() as u64 > I64_MAX_AS_U64 || tx.msgs().get().len() as u64
        > I64_MAX_AS_U64 {
        return Err(InvalidValueError::IntConversion);
    }
    match tx.fees() {
        Some(f) => {
            if f.get().len() as u64 > I64_MAX_AS_U64 {
                return Err(InvalidValueError::IntConversion);
            }
        },
        None => {},
    }
    let bh = block_height as i64;
    let ti = tx_idx_in_block as i64;

    let mut signers: Vec<AnyMsg> = Vec::new();
    let mut i: usize = 0;
    let keys = tx.signers();
    while i < keys.len()
        invariant
            i <= keys@.len(),
            signers@.len() == i,
            forall|j: int| 0 <= j < i ==> (#[trigger] signers@[j])@ == signer_any_of((keys@[j])@),
        decreases keys@.len() - i,
    {
        let a = signer_key_to_any(&keys[i]);
        signers.push(a);
        i = i + 1;
    }
    proof {
        assert forall|j: int| 0 <= j < keys@.len() implies #[trigger] signers.deep_view()[j]
            == signer_any_of(keys.deep_view()[j]) by {
            assert(signers.deep_view()[j] == (signers@[j])@);
            assert(keys.deep_view()[j] == (keys@[j])@);
        }
        assert(signers.deep_view() =~= Seq::new(
            keys.deep_view().len(),
            |j: int| signer_any_of(keys.deep_view()[j]),
        ));
    }

    let mut sig_rows: Vec<NewSignatureRecord> = Vec::new();
    let sigs = tx.signatures();
    let mut i: usize = 0;
    while i < sigs.len()
        invariant
            i <= sigs@.len() <= I64_MAX_AS_U64,
            bh as int == tx@.block_height,
            ti as int == tx@.tx_idx_in_block,
            sig_rows@.len() == i,
            forall|j: int|
                0 <= j < i ==> (#[trigger] sig_rows@[j])@ == (NewSignatureRecordV {
                    block_height: tx@.block_height,
                    tx_idx_in_block: tx@.tx_idx_in_block,
                    signature_idx_in_tx: j,
                    bz: (sigs@[j])@,
                }),
        decreases sigs@.len() - i,
    {
        sig_rows.push(
            NewSignatureRecord {
                block_height: bh,
                tx_idx_in_block: ti,
                signature_idx_in_tx: i as i64,
                bz: clone_bytes(&sigs[i]),
            },
        );
        i = i + 1;
    }
    proof {
        assert forall|j: int| 0 <= j < sigs@.len() implies #[trigger] sig_rows.deep_view()[j]
            == sig_rows_spec(tx@)[j] by {
            assert(sig_rows.deep_view()[j] == (sig_rows@[j])@);
            assert(tx@.signatures[j] == sigs.deep_view()[j]);
            assert(sigs.deep_view()[j] == (sigs@[j])@);
        }
        assert(sig_rows.deep_view() =~= sig_rows_spec(tx@));
    }

    let mut fee_rows: Vec<NewFeeRecord> = Vec::new();
    match tx.fees() {
        Some(f) => {
            let coins = f.get();
            let mut i: usize = 0;
            while i < coins.len()
                invariant
                    i <= coins@.len() <= I64_MAX_AS_U64,
                    bh as int == tx@.block_height,
                    ti as int == tx@.tx_idx_in_block,
                    fee_rows@.len() == i,
                    forall|j: int|
                        0 <= j < i ==> (#[trigger] fee_rows@[j])@ == (NewFeeRecordV {
                            block_height: tx@.block_height,
                            tx_idx_in_block: tx@.tx_idx_in_block,
                            fee_idx_in_tx: j,
                            amount: (coins@[j])@.amount,
                            denom: (coins@[j])@.denom,
                        }),
                decreases coins@.len() - i,
            {
                fee_rows.push(
                    NewFeeRecord {
                        block_height: bh,
                        tx_idx_in_block: ti,
                        fee_idx_in_tx: i as i64,
                        amount: coins[i].amount,
                        denom: coins[i].denom.clone(),
                    },
                );
                i = i + 1;
            }
            proof {
                assert forall|j: int| 0 <= j < coins@.len() implies #[trigger] fee_rows.deep_view()[
                    j
                ] == fee_rows_spec(tx@)[j] by {
                    assert(fee_rows.deep_view()[j] == (fee_rows@[j])@);
                    assert(tx@.fees->Some_0[j] == coins.deep_view()[j]);
                    assert(coins.deep_view()[j] == (coins@[j])@);
                }
                assert(fee_rows.deep_view() =~= fee_rows_spec(tx@));
            }
        },
        None => {
            proof {
                assert(fee_rows.deep_view() =~= fee_rows_spec(tx@));
            }
        },
    }

    let mut msg_rows: Vec<NewMsgRecord> = Vec::new();
    let msgs = tx.msgs().get();
    let mut i: usize = 0;
    while i < msgs.len()
        invariant
            i <= msgs@.len() <= I64_MAX_AS_U64,
            bh as int == tx@.block_height,
            ti as int == tx@.tx_idx_in_block,
            msg_rows@.len() == i,
            forall|j: int|
                0 <= j < i ==> (#[trigger] msg_rows@[j])@ == (NewMsgRecordV {
                    block_height: tx@.block_height,
                    tx_idx_in_block: tx@.tx_idx_in_block,
                    msg_idx_in_tx: j,
                    type_url: (msgs@[j])@.type_url,
                    value: (msgs@[j])@.value,
                }),
        decreases msgs@.len() - i,
    {
        msg_rows.push(
            NewMsgRecord {
                block_height: bh,
                tx_idx_in_block: ti,
                msg_idx_in_tx: i as i64,
                type_url: msgs[i].type_url.clone(),
                value: clone_bytes(&msgs[i].value),
            },
        );
        i = i + 1;
    }
    proof {
        assert forall|j: int| 0 <= j < msgs@.len() implies #[trigger] msg_rows.deep_view()[j]
            == msg_rows_spec(tx@)[j] by {
            assert(msg_rows.deep_view()[j] == (msg_rows@[j])@);
            assert(tx@.msgs[j] == msgs.deep_view()[j]);
            assert(msgs.deep_view()[j] == (msgs@[j])@);
        }
        assert(msg_rows.deep_view() =~= msg_rows_spec(tx@));
    }

    let memo: Option<String> = match tx.memo() {
        Some(m) => Some(m.get().clone()),
        None => None,
    };
    let codespace: Option<String> = match tx.codespace() {
        Some(c) => Some(c.get().clone()),
        None => None,
    };
    let granter: Option<Vec<u8>> = match tx.granter() {
        Some(g) => Some(clone_bytes(g.as_bytes())),
        None => None,
    };
    let data_bz: Option<Vec<u8>> = match tx.data_bz() {
        Some(d) => Some(clone_bytes(d.get())),
        None => None,
    };
    let row = NewTxRecord {
        block_height: bh,
        tx_idx_in_block: ti,
        tx_hash: clone_bytes(tx.tx_hash().get()),
        memo,
        timeout_height,
        signers,
        payer: clone_bytes(tx.payer().as_bytes()),
        granter,
        gas_limit: gas_limit as i64,
        gas_wanted: gas_wanted as i64,
        gas_used: gas_used as i64,
        code: code as i32,
        codespace,
        data_bz,
        tx_bz: clone_bytes(tx.tx_bz().get()),
    };
    let rec = TxWithDetailsRecord { tx: row, signatures: sig_rows, fees: fee_rows, msgs: msg_rows };
    proof {
        assert(rec@ =~~= tx_records_spec(tx@)->Ok_0);
    }
    Ok(rec)
}

impl NewBlockRecord {
    /// Copies a block row.
    pub fn clone_rec(&self) -> (r: Self)
        ensures
            r@ == self@,
    {
        NewBlockRecord {
            height: self.height,
            block_hash: clone_bytes(&self.block_hash),
            chain_id: self.chain_id.clone(),
            time_secs: self.time_secs,
            time_nanos: self.time_nanos,
            app_hash: clone_bytes(&self.app_hash),
            validators_hash: clone_bytes(&self.validators_hash),
            next_validators_hash: clone_bytes(&self.next_validators_hash),
            consensus_hash: clone_bytes(&self.consensus_hash),
            proposer: clone_bytes(&self.proposer),
            gas_used: self.gas_used,
            last_commit_hash: clone_opt_bytes(&self.last_commit_hash),
            data_hash: clone_opt_bytes(&self.data_hash),
            last_results_hash: clone_opt_bytes(&self.last_results_hash),
            evidence_hash: clone_opt_bytes(&self.evidence_hash),
        }
    }
}

/// What a fetched block row with its aggregated data reads back as: the
/// height must be positive, the time representable, every hash of its
/// exact width, the gas non-negative and every raw transaction non-empty.
pub open spec fn block_from_record_spec(r: BlockWithDataRecordV) -> Result<
    BlockV,
    InvalidValueError,
> {
    if r.block.height < 1 {
        Err(InvalidValueError::IntConversion)
    } else if !ts_in_range(time_join(r.block.time_secs, r.block.time_nanos)) {
        Err(InvalidValueError::Time)
    } else if r.block.validators_hash.len() != SHA256_LEN || r.block.next_validators_hash.len()
        != SHA256_LEN || r.block.consensus_hash.len() != SHA256_LEN {
        Err(InvalidValueError::Slice)
    } else if r.block.proposer.len() != ACCOUNT_LEN {
        Err(InvalidValueError::Slice)
    } else if (r.block.last_commit_hash matches Some(h) && h.len() != SHA256_LEN) || (
    r.block.data_hash matches Some(h) && h.len() != SHA256_LEN) || (
    r.block.last_results_hash matches Some(h) && h.len() != SHA256_LEN) || (
    r.block.evidence_hash matches Some(h) && h.len() != SHA256_LEN) {
        Err(InvalidValueError::Slice)
    } else if r.block.block_hash.len() != SHA256_LEN {
        Err(InvalidValueError::Slice)
    } else if r.block.gas_used < 0 {
        Err(InvalidValueError::IntConversion)
    } else if exists|i: int| 0 <= i < r.data.len() && (#[trigger] r.data[i]).len() == 0 {
        Err(InvalidValueError::Empty)
    } else {
        Ok(
            BlockV {
                header: HeaderV {
                    chain_id: r.block.chain_id,
                    height: r.block.height,
                    time: time_join(r.block.time_secs, r.block.time_nanos),
                    validators_hash: r.block.validators_hash,
                    next_validators_hash: r.block.next_validators_hash,
                    consensus_hash: r.block.consensus_hash,
                    app_hash: r.block.app_hash,
                    proposer: r.block.proposer,
                    last_commit_hash: r.block.last_commit_hash,
                    data_hash: r.block.data_hash,
                    last_results_hash: r.block.last_results_hash,
                    evidence_hash: r.block.evidence_hash,
                },
                gas_used: r.block.gas_used,
                hash: r.block.block_hash,
                data: r.data,
            },
        )
    }
}

fn opt_bytes_to_hash(o: &Option<Vec<u8>>) -> (r: Result<Option<Sha256>, InvalidValueError>)
    ensures
        match *o {
            Some(ref h) => if h@.len() == SHA256_LEN {
                r matches Ok(Some(s)) && s@ == h@
            } else {
                r matches Err(e) && e is Slice
            },
            None => r matches Ok(None::<Sha256>),
        },
{
    match o {
        Some(h) => {
            if h.len() == SHA256_LEN {
                Ok(Some(Sha256::new(clone_bytes(h))))
            } else {
                Err(InvalidValueError::Slice)
            }
        },
        None => Ok(None),
    }
}

/// Assembles a block from a fetched block row with its aggregated raw
/// transaction bytes.
#[verifier::rlimit(60)]
pub fn block_from_record(r: &BlockWithDataRecord) -> (res: Result<Block, InvalidValueError>)
    ensures
        match block_from_record_spec(r@) {
            Ok(bv) => res matches Ok(b) && b@ == bv,
            Err(e) => res matches Err(e2) && e2 == e,
        },
{
    if r.block.height < 1 {
        return Err(InvalidValueError::IntConversion);
    }
    let time = match parts_to_timestamp(r.block.time_secs, r.block.time_nanos) {
        Ok(t) => t,
        Err(e) => {
            return Err(e);
        },
    };
    if r.block.validators_hash.len() != SHA256_LEN || r.block.next_validators_hash.len()
        != SHA256_LEN || r.block.consensus_hash.len() != SHA256_LEN {
        return Err(InvalidValueError::Slice);
    }
    if r.block.proposer.len() != ACCOUNT_LEN {
        return Err(InvalidValueError::Slice);
    }
    let last_commit_hash = match opt_bytes_to_hash(&r.block.last_commit_hash) {
        Ok(o) => o,
        Err(e) => {
            return Err(e);
        },
    };
    let data_hash = match opt_bytes_to_hash(&r.block.data_hash) {
        Ok(o) => o,
        Err(e) => {
            return Err(e);
        },
    };
    let last_results_hash = match opt_bytes_to_hash(&r.block.last_results_hash) {
        Ok(o) => o,
        Err(e) => {
            return Err(e);
        },
    };
    let evidence_hash = match opt_bytes_to_hash(&r.block.evidence_hash) {
        Ok(o) => o,
        Err(e) => {
            return Err(e);
        },
    };
    if r.block.block_hash.len() != SHA256_LEN {
        return Err(InvalidValueError::Slice);
    }
    if r.block.gas_used < 0 {
        return Err(InvalidValueError::IntConversion);
    }
    let mut items: Vec<NonEmptyBz> = Vec::new();
    let mut i: usize = 0;
    while i < r.data.len()
        invariant
            i <= r.data@.len(),
            r@.block.height >= 1,
            ts_in_range(time_join(r@.block.time_secs, r@.block.time_nanos)),
            r@.block.validators_hash.len() == SHA256_LEN,
            r@.block.next_validators_hash.len() == SHA256_LEN,
            r@.block.consensus_hash.len() == SHA256_LEN,
            r@.block.proposer.len() == ACCOUNT_LEN,
            r@.block.last_commit_hash matches Some(h) ==> h.len() == SHA256_LEN,
            r@.block.data_hash matches Some(h) ==> h.len() == SHA256_LEN,
            r@.block.last_results_hash matches Some(h) ==> h.len() == SHA256_LEN,
            r@.block.evidence_hash matches Some(h) ==> h.len() == SHA256_LEN,
            r@.block.block_hash.len() == SHA256_LEN,
            r@.block.gas_used >= 0,
            items.deep_view() =~= r.data.deep_view().subrange(0, i as int),
            forall|j: int| 0 <= j < i ==> (#[trigger] r.data.deep_view()[j]).len() > 0,
        decreases r.data@.len() - i,
    {
        proof {
            assert(r.data.deep_view()[i as int] == (r.data@[i as int])@);
        }
        let ghost items0 = items.deep_view();
        match NonEmptyBz::new(clone_bytes(&r.data[i])) {
            Some(b) => {
                let ghost bv = b@;
                items.push(b);
                proof {
                    assert(items.deep_view() =~~= items0.push(bv));
                    assert(r.data.deep_view().subrange(0, i as int + 1) =~= r.data.deep_view()
                        .subrange(0, i as int)
                        .push(r.data.deep_view()[i as int]));
                    assert(items.deep_view() =~= r.data.deep_view().subrange(0, i as int + 1));
                }
            },
            None => {
                return Err(InvalidValueError::Empty);
            },
        }
        i = i + 1;
    }
    proof {
        assert(items.deep_view() =~= r.data.deep_view());
    }
    let header = Header::new(
        r.block.chain_id.clone(),
        r.block.height as u64,
        time,
        Sha256::new(clone_bytes(&r.block.validators_hash)),
        Sha256::new(clone_bytes(&r.block.next_validators_hash)),
        Sha256::new(clone_bytes(&r.block.consensus_hash)),
        AppHash::new(clone_bytes(&r.block.app_hash)),
        Address::new(clone_bytes(&r.block.proposer)),
        last_commit_hash,
        data_hash,
        last_results_hash,
        evidence_hash,
    );
    let data = match BlockData::new(items) {
        Some(d) => d,
        None => {
            return Err(InvalidValueError::Empty);
        },
    };
    Ok(Block::new(header, r.block.gas_used as u64, Sha256::new(clone_bytes(&r.block.block_hash)), data))
}

/// A stored signer payload that names a single-curve kind but whose key
/// field does not decode; the read path rejects such a row, as the
/// stored form is not a valid key encoding.
pub open spec fn malformed_signer(a: AnyMsgV) -> bool {
    (a.type_url == crate::signer::secp256k1_type_url() || a.type_url
        == crate::signer::ed25519_type_url()) && crate::wire::pubkey_dec(a.value) is None
}

/// A signer key whose canonical payload reads back cleanly: an opaque
/// key must not sail under a single-curve type URL.
pub open spec fn signer_readable(k: crate::domain::SignerKeyV) -> bool {
    match k {
        crate::domain::SignerKeyV::Other(a) => a.type_url
            != crate::signer::secp256k1_type_url() && a.type_url
            != crate::signer::ed25519_type_url(),
        _ => true,
    }
}

/// What a fetched transaction row with its child rows reads back as: the
/// key fields must be positive, the byte widths exact, the gas and code
/// fields non-negative, the message list non-empty and the raw bytes
/// non-empty. Empty optional texts and data read back as absent; signer
/// keys are classified from their canonical form.
pub open spec fn tx_from_record_spec(r: TxWithDetailsRecordV) -> Result<TxV, InvalidValueError> {
    if r.tx.block_height < 1 {
        Err(InvalidValueError::IntConversion)
    } else if r.tx.tx_idx_in_block < 0 {
        Err(InvalidValueError::IntConversion)
    } else if r.tx.tx_hash.len() != SHA256_LEN {
        Err(InvalidValueError::Slice)
    } else if r.msgs.len() == 0 {
        Err(InvalidValueError::Empty)
    } else if r.tx.timeout_height matches Some(t) && t < 1 {
        Err(InvalidValueError::IntConversion)
    } else if r.tx.payer.len() != ACCOUNT_LEN {
        Err(InvalidValueError::Slice)
    } else if r.tx.granter matches Some(g) && g.len() != ACCOUNT_LEN {
        Err(InvalidValueError::Slice)
    } else if r.tx.code < 0 {
        Err(InvalidValueError::IntConversion)
    } else if r.tx.gas_limit < 0 || r.tx.gas_wanted < 0 || r.tx.gas_used < 0 {
        Err(InvalidValueError::IntConversion)
    } else if r.tx.tx_bz.len() == 0 {
        Err(InvalidValueError::Empty)
    } else if exists|j: int|
        0 <= j < r.tx.signers.len() && malformed_signer(#[trigger] r.tx.signers[j]) {
        Err(InvalidValueError::SignerEncoding)
    } else {
        Ok(
            TxV {
                block_height: r.tx.block_height,
                tx_idx_in_block: r.tx.tx_idx_in_block,
                tx_hash: r.tx.tx_hash,
                msgs: Seq::new(
                    r.msgs.len(),
                    |j: int| AnyMsgV { type_url: r.msgs[j].type_url, value: r.msgs[j].value },
                ),
                memo: match r.tx.memo {
                    Some(m) => if m.len() > 0 {
                        Some(m)
                    } else {
                        None
                    },
                    None => None,
                },
                timeout_height: r.tx.timeout_height,
                signatures: Seq::new(r.signatures.len(), |j: int| r.signatures[j].bz),
                signers: Seq::new(
                    r.tx.signers.len(),
                    |j: int| classify_signer_any(r.tx.signers[j]),
                ),
                fees: if r.fees.len() > 0 {
                    Some(
                        Seq::new(
                            r.fees.len(),
                            |j: int|
                                CoinV { amount: r.fees[j].amount, denom: r.fees[j].denom },
                        ),
                    )
                } else {
                    None
                },
                payer: r.tx.payer,
                granter: r.tx.granter,
                code: r.tx.code,
                codespace: match r.tx.codespace {
                    Some(c) => if c.len() > 0 {
                        Some(c)
                    } else {
                        None
                    },
                    None => None,
                },
                gas_limit: r.tx.gas_limit,
                gas_wanted: r.tx.gas_wanted,
                gas_used: r.tx.gas_used,
                data_bz: match r.tx.data_bz {
                    Some(d) => if d.len() > 0 {
                        Some(d)
                    } else {
                        None
                    },
                    None => None,
                },
                tx_bz: r.tx.tx_bz,
            },
        )
    }
}

/// Assembles a transaction from a fetched transaction row with its child
/// rows.
#[verifier::rlimit(100)]
#[verifier::loop_isolation(false)]
pub fn tx_from_record(r: &TxWithDetailsRecord) -> (res: Result<Tx, InvalidValueError>)
    ensures
        match tx_from_record_spec(r@) {
            Ok(tv) => res matches Ok(t) && t@ == tv,
            Err(e) => res matches Err(e2) && e2 == e,
        },
{
    if r.tx.block_height < 1 {
        return Err(InvalidValueError::IntConversion);
    }
    if r.tx.tx_idx_in_block < 0 {
        return Err(InvalidValueError::IntConversion);
    }
    if r.tx.tx_hash.len() != SHA256_LEN {
        return Err(InvalidValueError::Slice);
    }
    let mut msg_list: Vec<AnyMsg> = Vec::new();
    let mut i: usize = 0;
    while i < r.msgs.len()
        invariant
            i <= r.msgs@.len(),
            msg_list@.len() == i,
            forall|j: int|
                0 <= j < i ==> (#[trigger] msg_list@[j])@ == (AnyMsgV {
                    type_url: (r.msgs@[j])@.type_url,
                    value: (r.msgs@[j])@.value,
                }),
        decreases r.msgs@.len() - i,
    {
        msg_list.push(
            AnyMsg {
                type_url: r.msgs[i].type_url.clone(),
                value: clone_bytes(&r.msgs[i].value),
            },
        );
        i = i + 1;
    }
    let msgs = match Msgs::new(msg_list) {
        Some(m) => m,
        None => {
            return Err(InvalidValueError::Empty);
        },
    };
    let timeout_height: Option<u64> = match r.tx.timeout_height {
        Some(t) => {
            if t < 1 {
                return Err(InvalidValueError::IntConversion);
            }
            Some(t as u64)
        },
        None => None,
    };
    if r.tx.payer.len() != ACCOUNT_LEN {
        return Err(InvalidValueError::Slice);
    }
    let granter: Option<Address> = match &r.tx.granter {
        Some(g) => {
            if g.len() == ACCOUNT_LEN {
                Some(Address::new(clone_bytes(g)))
            } else {
                return Err(InvalidValueError::Slice);
            }
        },
        None => None,
    };
    if r.tx.code < 0 {
        return Err(InvalidValueError::IntConversion);
    }
    if r.tx.gas_limit < 0 || r.tx.gas_wanted < 0 || r.tx.gas_used < 0 {
        return Err(InvalidValueError::IntConversion);
    }
    let tx_bz = match NonEmptyBz::new(clone_bytes(&r.tx.tx_bz)) {
        Some(b) => b,
        None => {
            return Err(InvalidValueError::Empty);
        },
    };

    let secp_url: String = "/cosmos.crypto.secp256k1.PubKey".to_owned();
    let ed_url: String = "/cosmos.crypto.ed25519.PubKey".to_owned();
    let mut j: usize = 0;
    while j < r.tx.signers.len()
        invariant
            j <= r.tx.signers@.len(),
            forall|v: int| 0 <= v < j ==> !malformed_signer((#[trigger] r.tx.signers@[v])@),
        decreases r.tx.signers@.len() - j,
    {
        let a = &r.tx.signers[j];
        if (a.type_url == secp_url || a.type_url == ed_url) && crate::wire::decode_pubkey(
            &a.value,
        ).is_none() {
            proof {
                assert(malformed_signer(r@.tx.signers[j as int]));
            }
            return Err(InvalidValueError::SignerEncoding);
        }
        j = j + 1;
    }
    proof {
        assert forall|v: int| 0 <= v < r@.tx.signers.len() implies !malformed_signer(
            #[trigger] r@.tx.signers[v],
        ) by {
            assert(r@.tx.signers[v] == (r.tx.signers@[v])@);
        }
    }

    let mut signatures: Vec<Vec<u8>> = Vec::new();
    let mut i: usize = 0;
    while i < r.signatures.len()
        invariant
            i <= r.signatures@.len(),
            signatures@.len() == i,
            forall|j: int|
                0 <= j < i ==> (#[trigger] signatures@[j])@ == (r.signatures@[j])@.bz,
        decreases r.signatures@.len() - i,
    {
        signatures.push(clone_bytes(&r.signatures[i].bz));
        i = i + 1;
    }

    let mut signers: Vec<SignerKey> = Vec::new();
    let mut i: usize = 0;
    while i < r.tx.signers.len()
        invariant
            i <= r.tx.signers@.len(),
            signers@.len() == i,
            forall|j: int|
                0 <= j < i ==> (#[trigger] signers@[j])@ == classify_signer_any(
                    (r.tx.signers@[j])@,
                ),
        decreases r.tx.signers@.len() - i,
    {
        signers.push(signer_key_from_any(r.tx.signers[i].clone_any()));
        i = i + 1;
    }

    let mut coins: Vec<Coin> = Vec::new();
    let mut i: usize = 0;
    while i < r.fees.len()
        invariant
            i <= r.fees@.len(),
            coins@.len() == i,
            forall|j: int|
                0 <= j < i ==> (#[trigger] coins@[j])@ == (CoinV {
                    amount: (r.fees@[j])@.amount,
                    denom: (r.fees@[j])@.denom,
                }),
        decreases r.fees@.len() - i,
    {
        coins.push(Coin { amount: r.fees[i].amount, denom: r.fees[i].denom.clone() });
        i = i + 1;
    }

    let memo: Option<Memo> = match &r.tx.memo {
        Some(m) => Memo::new(m.clone()),
        None => None,
    };
    let codespace: Option<Codespace> = match &r.tx.codespace {
        Some(c) => Codespace::new(c.clone()),
        None => None,
    };
    let data_bz: Option<NonEmptyBz> = match &r.tx.data_bz {
        Some(d) => NonEmptyBz::new(clone_bytes(d)),
        None => None,
    };
    let tx = Tx::new(
        r.tx.block_height as u64,
        r.tx.tx_idx_in_block as u64,
        Sha256::new(clone_bytes(&r.tx.tx_hash)),
        msgs,
        memo,
        timeout_height,
        signatures,
        signers,
        Fees::new(coins),
        Address::new(clone_bytes(&r.tx.payer)),
        granter,
        r.tx.code as u32,
        codespace,
        r.tx.gas_limit as u64,
        r.tx.gas_wanted as u64,
        r.tx.gas_used as u64,
        data_bz,
        tx_bz,
    );
    proof {
        let tv = tx_from_record_spec(r@)->Ok_0;
        assert(tx@.msgs =~= tv.msgs);
        assert(tx@.signatures =~~= tv.signatures);
        assert(tx@.signers =~= tv.signers);
        if r.fees@.len() > 0 {
            assert(tx@.fees matches Some(f) && f =~= tv.fees->Some_0);
        }
        assert(tx@ =~~= tv);
    }
    Ok(tx)
}

/// Validity of a block view: exact hash and address widths, a positive
/// height, a representable time and non-empty raw transactions. Every
/// value the normalizer or the read path produces satisfies it.
pub open spec fn block_v_wf(b: BlockV) -> bool {
    &&& b.hash.len() == SHA256_LEN
    &&& b.header.validators_hash.len() == SHA256_LEN
    &&& b.header.next_validators_hash.len() == SHA256_LEN
    &&& b.header.consensus_hash.len() == SHA256_LEN
    &&& (b.header.last_commit_hash matches Some(h) ==> h.len() == SHA256_LEN)
    &&& (b.header.data_hash matches Some(h) ==> h.len() == SHA256_LEN)
    &&& (b.header.last_results_hash matches Some(h) ==> h.len() == SHA256_LEN)
    &&& (b.header.evidence_hash matches Some(h) ==> h.len() == SHA256_LEN)
    &&& b.header.proposer.len() == ACCOUNT_LEN
    &&& b.header.height >= 1
    &&& ts_in_range(b.header.time)
    &&& b.gas_used >= 0
    &&& forall|i: int| 0 <= i < b.data.len() ==> (#[trigger] b.data[i]).len() > 0
}

/// Persisting a block and reading its row back, with its raw transaction
/// bytes, yields the block unchanged, field for field.
pub proof fn lemma_block_round_trip(b: BlockV)
    requires
        block_v_wf(b),
        block_record_spec(b) is Ok,
    ensures
        block_from_record_spec(
            BlockWithDataRecordV { block: block_record_spec(b)->Ok_0, data: b.data },
        ) == Ok::<BlockV, InvalidValueError>(b),
{
    let rv = block_record_spec(b)->Ok_0;
    lemma_time_round_trip(b.header.time);
    let b2 = block_from_record_spec(BlockWithDataRecordV { block: rv, data: b.data })->Ok_0;
    assert(b2 =~~= b);
}

/// Validity of a transaction view: exact widths, positive height,
/// non-empty components where the model requires them, non-negative
/// counters and canonical signer keys. Every value the normalizer or the
/// read path produces satisfies it.
pub open spec fn tx_v_wf(t: TxV) -> bool {
    &&& t.block_height >= 1
    &&& t.tx_idx_in_block >= 0
    &&& t.tx_hash.len() == SHA256_LEN
    &&& t.msgs.len() > 0
    &&& (t.memo matches Some(m) ==> m.len() > 0)
    &&& (t.timeout_height matches Some(h) ==> h >= 1)
    &&& (t.fees matches Some(f) ==> f.len() > 0)
    &&& t.payer.len() == ACCOUNT_LEN
    &&& (t.granter matches Some(g) ==> g.len() == ACCOUNT_LEN)
    &&& t.code >= 0
    &&& (t.codespace matches Some(c) ==> c.len() > 0)
    &&& t.gas_limit >= 0
    &&& t.gas_wanted >= 0
    &&& t.gas_used >= 0
    &&& (t.data_bz matches Some(d) ==> d.len() > 0)
    &&& t.tx_bz.len() > 0
    &&& forall|j: int|
        0 <= j < t.signers.len() ==> crate::signer::signer_key_canonical(#[trigger] t.signers[j])
            && signer_readable(t.signers[j])
}

/// Persisting a transaction and reading its rows back yields the
/// transaction unchanged: the orderings of signatures, fees and messages
/// and the identity of every scalar field are preserved.
pub proof fn lemma_tx_round_trip(t: TxV)
    requires
        tx_v_wf(t),
        tx_records_spec(t) is Ok,
    ensures
        tx_from_record_spec(tx_records_spec(t)->Ok_0) == Ok::<TxV, InvalidValueError>(t),
{
    let rv = tx_records_spec(t)->Ok_0;
    assert(rv.msgs.len() == t.msgs.len());
    assert forall|j: int| 0 <= j < rv.tx.signers.len() implies !malformed_signer(
        #[trigger] rv.tx.signers[j],
    ) by {
        assert(rv.tx.signers[j] == signer_any_of(t.signers[j]));
        match t.signers[j] {
            crate::domain::SignerKeyV::Secp256k1(b) => {
                crate::wire::lemma_pubkey_round_trip(b);
            },
            crate::domain::SignerKeyV::Ed25519(b) => {
                crate::wire::lemma_pubkey_round_trip(b);
            },
            crate::domain::SignerKeyV::Other(_) => {},
        }
    }
    let t2 = tx_from_record_spec(rv)->Ok_0;
    assert forall|j: int| 0 <= j < t.signers.len() implies #[trigger] t2.signers[j]
        == t.signers[j] by {
        crate::signer::lemma_signer_key_round_trip(t.signers[j]);
    }
    assert(t2.signers =~= t.signers);
    assert(t2.msgs =~~= t.msgs);
    assert(t2.signatures =~~= t.signatures);
    match t.fees {
        Some(f) => {
            assert(rv.fees.len() == f.len());
            assert(t2.fees matches Some(f2) && f2 =~~= f);
        },
        None => {
            assert(rv.fees.len() == 0);
        },
    }
    assert(t2 =~~= t);
}

} // verus!
