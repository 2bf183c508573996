use vstd::prelude::*;

use crate::crypto::{
    base64_decode, base64_decode_of, bech32_payload_of, keccak256_of, parse_bech32,
    sec1_uncompressed_of, secp_account_id_of, sha256_of,
};
use crate::decode::{
    combined_decode_v, cosmos_tx_auth_decode, cosmos_tx_body_decode, decode_tx_auth,
    decode_tx_body, DecodedTx, DecodedTxV,
};
use crate::domain::block::{Block, BlockData, BlockV, Header, HeaderV};
use crate::domain::tx::{Codespace, Memo, Msgs, Tx, TxV};
use crate::domain::{ts_in_range, AnyMsgV, SignerKey, SignerKeyV, Timestamp};
use crate::errors::IndexerError;
use crate::registry::{signers_of_any, RegistryEntryV, SignerRegistry};
use crate::signer::{
    classify_signer_any, eth_secp256k1_type_url, signer_address, signer_key_from_any,
};
use crate::types::{clone_bytes, NonEmptyBz, Sha256, ACCOUNT_LEN, SHA256_LEN};
use crate::wire::pubkey_dec;

verus! {

/// View of a raw block header as the node reports it.
#[verifier::ext_equal]
pub ghost struct RawHeaderV {
    pub chain_id: Seq<char>,
    pub height: int,
    pub time_ns: int,
    pub validators_hash: Option<Seq<u8>>,
    pub next_validators_hash: Option<Seq<u8>>,
    pub consensus_hash: Option<Seq<u8>>,
    pub app_hash: Seq<u8>,
    pub proposer_address: Seq<u8>,
    pub last_commit_hash: Option<Seq<u8>>,
    pub data_hash: Option<Seq<u8>>,
    pub last_results_hash: Option<Seq<u8>>,
    pub evidence_hash: Option<Seq<u8>>,
}

/// A raw block header as the node reports it: hashes that the node may
/// omit are optional, the time is a nanosecond count.
pub struct RawHeader {
    pub chain_id: String,
    pub height: u64,
    pub time_ns: i128,
    pub validators_hash: Option<Vec<u8>>,
    pub next_validators_hash: Option<Vec<u8>>,
    pub consensus_hash: Option<Vec<u8>>,
    pub app_hash: Vec<u8>,
    pub proposer_address: Vec<u8>,
    pub last_commit_hash: Option<Vec<u8>>,
    pub data_hash: Option<Vec<u8>>,
    pub last_results_hash: Option<Vec<u8>>,
    pub evidence_hash: Option<Vec<u8>>,
}

impl View for RawHeader {
    type V = RawHeaderV;

    open spec fn view(&self) -> RawHeaderV {
        RawHeaderV {
            chain_id: self.chain_id@,
            height: self.height as int,
            time_ns: self.time_ns as int,
            validators_hash: self.validators_hash.deep_view(),
            next_validators_hash: self.next_validators_hash.deep_view(),
            consensus_hash: self.consensus_hash.deep_view(),
            app_hash: self.app_hash@,
            proposer_address: self.proposer_address@,
            last_commit_hash: self.last_commit_hash.deep_view(),
            data_hash: self.data_hash.deep_view(),
            last_results_hash: self.last_results_hash.deep_view(),
            evidence_hash: self.evidence_hash.deep_view(),
        }
    }
}

impl RawHeader {
    /// Copies a raw header.
    pub fn clone_header(&self) -> (r: Self)
        ensures
            r@ == self@,
    {
        RawHeader {
            chain_id: self.chain_id.clone(),
            height: self.height,
            time_ns: self.time_ns,
            validators_hash: clone_opt(&self.validators_hash),
            next_validators_hash: clone_opt(&self.next_validators_hash),
            consensus_hash: clone_opt(&self.consensus_hash),
            app_hash: clone_bytes(&self.app_hash),
            proposer_address: clone_bytes(&self.proposer_address),
            last_commit_hash: clone_opt(&self.last_commit_hash),
            data_hash: clone_opt(&self.data_hash),
            last_results_hash: clone_opt(&self.last_results_hash),
            evidence_hash: clone_opt(&self.evidence_hash),
        }
    }
}

fn clone_opt(o: &Option<Vec<u8>>) -> (r: Option<Vec<u8>>)
    ensures
        r.deep_view() == o.deep_view(),
{
    match o {
        Some(v) => Some(clone_bytes(v)),
        None => None,
    }
}

/// The node's hash fields are 32 bytes when present and its proposer
/// address is 20 bytes.
pub open spec fn raw_header_wf(h: RawHeaderV) -> bool {
    &&& (h.validators_hash matches Some(v) ==> v.len() == SHA256_LEN)
    &&& (h.next_validators_hash matches Some(v) ==> v.len() == SHA256_LEN)
    &&& (h.consensus_hash matches Some(v) ==> v.len() == SHA256_LEN)
    &&& (h.last_commit_hash matches Some(v) ==> v.len() == SHA256_LEN)
    &&& (h.data_hash matches Some(v) ==> v.len() == SHA256_LEN)
    &&& (h.last_results_hash matches Some(v) ==> v.len() == SHA256_LEN)
    &&& (h.evidence_hash matches Some(v) ==> v.len() == SHA256_LEN)
    &&& h.proposer_address.len() == ACCOUNT_LEN
}

/// View of a transaction execution result.
#[verifier::ext_equal]
pub ghost struct RawTxResultV {
    pub code: int,
    pub data: Seq<u8>,
    pub codespace: Seq<char>,
    pub gas_wanted: int,
    pub gas_used: int,
}

/// A transaction execution result as the node reports it: the data field
/// holds base64 text, the gas counters are signed.
pub struct RawTxResult {
    pub code: u32,
    pub data: Vec<u8>,
    pub codespace: String,
    pub gas_wanted: i64,
    pub gas_used: i64,
}

impl View for RawTxResult {
    type V = RawTxResultV;

    open spec fn view(&self) -> RawTxResultV {
        RawTxResultV {
            code: self.code as int,
            data: self.data@,
            codespace: self.codespace@,
            gas_wanted: self.gas_wanted as int,
            gas_used: self.gas_used as int,
        }
    }
}

impl DeepView for RawTxResult {
    type V = RawTxResultV;

    open spec fn deep_view(&self) -> RawTxResultV {
        self.view()
    }
}

impl RawTxResult {
    pub fn clone_result(&self) -> (r: Self)
        ensures
            r@ == self@,
    {
        RawTxResult {
            code: self.code,
            data: clone_bytes(&self.data),
            codespace: self.codespace.clone(),
            gas_wanted: self.gas_wanted,
            gas_used: self.gas_used,
        }
    }
}

/// How payer resolution can fail.
pub ghost enum PayerErrV {
    /// An address payload was not exactly 20 bytes.
    Address,
    /// A signer string failed to parse as bech32; carries the string.
    Bech32(Seq<u8>),
    /// The first signer info carries no public key.
    SignerNoKey,
    /// No signer info and no message yields a signer.
    SignerNoMsg,
    /// The first signer's key kind is not supported.
    Unsupported,
    /// The Ethereum-style key did not name a curve point.
    BadKey,
}

/// Whether a concrete error is the one a payer failure names.
pub open spec fn payer_err_matches(e: IndexerError, v: PayerErrV) -> bool {
    match v {
        PayerErrV::Address => e is Address,
        PayerErrV::Bech32(s) => e matches IndexerError::Bech32Address(b) && b@ == s,
        PayerErrV::SignerNoKey => e matches IndexerError::Signer(m) && m@
            == "signer must have public key"@,
        PayerErrV::SignerNoMsg => e matches IndexerError::Signer(m) && m@
            == "at least one msg must contain signer when no signer info provided"@,
        PayerErrV::Unsupported => e is UnsupportedPublicKey,
        PayerErrV::BadKey => e is Other,
    }
}

/// The address a signer key resolves to.
pub open spec fn signer_address_spec(eth_enabled: bool, k: SignerKeyV) -> Result<
    Seq<u8>,
    PayerErrV,
> {
    match k {
        SignerKeyV::Secp256k1(b) => match secp_account_id_of(b) {
            Some(id) => Ok(id),
            None => Err(PayerErrV::Unsupported),
        },
        SignerKeyV::Ed25519(b) => Ok(sha256_of(b).subrange(0, 20)),
        SignerKeyV::Other(a) => if eth_enabled && a.type_url == eth_secp256k1_type_url() {
            match pubkey_dec(a.value) {
                Some(key) => match sec1_uncompressed_of(key) {
                    Some(p) => Ok(keccak256_of(p.subrange(1, p.len() as int)).subrange(12, 32)),
                    None => Err(PayerErrV::BadKey),
                },
                None => Err(PayerErrV::Unsupported),
            }
        } else {
            Err(PayerErrV::Unsupported)
        },
    }
}

/// The first signer string of the first message that yields any signer.
pub open spec fn first_msg_signer(reg: Seq<RegistryEntryV>, msgs: Seq<AnyMsgV>) -> Option<Seq<u8>>
    decreases msgs.len(),
{
    if msgs.len() == 0 {
        None
    } else {
        match signers_of_any(reg, msgs[0]) {
            Ok(ss) => if ss.len() > 0 {
                Some(ss[0])
            } else {
                first_msg_signer(reg, msgs.drop_first())
            },
            Err(_) => first_msg_signer(reg, msgs.drop_first()),
        }
    }
}

/// The §4.3 payer cascade: an explicit fee payer wins; else the first
/// signer info's key is resolved; else the first message signer string is
/// parsed as bech32.
pub open spec fn resolve_payer_spec(eth_enabled: bool, reg: Seq<RegistryEntryV>, d: DecodedTxV)
    -> Result<Seq<u8>, PayerErrV> {
    match d.fee_payer {
        Some(p) => if p.len() == ACCOUNT_LEN {
            Ok(p)
        } else {
            Err(PayerErrV::Address)
        },
        None => if d.signer_keys.len() > 0 {
            match d.signer_keys[0] {
                Some(a) => signer_address_spec(eth_enabled, classify_signer_any(a)),
                None => Err(PayerErrV::SignerNoKey),
            }
        } else {
            match first_msg_signer(reg, d.msgs) {
                Some(s) => match bech32_payload_of(s) {
                    Some(p) => if p.len() == ACCOUNT_LEN {
                        Ok(p)
                    } else {
                        Err(PayerErrV::Address)
                    },
                    None => Err(PayerErrV::Bech32(s)),
                },
                None => Err(PayerErrV::SignerNoMsg),
            }
        },
    }
}

/// Resolves the fee payer of a decoded transaction by the cascade:
/// explicit payer, first signer info, first message signer.
pub fn resolve_payer(eth_enabled: bool, registry: &SignerRegistry, d: &DecodedTx) -> (r: Result<
    crate::types::Address,
    IndexerError,
>)
    ensures
        match resolve_payer_spec(eth_enabled, registry@, d@) {
            Ok(p) => r matches Ok(a) && a@ == p,
            Err(v) => r matches Err(e) && payer_err_matches(e, v),
        },
{
    match &d.fee_payer {
        Some(p) => {
            if p.len() == ACCOUNT_LEN {
                Ok(crate::types::Address::new(clone_bytes(p)))
            } else {
                Err(IndexerError::Address)
            }
        },
        None => {
            if d.signer_keys.len() > 0 {
                match &d.signer_keys[0] {
                    Some(a) => {
                        let key = signer_key_from_any(a.clone_any());
                        signer_address(eth_enabled, &key)
                    },
                    None => Err(IndexerError::Signer("signer must have public key".to_owned())),
                }
            } else {
                let mut i: usize = 0;
                proof {
                    assert(d.msgs.deep_view().skip(0) =~= d.msgs.deep_view());
                }
                while i < d.msgs.len()
                    invariant
                        i <= d.msgs@.len(),
                        d@.fee_payer is None,
                        d@.signer_keys.len() == 0,
                        first_msg_signer(registry@, d@.msgs) == first_msg_signer(
                            registry@,
                            d.msgs.deep_view().skip(i as int),
                        ),
                    decreases d.msgs@.len() - i,
                {
                    proof {
                        assert(d.msgs.deep_view().skip(i as int)[0] =~~= d.msgs@[i as int]@);
                        assert(d.msgs.deep_view().skip(i as int).drop_first() =~= d.msgs.deep_view()
                            .skip(i as int + 1));
                    }
                    match registry.signers_from_any_msg(&d.msgs[i]) {
                        Ok(signers) => {
                            if signers.len() > 0 {
                                let s = &signers[0];
                                proof {
                                    assert(signers.deep_view()[0] =~~= signers@[0]@);
                                }
                                match parse_bech32(s) {
                                    Some(p) => {
                                        return if p.len() == ACCOUNT_LEN {
                                            Ok(crate::types::Address::new(p))
                                        } else {
                                            Err(IndexerError::Address)
                                        };
                                    },
                                    None => {
                                        return Err(IndexerError::Bech32Address(clone_bytes(s)));
                                    },
                                }
                            }
                        },
                        Err(_) => {},
                    }
                    i = i + 1;
                }
                proof {
                    assert(d.msgs.deep_view().skip(d.msgs@.len() as int) =~= Seq::<
                        AnyMsgV,
                    >::empty());
                }
                Err(
                    IndexerError::Signer(
                        "at least one msg must contain signer when no signer info provided".to_owned(),
                    ),
                )
            }
        },
    }
}

/// Lifts an optional node hash; a present hash must be a digest.
pub fn make_sha256(hash: Option<Vec<u8>>) -> (r: Option<Sha256>)
    requires
        hash matches Some(h) ==> h@.len() == SHA256_LEN,
    ensures
        hash matches Some(h) ==> (r matches Some(s) && s@ == h@),
        hash is None ==> r is None,
{
    match hash {
        Some(h) => Some(Sha256::new(h)),
        None => None,
    }
}

/// What a raw header normalizes to: the time must be representable and
/// the three always-required hashes present, checked in that order.
pub open spec fn make_header_spec(h: RawHeaderV) -> Result<HeaderV, IndexerError> {
    if !ts_in_range(h.time_ns) {
        Err(IndexerError::Timestamp)
    } else if h.validators_hash is None {
        Err(IndexerError::ValidatorHash)
    } else if h.next_validators_hash is None {
        Err(IndexerError::NextValidatorsHash)
    } else if h.consensus_hash is None {
        Err(IndexerError::ConsensusHash)
    } else {
        Ok(
            HeaderV {
                chain_id: h.chain_id,
                height: h.height,
                time: h.time_ns,
                validators_hash: h.validators_hash->Some_0,
                next_validators_hash: h.next_validators_hash->Some_0,
                consensus_hash: h.consensus_hash->Some_0,
                app_hash: h.app_hash,
                proposer: h.proposer_address,
                last_commit_hash: h.last_commit_hash,
                data_hash: h.data_hash,
                last_results_hash: h.last_results_hash,
                evidence_hash: h.evidence_hash,
            },
        )
    }
}

/// Normalizes a raw header.
pub fn make_header(h: RawHeader) -> (r: Result<Header, IndexerError>)
    requires
        raw_header_wf(h@),
        h@.height >= 1,
    ensures
        match make_header_spec(h@) {
            Ok(hv) => r matches Ok(hh) && hh@ == hv,
            Err(e) => r matches Err(e2) && e2 == e,
        },
{
    let time = match Timestamp::from_nanosecond(h.time_ns) {
        Some(t) => t,
        None => {
            return Err(IndexerError::Timestamp);
        },
    };
    let validators_hash = match make_sha256(h.validators_hash) {
        Some(s) => s,
        None => {
            return Err(IndexerError::ValidatorHash);
        },
    };
    let next_validators_hash = match make_sha256(h.next_validators_hash) {
        Some(s) => s,
        None => {
            return Err(IndexerError::NextValidatorsHash);
        },
    };
    let consensus_hash = match make_sha256(h.consensus_hash) {
        Some(s) => s,
        None => {
            return Err(IndexerError::ConsensusHash);
        },
    };
    Ok(
        Header::new(
            h.chain_id,
            h.height,
            time,
            validators_hash,
            next_validators_hash,
            consensus_hash,
            crate::types::AppHash::new(h.app_hash),
            crate::types::Address::new(h.proposer_address),
            make_sha256(h.last_commit_hash),
            make_sha256(h.data_hash),
            make_sha256(h.last_results_hash),
            make_sha256(h.evidence_hash),
        ),
    )
}

/// How normalizing one transaction can fail.
pub ghost enum TxErrV {
    /// The raw bytes did not decode.
    Decode,
    /// Payer resolution failed.
    Payer(PayerErrV),
    /// The decoded transaction carried no messages.
    MsgsMissing,
    /// The granter address was not 20 bytes.
    GranterAddress,
    /// A gas counter was negative or a sum overflowed.
    Gas,
    /// The execution data field was not valid base64.
    DataDecode,
}

/// Whether a concrete error is the one a transaction failure names.
pub open spec fn tx_err_matches(e: IndexerError, v: TxErrV) -> bool {
    match v {
        TxErrV::Decode => e is TxDecodeError,
        TxErrV::Payer(p) => payer_err_matches(e, p),
        TxErrV::MsgsMissing => e is TxMsgsMissing,
        TxErrV::GranterAddress => e is Address,
        TxErrV::Gas => e is Gas,
        TxErrV::DataDecode => e is TxDataDecodeError,
    }
}

/// The signer keys of a decoded transaction: present keys classified, in
/// order; absent ones dropped.
pub open spec fn classify_keys(ks: Seq<Option<AnyMsgV>>) -> Seq<SignerKeyV>
    decreases ks.len(),
{
    if ks.len() == 0 {
        seq![]
    } else {
        let rest = classify_keys(ks.drop_first());
        match ks[0] {
            Some(a) => seq![classify_signer_any(a)] + rest,
            None => rest,
        }
    }
}

/// What a raw transaction normalizes to under a registry: decoding, the
/// payer cascade, the non-empty message check, the granter length check,
/// the gas sign checks and the base64 data decode, in that order.
pub open spec fn make_tx_spec(
    eth_enabled: bool,
    reg: Seq<RegistryEntryV>,
    height: int,
    idx: int,
    tx_bz: Seq<u8>,
    res: RawTxResultV,
) -> Result<TxV, TxErrV> {
    if cosmos_tx_body_decode(tx_bz) is None || cosmos_tx_auth_decode(tx_bz) is None {
        Err(TxErrV::Decode)
    } else {
        let d = combined_decode_v(
            cosmos_tx_body_decode(tx_bz)->Some_0,
            cosmos_tx_auth_decode(tx_bz)->Some_0,
        );
        match resolve_payer_spec(eth_enabled, reg, d) {
            Err(pe) => Err(TxErrV::Payer(pe)),
            Ok(payer) => if d.msgs.len() == 0 {
                Err(TxErrV::MsgsMissing)
            } else if d.fee_granter matches Some(g) && g.len() != ACCOUNT_LEN {
                Err(TxErrV::GranterAddress)
            } else if res.gas_wanted < 0 || res.gas_used < 0 {
                Err(TxErrV::Gas)
            } else {
                match base64_decode_of(res.data) {
                    None => Err(TxErrV::DataDecode),
                    Some(db) => Ok(
                        TxV {
                            block_height: height,
                            tx_idx_in_block: idx,
                            tx_hash: sha256_of(tx_bz),
                            msgs: d.msgs,
                            memo: if d.memo.len() > 0 {
                                Some(d.memo)
                            } else {
                                None
                            },
                            timeout_height: if d.timeout_height > 0 {
                                Some(d.timeout_height)
                            } else {
                                None
                            },
                            signatures: d.signatures,
                            signers: classify_keys(d.signer_keys),
                            fees: if d.fee_amount.len() > 0 {
                                Some(d.fee_amount)
                            } else {
                                None
                            },
                            payer: payer,
                            granter: d.fee_granter,
                            code: res.code,
                            codespace: if res.codespace.len() > 0 {
                                Some(res.codespace)
                            } else {
                                None
                            },
                            gas_limit: d.gas_limit,
                            gas_wanted: res.gas_wanted,
                            gas_used: res.gas_used,
                            data_bz: if db.len() > 0 {
                                Some(db)
                            } else {
                                None
                            },
                            tx_bz: tx_bz,
                        },
                    ),
                }
            },
        }
    }
}

/// Normalizes one raw transaction together with its execution result.
pub fn make_tx(
    eth_enabled: bool,
    registry: &SignerRegistry,
    block_height: u64,
    tx_idx_in_block: u64,
    tx_bz: NonEmptyBz,
    res: &RawTxResult,
) -> (r: Result<Tx, IndexerError>)
    requires
        block_height >= 1,
    ensures
        match make_tx_spec(
            eth_enabled,
            registry@,
            block_height as int,
            tx_idx_in_block as int,
            tx_bz@,
            res@,
        ) {
            Ok(tv) => r matches Ok(tx) && tx@ == tv,
            Err(ev) => r matches Err(e) && tx_err_matches(e, ev),
        },
{
    let bd = match decode_tx_body(tx_bz.get()) {
        Some(b) => b,
        None => {
            return Err(IndexerError::TxDecodeError);
        },
    };
    let ad = match decode_tx_auth(tx_bz.get()) {
        Some(a) => a,
        None => {
            return Err(IndexerError::TxDecodeError);
        },
    };
    let d = DecodedTx::combine(bd, ad);
    let payer = match resolve_payer(eth_enabled, registry, &d) {
        Ok(p) => p,
        Err(e) => {
            return Err(e);
        },
    };
    let msgs = match Msgs::new(d.msgs) {
        Some(m) => m,
        None => {
            return Err(IndexerError::TxMsgsMissing);
        },
    };
    let granter = match d.fee_granter {
        Some(g) => {
            if g.len() == ACCOUNT_LEN {
                Some(crate::types::Address::new(g))
            } else {
                return Err(IndexerError::Address);
            }
        },
        None => None,
    };
    if res.gas_wanted < 0 || res.gas_used < 0 {
        return Err(IndexerError::Gas);
    }
    let data_bz = match base64_decode(&res.data) {
        Some(v) => NonEmptyBz::new(v),
        None => {
            return Err(IndexerError::TxDataDecodeError);
        },
    };
    let mut signers: Vec<SignerKey> = Vec::new();
    let mut i: usize = 0;
    proof {
        assert(d.signer_keys.deep_view().skip(0) =~= d.signer_keys.deep_view());
        assert(signers.deep_view() + classify_keys(d.signer_keys.deep_view())
            =~= classify_keys(d.signer_keys.deep_view()));
    }
    while i < d.signer_keys.len()
        invariant
            i <= d.signer_keys@.len(),
            classify_keys(d.signer_keys.deep_view()) == signers.deep_view() + classify_keys(
                d.signer_keys.deep_view().skip(i as int),
            ),
        decreases d.signer_keys@.len() - i,
    {
        proof {
            assert(d.signer_keys.deep_view().skip(i as int)[0] =~~= d.signer_keys@[
                i as int
            ].deep_view());
            assert(d.signer_keys.deep_view().skip(i as int).drop_first() =~= d.signer_keys
                .deep_view()
                .skip(i as int + 1));
        }
        let ghost acc0 = signers.deep_view();
        match &d.signer_keys[i] {
            Some(a) => {
                let key = signer_key_from_any(a.clone_any());
                signers.push(key);
                proof {
                    assert(signers.deep_view() =~~= acc0 + seq![key@]);
                    assert(acc0 + (seq![key@] + classify_keys(
                        d.signer_keys.deep_view().skip(i as int + 1),
                    )) =~= (acc0 + seq![key@]) + classify_keys(
                        d.signer_keys.deep_view().skip(i as int + 1),
                    ));
                }
            },
            None => {},
        }
        i = i + 1;
    }
    proof {
        assert(d.signer_keys.deep_view().skip(d.signer_keys@.len() as int) =~= Seq::<
            Option<AnyMsgV>,
        >::empty());
        assert(signers.deep_view() + Seq::<SignerKeyV>::empty() =~= signers.deep_view());
    }
    let tx_hash = Sha256::new(crate::crypto::sha256(tx_bz.get()));
    let timeout_height: Option<u64> = if d.timeout_height > 0 {
        Some(d.timeout_height)
    } else {
        None
    };
    Ok(
        Tx::new(
            block_height,
            tx_idx_in_block,
            tx_hash,
            msgs,
            Memo::new(d.memo),
            timeout_height,
            d.signatures,
            signers,
            crate::domain::tx::Fees::new(d.fee_amount),
            payer,
            granter,
            res.code,
            Codespace::new(res.codespace.clone()),
            d.gas_limit,
            res.gas_wanted as u64,
            res.gas_used as u64,
            data_bz,
            tx_bz,
        ),
    )
}

/// What a block's transactions normalize to: each raw transaction in
/// order, with the running gas total, which must never overflow.
pub open spec fn process_txs_spec(
    eth_enabled: bool,
    reg: Seq<RegistryEntryV>,
    height: int,
    data: Seq<Seq<u8>>,
    results: Seq<RawTxResultV>,
    idx: int,
    gas0: int,
) -> Result<(Seq<TxV>, int), TxErrV>
    decreases data.len(),
{
    if data.len() == 0 {
        Ok((seq![], gas0))
    } else {
        match make_tx_spec(eth_enabled, reg, height, idx, data[0], results[0]) {
            Err(e) => Err(e),
            Ok(tv) => if gas0 + tv.gas_used > u64::MAX {
                Err(TxErrV::Gas)
            } else {
                match process_txs_spec(
                    eth_enabled,
                    reg,
                    height,
                    data.drop_first(),
                    results.drop_first(),
                    idx + 1,
                    gas0 + tv.gas_used,
                ) {
                    Err(e) => Err(e),
                    Ok(p) => Ok((seq![tv] + p.0, p.1)),
                }
            },
        }
    }
}

/// Normalizes a block's transactions, accumulating the gas total.
pub fn process_block_txs(
    eth_enabled: bool,
    registry: &SignerRegistry,
    height: u64,
    data: &Vec<NonEmptyBz>,
    results: &Vec<RawTxResult>,
) -> (r: Result<(u64, Vec<Tx>), IndexerError>)
    requires
        height >= 1,
        data@.len() == results@.len(),
    ensures
        match process_txs_spec(
            eth_enabled,
            registry@,
            height as int,
            data.deep_view(),
            results.deep_view(),
            0,
            0,
        ) {
            Ok(p) => r matches Ok(v) && v.0 as int == p.1 && v.1.deep_view() == p.0,
            Err(ev) => r matches Err(e) && tx_err_matches(e, ev),
        },
{
    let mut txs: Vec<Tx> = Vec::new();
    let mut total_gas: u64 = 0;
    let mut i: usize = 0;
    proof {
        assert(data.deep_view().skip(0) =~= data.deep_view());
        assert(results.deep_view().skip(0) =~= results.deep_view());
    }
    while i < data.len()
        invariant
            i <= data@.len(),
            data@.len() == results@.len(),
            height >= 1,
            txs.deep_view().len() == i,
            ({
                let full = process_txs_spec(
                    eth_enabled,
                    registry@,
                    height as int,
                    data.deep_view(),
                    results.deep_view(),
                    0,
                    0,
                );
                match process_txs_spec(
                    eth_enabled,
                    registry@,
                    height as int,
                    data.deep_view().skip(i as int),
                    results.deep_view().skip(i as int),
                    i as int,
                    total_gas as int,
                ) {
                    Err(e) => full == Err::<(Seq<TxV>, int), TxErrV>(e),
                    Ok(p) => full == Ok::<(Seq<TxV>, int), TxErrV>(
                        (txs.deep_view() + p.0, p.1),
                    ),
                }
            }),
        decreases data@.len() - i,
    {
        proof {
            assert(data.deep_view().skip(i as int)[0] =~~= data@[i as int]@);
            assert(results.deep_view().skip(i as int)[0] =~~= results@[i as int]@);
            assert(data.deep_view().skip(i as int).drop_first() =~= data.deep_view().skip(
                i as int + 1,
            ));
            assert(results.deep_view().skip(i as int).drop_first() =~= results.deep_view().skip(
                i as int + 1,
            ));
        }
        let tx = match make_tx(
            eth_enabled,
            registry,
            height,
            i as u64,
            data[i].clone_bz(),
            &results[i],
        ) {
            Ok(tx) => tx,
            Err(e) => {
                return Err(e);
            },
        };
        let gas = tx.gas_used();
        if total_gas > u64::MAX - gas {
            return Err(IndexerError::Gas);
        }
        total_gas = total_gas + gas;
        let ghost txs0 = txs.deep_view();
        let ghost tv = tx@;
        txs.push(tx);
        proof {
            assert(txs.deep_view() =~~= txs0 + seq![tv]);
            let rest = process_txs_spec(
                eth_enabled,
                registry@,
                height as int,
                data.deep_view().skip(i as int + 1),
                results.deep_view().skip(i as int + 1),
                i as int + 1,
                total_gas as int,
            );
            if rest is Ok {
                assert(txs0 + (seq![tv] + rest->Ok_0.0) =~= (txs0 + seq![tv]) + rest->Ok_0.0);
            }
        }
        i = i + 1;
    }
    proof {
        assert(data.deep_view().skip(data@.len() as int) =~= Seq::<Seq<u8>>::empty());
        assert(results.deep_view().skip(results@.len() as int) =~= Seq::<RawTxResultV>::empty());
        assert(txs.deep_view() + Seq::<TxV>::empty() =~= txs.deep_view());
    }
    Ok((total_gas, txs))
}

/// Every byte string in a block's data is non-empty.
pub open spec fn all_nonempty(data: Seq<Seq<u8>>) -> bool {
    forall|i: int| 0 <= i < data.len() ==> (#[trigger] data[i]).len() > 0
}

/// How normalizing a block can fail.
pub ghost enum BlockErrV {
    /// Transaction count and result count disagree, or a raw transaction
    /// byte string was empty.
    Data,
    /// The height was zero.
    Height,
    /// A transaction failed to normalize.
    Tx(TxErrV),
    /// The header failed to normalize.
    Header(IndexerError),
    /// The node reported no block hash.
    Hash,
}

/// Whether a concrete error is the one a block failure names.
pub open spec fn block_err_matches(e: IndexerError, v: BlockErrV) -> bool {
    match v {
        BlockErrV::Data => e is BlockData,
        BlockErrV::Height => e is Height,
        BlockErrV::Tx(t) => tx_err_matches(e, t),
        BlockErrV::Header(e2) => e == e2,
        BlockErrV::Hash => e is BlockHash,
    }
}

/// What a raw block normalizes to: the data and result counts must agree,
/// the height must be positive, every raw transaction non-empty; then the
/// transactions, the header and the block hash are normalized in that
/// order.
pub open spec fn process_block_spec(
    eth_enabled: bool,
    reg: Seq<RegistryEntryV>,
    header: RawHeaderV,
    hash: Option<Seq<u8>>,
    data: Seq<Seq<u8>>,
    results: Seq<RawTxResultV>,
) -> Result<(BlockV, Seq<TxV>), BlockErrV> {
    if data.len() != results.len() {
        Err(BlockErrV::Data)
    } else if header.height < 1 {
        Err(BlockErrV::Height)
    } else if !all_nonempty(data) {
        Err(BlockErrV::Data)
    } else {
        match process_txs_spec(eth_enabled, reg, header.height, data, results, 0, 0) {
            Err(t) => Err(BlockErrV::Tx(t)),
            Ok(p) => match make_header_spec(header) {
                Err(he) => Err(BlockErrV::Header(he)),
                Ok(hv) => match hash {
                    None => Err(BlockErrV::Hash),
                    Some(hs) => Ok(
                        (BlockV { header: hv, gas_used: p.1, hash: hs, data: data }, p.0),
                    ),
                },
            },
        }
    }
}

/// Normalizes a raw block with its execution results into a block and its
/// transactions.
pub fn process_block(
    eth_enabled: bool,
    registry: &SignerRegistry,
    header: RawHeader,
    hash: Option<Vec<u8>>,
    data: Vec<Vec<u8>>,
    results: Vec<RawTxResult>,
) -> (r: Result<(Block, Vec<Tx>), IndexerError>)
    requires
        raw_header_wf(header@),
        hash matches Some(h) ==> h@.len() == SHA256_LEN,
    ensures
        match process_block_spec(
            eth_enabled,
            registry@,
            header@,
            hash.deep_view(),
            data.deep_view(),
            results.deep_view(),
        ) {
            Ok(p) => r matches Ok(v) && v.0@ == p.0 && v.1.deep_view() == p.1,
            Err(ev) => r matches Err(e) && block_err_matches(e, ev),
        },
{
    if data.len() != results.len() {
        return Err(IndexerError::BlockData);
    }
    if header.height < 1 {
        return Err(IndexerError::Height);
    }
    let height = header.height;
    let mut items: Vec<NonEmptyBz> = Vec::new();
    let mut i: usize = 0;
    while i < data.len()
        invariant
            i <= data@.len(),
            data@.len() == results@.len(),
            header@.height >= 1,
            items.deep_view() =~= data.deep_view().subrange(0, i as int),
            forall|j: int| 0 <= j < i ==> (#[trigger] data.deep_view()[j]).len() > 0,
        decreases data@.len() - i,
    {
        proof {
            assert(data.deep_view()[i as int] =~~= data@[i as int]@);
        }
        let ghost items0 = items.deep_view();
        match NonEmptyBz::new(crate::types::clone_bytes(&data[i])) {
            Some(b) => {
                let ghost bv = b@;
                items.push(b);
                proof {
                    assert(items.deep_view() =~~= items0.push(bv));
                    assert(data.deep_view().subrange(0, i as int + 1) =~= data.deep_view()
                        .subrange(0, i as int)
                        .push(data.deep_view()[i as int]));
                    assert(items.deep_view() =~= data.deep_view().subrange(0, i as int + 1));
                }
            },
            None => {
                return Err(IndexerError::BlockData);
            },
        }
        i = i + 1;
    }
    proof {
        assert(items.deep_view() =~= data.deep_view());
    }
    let (total_gas, txs) = match process_block_txs(eth_enabled, registry, height, &items, &results)
    {
        Ok(p) => p,
        Err(e) => {
            return Err(e);
        },
    };
    let hv = match make_header(header) {
        Ok(h) => h,
        Err(e) => {
            return Err(e);
        },
    };
    let block_hash = match make_sha256(hash) {
        Some(s) => s,
        None => {
            return Err(IndexerError::BlockHash);
        },
    };
    let block_data = match BlockData::new(items) {
        Some(d) => d,
        None => {
            return Err(IndexerError::BlockData);
        },
    };
    Ok((Block::new(hv, total_gas, block_hash, block_data), txs))
}

} // verus!
