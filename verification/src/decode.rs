use vstd::prelude::*;

use cosmrs::Any as CosmosAny;

use crate::domain::{AnyMsg, AnyMsgV, Coin, CoinV};

verus! {

/// View of the body parts of a decoded raw transaction.
#[verifier::ext_equal]
pub ghost struct DecodedBodyV {
    pub msgs: Seq<AnyMsgV>,
    pub memo: Seq<char>,
    pub timeout_height: int,
    pub signatures: Seq<Seq<u8>>,
}

/// The body parts of a decoded raw transaction: its messages, memo,
/// timeout height and signatures. A zero timeout height means none was
/// set.
pub struct DecodedBody {
    pub msgs: Vec<AnyMsg>,
    pub memo: String,
    pub timeout_height: u64,
    pub signatures: Vec<Vec<u8>>,
}

impl View for DecodedBody {
    type V = DecodedBodyV;

    open spec fn view(&self) -> DecodedBodyV {
        DecodedBodyV {
            msgs: self.msgs.deep_view(),
            memo: self.memo@,
            timeout_height: self.timeout_height as int,
            signatures: self.signatures.deep_view(),
        }
    }
}

impl DecodedBody {
    /// Assembles decoded body parts.
    pub fn make(msgs: Vec<AnyMsg>, memo: String, timeout_height: u64, signatures: Vec<Vec<u8>>)
        -> (r: Self)
        ensures
            r@ == (DecodedBodyV {
                msgs: msgs.deep_view(),
                memo: memo@,
                timeout_height: timeout_height as int,
                signatures: signatures.deep_view(),
            }),
    {
        DecodedBody { msgs, memo, timeout_height, signatures }
    }
}

/// View of the auth parts of a decoded raw transaction.
#[verifier::ext_equal]
pub ghost struct DecodedAuthV {
    pub signer_keys: Seq<Option<AnyMsgV>>,
    pub fee_amount: Seq<CoinV>,
    pub gas_limit: int,
    pub fee_payer: Option<Seq<u8>>,
    pub fee_granter: Option<Seq<u8>>,
}

/// The auth parts of a decoded raw transaction: the signer public keys in
/// their canonical opaque form, the fee coins, the gas limit, and the
/// payer and granter address payloads.
pub struct DecodedAuth {
    pub signer_keys: Vec<Option<AnyMsg>>,
    pub fee_amount: Vec<Coin>,
    pub gas_limit: u64,
    pub fee_payer: Option<Vec<u8>>,
    pub fee_granter: Option<Vec<u8>>,
}

impl View for DecodedAuth {
    type V = DecodedAuthV;

    open spec fn view(&self) -> DecodedAuthV {
        DecodedAuthV {
            signer_keys: self.signer_keys.deep_view(),
            fee_amount: self.fee_amount.deep_view(),
            gas_limit: self.gas_limit as int,
            fee_payer: self.fee_payer.deep_view(),
            fee_granter: self.fee_granter.deep_view(),
        }
    }
}

impl DecodedAuth {
    /// Assembles decoded auth parts.
    pub fn make(
        signer_keys: Vec<Option<AnyMsg>>,
        fee_amount: Vec<Coin>,
        gas_limit: u64,
        fee_payer: Option<Vec<u8>>,
        fee_granter: Option<Vec<u8>>,
    ) -> (r: Self)
        ensures
            r@ == (DecodedAuthV {
                signer_keys: signer_keys.deep_view(),
                fee_amount: fee_amount.deep_view(),
                gas_limit: gas_limit as int,
                fee_payer: fee_payer.deep_view(),
                fee_granter: fee_granter.deep_view(),
            }),
    {
        DecodedAuth { signer_keys, fee_amount, gas_limit, fee_payer, fee_granter }
    }
}

/// View of the parts of a decoded raw transaction that the normalizer
/// reads.
#[verifier::ext_equal]
pub ghost struct DecodedTxV {
    pub msgs: Seq<AnyMsgV>,
    pub memo: Seq<char>,
    pub timeout_height: int,
    pub signatures: Seq<Seq<u8>>,
    pub signer_keys: Seq<Option<AnyMsgV>>,
    pub fee_amount: Seq<CoinV>,
    pub gas_limit: int,
    pub fee_payer: Option<Seq<u8>>,
    pub fee_granter: Option<Seq<u8>>,
}

/// The parts of a decoded raw transaction that the normalizer reads.
/// Signer public keys are carried in their canonical opaque form; a zero
/// timeout height means none was set.
pub struct DecodedTx {
    pub msgs: Vec<AnyMsg>,
    pub memo: String,
    pub timeout_height: u64,
    pub signatures: Vec<Vec<u8>>,
    pub signer_keys: Vec<Option<AnyMsg>>,
    pub fee_amount: Vec<Coin>,
    pub gas_limit: u64,
    pub fee_payer: Option<Vec<u8>>,
    pub fee_granter: Option<Vec<u8>>,
}

impl View for DecodedTx {
    type V = DecodedTxV;

    open spec fn view(&self) -> DecodedTxV {
        DecodedTxV {
            msgs: self.msgs.deep_view(),
            memo: self.memo@,
            timeout_height: self.timeout_height as int,
            signatures: self.signatures.deep_view(),
            signer_keys: self.signer_keys.deep_view(),
            fee_amount: self.fee_amount.deep_view(),
            gas_limit: self.gas_limit as int,
            fee_payer: self.fee_payer.deep_view(),
            fee_granter: self.fee_granter.deep_view(),
        }
    }
}

/// The combined view of decoded body and auth parts.
pub open spec fn combined_decode_v(b: DecodedBodyV, a: DecodedAuthV) -> DecodedTxV {
    DecodedTxV {
        msgs: b.msgs,
        memo: b.memo,
        timeout_height: b.timeout_height,
        signatures: b.signatures,
        signer_keys: a.signer_keys,
        fee_amount: a.fee_amount,
        gas_limit: a.gas_limit,
        fee_payer: a.fee_payer,
        fee_granter: a.fee_granter,
    }
}

impl DecodedTx {
    /// Combines decoded body and auth parts.
    pub fn combine(b: DecodedBody, a: DecodedAuth) -> (r: Self)
        ensures
            r@ == combined_decode_v(b@, a@),
    {
        DecodedTx {
            msgs: b.msgs,
            memo: b.memo,
            timeout_height: b.timeout_height,
            signatures: b.signatures,
            signer_keys: a.signer_keys,
            fee_amount: a.fee_amount,
            gas_limit: a.gas_limit,
            fee_payer: a.fee_payer,
            fee_granter: a.fee_granter,
        }
    }
}

/// What the body of a raw transaction byte string decodes to, when the
/// transaction decodes.
pub uninterp spec fn cosmos_tx_body_decode(bz: Seq<u8>) -> Option<DecodedBodyV>;

/// What the auth info of a raw transaction byte string decodes to, when
/// the transaction decodes: the canonical opaque form of each signer
/// public key, the fee coins, the gas limit, and the bech32 payloads of
/// the payer and granter.
pub uninterp spec fn cosmos_tx_auth_decode(bz: Seq<u8>) -> Option<DecodedAuthV>;

/// Relies on cosmrs's transaction decoding (protobuf `TxRaw` with its
/// body): the result depends on the bytes alone.
#[verifier::external_body]
pub(crate) fn decode_tx_body(bz: &Vec<u8>) -> (r: Option<DecodedBody>)
    ensures
        match cosmos_tx_body_decode(bz@) {
            Some(d) => r matches Some(v) && v@ == d,
            None => r is None,
        },
{
    let t = cosmrs::Tx::from_bytes(bz).ok()?;
    let any = |x: CosmosAny| AnyMsg::new(x.type_url, x.value);
    let msgs = t.body.messages.into_iter().map(any).collect();
    Some(DecodedBody::make(msgs, t.body.memo, t.body.timeout_height.value(), t.signatures))
}

/// Relies on cosmrs's transaction decoding (protobuf `TxRaw` with its
/// auth info), on its canonical `Any` form of each signer public key and
/// on its bech32 payloads: all depend on the bytes alone.
#[verifier::external_body]
pub(crate) fn decode_tx_auth(bz: &Vec<u8>) -> (r: Option<DecodedAuth>)
    ensures
        match cosmos_tx_auth_decode(bz@) {
            Some(d) => r matches Some(v) && v@ == d,
            None => r is None,
        },
{
    let t: cosmrs::Tx = bz.as_slice().try_into().ok()?;
    let any = |x: CosmosAny| AnyMsg::new(x.type_url, x.value);
    let a = t.auth_info;
    let keys = a.signer_infos.into_iter().map(|s| s.public_key.map(CosmosAny::from).map(any)).collect();
    let fees = a.fee.amount.into_iter().map(|c| Coin::new(c.amount, c.denom.to_string())).collect();
    Some(DecodedAuth::make(keys, fees, a.fee.gas_limit, a.fee.payer.map(|p| p.to_bytes()), a.fee.granter.map(|p| p.to_bytes())))
}

} // verus!
