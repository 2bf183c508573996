pub mod block;
pub mod tx;

use vstd::prelude::*;

verus! {

/// Earliest representable block time, in nanoseconds since the Unix
/// epoch: the supported range covers Unix seconds -377705023201 up to
/// 253402207200, a little over a day inside the years -9999 and 9999 so
/// that every zoned civil time in those years stays representable.
pub const TS_MIN_NANOS: i128 = -377705023201000000000;

/// Latest representable block time, in nanoseconds since the Unix epoch:
/// the last nanosecond of Unix second 253402207200.
pub const TS_MAX_NANOS: i128 = 253402207200999999999;

/// A point in time with nanosecond precision, counted from the Unix epoch.
pub struct Timestamp {
    nanos: i128,
}

impl View for Timestamp {
    type V = int;

    closed spec fn view(&self) -> int {
        self.nanos as int
    }
}

/// Whether a nanosecond count lies in the representable timestamp range.
pub open spec fn ts_in_range(nanos: int) -> bool {
    TS_MIN_NANOS <= nanos <= TS_MAX_NANOS
}

impl Timestamp {
    #[verifier::type_invariant]
    pub closed spec fn wf(self) -> bool {
        ts_in_range(self.nanos as int)
    }

    /// Accepts exactly the nanosecond counts in the representable range.
    pub fn from_nanosecond(nanos: i128) -> (r: Option<Self>)
        ensures
            ts_in_range(nanos as int) ==> (r matches Some(t) && t@ == nanos as int),
            !ts_in_range(nanos as int) ==> r is None,
    {
        if TS_MIN_NANOS <= nanos && nanos <= TS_MAX_NANOS {
            Some(Timestamp { nanos })
        } else {
            None
        }
    }

    pub fn as_nanosecond(&self) -> (r: i128)
        ensures
            r as int == self@,
            ts_in_range(r as int),
    {
        proof {
            use_type_invariant(self);
        }
        self.nanos
    }
}

/// View of an opaque protobuf payload.
#[verifier::ext_equal]
pub ghost struct AnyMsgV {
    pub type_url: Seq<char>,
    pub value: Seq<u8>,
}

/// An opaque protobuf payload: a type URL together with encoded bytes.
pub struct AnyMsg {
    pub type_url: String,
    pub value: Vec<u8>,
}

impl View for AnyMsg {
    type V = AnyMsgV;

    open spec fn view(&self) -> AnyMsgV {
        AnyMsgV { type_url: self.type_url@, value: self.value@ }
    }
}

impl DeepView for AnyMsg {
    type V = AnyMsgV;

    open spec fn deep_view(&self) -> AnyMsgV {
        self.view()
    }
}

impl AnyMsg {
    pub fn new(type_url: String, value: Vec<u8>) -> (r: Self)
        ensures
            r@.type_url == type_url@,
            r@.value == value@,
    {
        AnyMsg { type_url, value }
    }

    pub fn clone_any(&self) -> (r: Self)
        ensures
            r@ == self@,
    {
        AnyMsg {
            type_url: self.type_url.clone(),
            value: crate::types::clone_bytes(&self.value),
        }
    }
}

/// View of a coin: an amount of some denomination.
#[verifier::ext_equal]
pub ghost struct CoinV {
    pub amount: int,
    pub denom: Seq<char>,
}

/// A fee coin: an unsigned amount of a named denomination.
pub struct Coin {
    pub amount: u128,
    pub denom: String,
}

impl View for Coin {
    type V = CoinV;

    open spec fn view(&self) -> CoinV {
        CoinV { amount: self.amount as int, denom: self.denom@ }
    }
}

impl DeepView for Coin {
    type V = CoinV;

    open spec fn deep_view(&self) -> CoinV {
        self.view()
    }
}

impl Coin {
    pub fn new(amount: u128, denom: String) -> (r: Self)
        ensures
            r@.amount == amount as int,
            r@.denom == denom@,
    {
        Coin { amount, denom }
    }
}

/// View of a signer public key.
#[verifier::ext_equal]
pub ghost enum SignerKeyV {
    /// A secp256k1 key, as its 33-byte compressed SEC1 encoding.
    Secp256k1(Seq<u8>),
    /// An ed25519 key, as its 32 raw bytes.
    Ed25519(Seq<u8>),
    /// Any other key kind, as its opaque payload.
    Other(AnyMsgV),
}

/// A signer public key as it appeared in a transaction's auth info.
pub enum SignerKey {
    /// A secp256k1 key, as its 33-byte compressed SEC1 encoding.
    Secp256k1(Vec<u8>),
    /// An ed25519 key, as its 32 raw bytes.
    Ed25519(Vec<u8>),
    /// Any other key kind (multisig, unknown), as its opaque payload.
    Other(AnyMsg),
}

impl View for SignerKey {
    type V = SignerKeyV;

    open spec fn view(&self) -> SignerKeyV {
        match self {
            SignerKey::Secp256k1(k) => SignerKeyV::Secp256k1(k@),
            SignerKey::Ed25519(k) => SignerKeyV::Ed25519(k@),
            SignerKey::Other(a) => SignerKeyV::Other(a@),
        }
    }
}

impl DeepView for SignerKey {
    type V = SignerKeyV;

    open spec fn deep_view(&self) -> SignerKeyV {
        self.view()
    }
}

} // verus!
