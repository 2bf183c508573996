use vstd::prelude::*;

use crate::crypto::{
    eth_address_from_uncompressed, keccak256_of, sec1_uncompressed, sec1_uncompressed_of,
    secp256k1_account_id, secp_account_id_of, sha256_of,
};
use crate::domain::{AnyMsg, AnyMsgV, SignerKey, SignerKeyV};
use crate::errors::IndexerError;
use crate::types::Address;
use crate::wire::{
    decode_pubkey, encode_pubkey, lemma_pubkey_round_trip, lemma_wire_fields_payload_len,
    pubkey_dec, pubkey_enc, VARINT_LIMIT,
};

verus! {

/// The canonical type URL of a secp256k1 public key.
pub open spec fn secp256k1_type_url() -> Seq<char> {
    "/cosmos.crypto.secp256k1.PubKey"@
}

/// The canonical type URL of an ed25519 public key.
pub open spec fn ed25519_type_url() -> Seq<char> {
    "/cosmos.crypto.ed25519.PubKey"@
}

/// The canonical type URL of an Ethereum-style secp256k1 public key.
pub open spec fn eth_secp256k1_type_url() -> Seq<char> {
    "/ethermint.crypto.v1.ethsecp256k1.PubKey"@
}

/// Classifies a canonical opaque key payload into a signer key: the two
/// single-curve kinds are recognized by their type URL and their decoded
/// key field; everything else stays opaque.
pub open spec fn classify_signer_any(a: AnyMsgV) -> SignerKeyV {
    if a.type_url == secp256k1_type_url() {
        match pubkey_dec(a.value) {
            Some(k) => SignerKeyV::Secp256k1(k),
            None => SignerKeyV::Other(a),
        }
    } else if a.type_url == ed25519_type_url() {
        match pubkey_dec(a.value) {
            Some(k) => SignerKeyV::Ed25519(k),
            None => SignerKeyV::Other(a),
        }
    } else {
        SignerKeyV::Other(a)
    }
}

/// The canonical opaque payload of a signer key: single-curve keys encode
/// their key field under their type URL; opaque keys pass through.
pub open spec fn signer_any_of(k: SignerKeyV) -> AnyMsgV {
    match k {
        SignerKeyV::Secp256k1(b) => AnyMsgV {
            type_url: secp256k1_type_url(),
            value: pubkey_enc(b),
        },
        SignerKeyV::Ed25519(b) => AnyMsgV { type_url: ed25519_type_url(), value: pubkey_enc(b) },
        SignerKeyV::Other(a) => a,
    }
}

/// A signer key survives the canonical encoding: its key field fits the
/// length limit, and an opaque key is one that classification leaves
/// opaque.
pub open spec fn signer_key_canonical(k: SignerKeyV) -> bool {
    match k {
        SignerKeyV::Secp256k1(b) => b.len() < VARINT_LIMIT,
        SignerKeyV::Ed25519(b) => b.len() < VARINT_LIMIT,
        SignerKeyV::Other(a) => classify_signer_any(a) == SignerKeyV::Other(a),
    }
}

/// Classifying the canonical payload of a canonical signer key gives the
/// key back.
pub proof fn lemma_signer_key_round_trip(k: SignerKeyV)
    requires
        signer_key_canonical(k),
    ensures
        classify_signer_any(signer_any_of(k)) == k,
{
    match k {
        SignerKeyV::Secp256k1(b) => {
            lemma_pubkey_round_trip(b);
        },
        SignerKeyV::Ed25519(b) => {
            lemma_pubkey_round_trip(b);
            reveal_strlit("/cosmos.crypto.secp256k1.PubKey");
            reveal_strlit("/cosmos.crypto.ed25519.PubKey");
            assert(secp256k1_type_url().len() == 31);
            assert(ed25519_type_url().len() == 29);
            assert(ed25519_type_url() != secp256k1_type_url());
        },
        SignerKeyV::Other(_) => {},
    }
}

/// Classification yields canonical keys for payloads within the length
/// limit.
pub proof fn lemma_classify_canonical(a: AnyMsgV)
    requires
        a.value.len() < VARINT_LIMIT,
    ensures
        signer_key_canonical(classify_signer_any(a)),
{
    lemma_wire_fields_payload_len(a.value, 1);
}

/// Classifies a canonical opaque key payload into a signer key.
pub fn signer_key_from_any(a: AnyMsg) -> (k: SignerKey)
    ensures
        k@ == classify_signer_any(a@),
{
    let secp_url: String = "/cosmos.crypto.secp256k1.PubKey".to_owned();
    let ed_url: String = "/cosmos.crypto.ed25519.PubKey".to_owned();
    if a.type_url == secp_url {
        match decode_pubkey(&a.value) {
            Some(key) => SignerKey::Secp256k1(key),
            None => SignerKey::Other(a),
        }
    } else if a.type_url == ed_url {
        match decode_pubkey(&a.value) {
            Some(key) => SignerKey::Ed25519(key),
            None => SignerKey::Other(a),
        }
    } else {
        SignerKey::Other(a)
    }
}

/// Produces the canonical opaque payload of a signer key.
pub fn signer_key_to_any(k: &SignerKey) -> (a: AnyMsg)
    ensures
        a@ == signer_any_of(k@),
{
    match k {
        SignerKey::Secp256k1(b) => AnyMsg::new(
            "/cosmos.crypto.secp256k1.PubKey".to_owned(),
            encode_pubkey(b),
        ),
        SignerKey::Ed25519(b) => AnyMsg::new(
            "/cosmos.crypto.ed25519.PubKey".to_owned(),
            encode_pubkey(b),
        ),
        SignerKey::Other(any) => any.clone_any(),
    }
}

/// Derives the 20-byte address of a signer public key, as the payer
/// cascade uses it: the standard account identifier for a secp256k1 key;
/// the truncated digest for an ed25519 key; the Keccak-based address for
/// an Ethereum-style key when that capability is enabled; and a failure
/// for every other kind.
pub fn signer_address(eth_enabled: bool, signer: &SignerKey) -> (r: Result<
    Address,
    IndexerError,
>)
    ensures
        match signer@ {
            SignerKeyV::Secp256k1(b) => match secp_account_id_of(b) {
                Some(id) => r matches Ok(a) && a@ == id,
                None => r matches Err(e) && e is UnsupportedPublicKey,
            },
            SignerKeyV::Ed25519(b) => r matches Ok(a) && a@ == sha256_of(b).subrange(0, 20),
            SignerKeyV::Other(any) => if eth_enabled && any.type_url == eth_secp256k1_type_url() {
                match pubkey_dec(any.value) {
                    Some(key) => match sec1_uncompressed_of(key) {
                        Some(p) => r matches Ok(a) && a@ == keccak256_of(
                            p.subrange(1, p.len() as int),
                        ).subrange(12, 32),
                        None => r matches Err(e) && e is Other,
                    },
                    None => r matches Err(e) && e is UnsupportedPublicKey,
                }
            } else {
                r matches Err(e) && e is UnsupportedPublicKey
            },
        },
{
    match signer {
        SignerKey::Secp256k1(b) => match secp256k1_account_id(b) {
            Some(id) => Ok(Address::new(id)),
            None => Err(IndexerError::UnsupportedPublicKey),
        },
        SignerKey::Ed25519(b) => Ok(Address::new(crate::crypto::ed25519_account_id(b))),
        SignerKey::Other(any) => {
            let eth_url: String = "/ethermint.crypto.v1.ethsecp256k1.PubKey".to_owned();
            if eth_enabled && any.type_url == eth_url {
                match decode_pubkey(&any.value) {
                    Some(key) => match sec1_uncompressed(&key) {
                        Some(point) => Ok(Address::new(eth_address_from_uncompressed(&point))),
                        None => Err(IndexerError::Other("invalid key".to_owned())),
                    },
                    None => Err(IndexerError::UnsupportedPublicKey),
                }
            } else {
                Err(IndexerError::UnsupportedPublicKey)
            }
        },
    }
}

} // verus!
