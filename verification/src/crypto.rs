use vstd::prelude::*;

use base64::Engine;
use k256::elliptic_curve::sec1::ToSec1Point;
use sha2::Digest;

verus! {

/// The SHA-256 digest of a byte string.
pub uninterp spec fn sha256_of(s: Seq<u8>) -> Seq<u8>;

/// The Keccak-256 digest of a byte string.
pub uninterp spec fn keccak256_of(s: Seq<u8>) -> Seq<u8>;

/// The uncompressed SEC1 encoding of the secp256k1 point a byte string
/// encodes, when it encodes one.
pub uninterp spec fn sec1_uncompressed_of(s: Seq<u8>) -> Option<Seq<u8>>;

/// The standard Cosmos account identifier derived from a raw secp256k1
/// public key encoding, when the encoding is valid.
pub uninterp spec fn secp_account_id_of(s: Seq<u8>) -> Option<Seq<u8>>;

/// The data payload of a bech32 address string, when the string parses.
pub uninterp spec fn bech32_payload_of(s: Seq<u8>) -> Option<Seq<u8>>;

/// The bytes a standard-alphabet base64 text decodes to, when it is valid.
pub uninterp spec fn base64_decode_of(s: Seq<u8>) -> Option<Seq<u8>>;

/// Relies on sha2's SHA-256: the digest depends on the bytes alone and is
/// 32 bytes long.
#[verifier::external_body]
pub(crate) fn sha256(bytes: &Vec<u8>) -> (r: Vec<u8>)
    ensures
        r@ == sha256_of(bytes@),
        r@.len() == 32,
{
    sha2::Sha256::digest(bytes.as_slice()).to_vec()
}

/// Relies on sha3's Keccak-256: the digest depends on the bytes alone and
/// is 32 bytes long.
#[verifier::external_body]
pub(crate) fn keccak256(bytes: &Vec<u8>) -> (r: Vec<u8>)
    ensures
        r@ == keccak256_of(bytes@),
        r@.len() == 32,
{
    sha3::Keccak256::digest(bytes.as_slice()).to_vec()
}

/// Relies on k256's SEC1 point decoding: a valid encoding names one point,
/// whose uncompressed form is 65 bytes and starts with the uncompressed tag.
#[verifier::external_body]
pub(crate) fn sec1_uncompressed(key: &Vec<u8>) -> (r: Option<Vec<u8>>)
    ensures
        match sec1_uncompressed_of(key@) {
            Some(p) => r matches Some(v) && v@ == p && v@.len() == 65 && v@[0] == 4u8,
            None => r is None,
        },
{
    match k256::PublicKey::from_sec1_bytes(key.as_slice()) {
        Ok(pk) => Some(pk.to_sec1_point(false).as_bytes().to_vec()),
        Err(_) => None,
    }
}

/// Relies on tendermint's account identifier derivation for secp256k1 keys
/// (RIPEMD-160 of SHA-256 of the compressed point): the result depends on
/// the key bytes alone and is 20 bytes long.
#[verifier::external_body]
pub(crate) fn secp256k1_account_id(key: &Vec<u8>) -> (r: Option<Vec<u8>>)
    ensures
        match secp_account_id_of(key@) {
            Some(a) => r matches Some(v) && v@ == a && v@.len() == 20,
            None => r is None,
        },
{
    match tendermint::PublicKey::from_raw_secp256k1(key.as_slice()) {
        Some(pk) => Some(tendermint::account::Id::from(pk).as_bytes().to_vec()),
        None => None,
    }
}

/// Relies on cosmrs's bech32 account parsing: the payload depends on the
/// string alone and holds between 1 and 255 bytes.
#[verifier::external_body]
pub(crate) fn parse_bech32(s: &Vec<u8>) -> (r: Option<Vec<u8>>)
    ensures
        match bech32_payload_of(s@) {
            Some(p) => r matches Some(v) && v@ == p && 1 <= v@.len() <= 255,
            None => r is None,
        },
{
    match core::str::from_utf8(s.as_slice()) {
        Ok(text) => match text.parse::<cosmrs::AccountId>() {
            Ok(id) => Some(id.to_bytes()),
            Err(_) => None,
        },
        Err(_) => None,
    }
}

/// Relies on the base64 crate's standard-alphabet decoding: the result
/// depends on the text alone.
#[verifier::external_body]
pub(crate) fn base64_decode(s: &Vec<u8>) -> (r: Option<Vec<u8>>)
    ensures
        match base64_decode_of(s@) {
            Some(d) => r matches Some(v) && v@ == d,
            None => r is None,
        },
{
    match base64::engine::general_purpose::STANDARD.decode(s.as_slice()) {
        Ok(v) => Some(v),
        Err(_) => None,
    }
}

/// Derives the account bytes of an ed25519 public key: the SHA-256 digest
/// of the key, truncated to 20 bytes.
pub fn ed25519_account_id(key: &Vec<u8>) -> (r: Vec<u8>)
    ensures
        r@ == sha256_of(key@).subrange(0, 20),
        r@.len() == 20,
{
    let digest = sha256(key);
    crate::types::copy_range(&digest, 0, 20)
}

/// Derives the Ethereum-style address of an uncompressed SEC1 point: the
/// Keccak-256 digest of the point without its leading tag byte, truncated
/// to its last 20 bytes.
pub fn eth_address_from_uncompressed(point: &Vec<u8>) -> (r: Vec<u8>)
    requires
        point@.len() >= 1,
    ensures
        r@ == keccak256_of(point@.subrange(1, point@.len() as int)).subrange(12, 32),
        r@.len() == 20,
{
    let body = crate::types::copy_range(point, 1, point.len());
    let digest = keccak256(&body);
    crate::types::copy_range(&digest, 12, 32)
}

} // verus!
