use imbibe::decode::DecodedTx;
use imbibe::domain::{AnyMsg, SignerKey};
use imbibe::errors::{IndexerError, ProtosError};
use imbibe::normalize::resolve_payer;
use imbibe::registry::{
    find_signer_msgs, DescriptorPool, FieldDesc, FieldDescKind, FieldSpec, FieldSpecKind,
    MessageDesc, RegistryEntry, SignerRegistry,
};
use imbibe::signer::{signer_address, signer_key_from_any, signer_key_to_any};
use imbibe::wire::{decode_pubkey, encode_pubkey, parse_varint};

use k256::elliptic_curve::sec1::ToSec1Point;
use sha3::Digest;
use std::str::FromStr;

const BECH32_ADDR: &str = "cosmos19dyl0uyzes4k23lscla02n06fc22h4uqsdwq6z";

/// The compressed SEC1 encoding of the secp256k1 generator point.
fn generator_compressed() -> Vec<u8> {
    let mut k = vec![0x02u8];
    k.extend_from_slice(
        &const_decode_hex("79BE667EF9DCBBAC55A06295CE870B07029BFCDB2DCE28D959F2815B16F81798"),
    );
    k
}

fn const_decode_hex(s: &str) -> Vec<u8> {
    (0..s.len())
        .step_by(2)
        .map(|i| u8::from_str_radix(&s[i..i + 2], 16).unwrap())
        .collect()
}

fn string_field_message(value: &[u8]) -> Vec<u8> {
    let mut out = vec![0x0au8, value.len() as u8];
    out.extend_from_slice(value);
    out
}

fn decoded_tx_with(msgs: Vec<AnyMsg>, signer_keys: Vec<Option<AnyMsg>>) -> DecodedTx {
    DecodedTx {
        msgs,
        memo: String::new(),
        timeout_height: 0,
        signatures: Vec::new(),
        signer_keys,
        fee_amount: Vec::new(),
        gas_limit: 0,
        fee_payer: None,
        fee_granter: None,
    }
}

#[test]
fn varint_round_trip() {
    for n in [0u64, 1, 127, 128, 300, 65535, u64::MAX] {
        let mut buf: Vec<u8> = Vec::new();
        imbibe::wire::encode_varint_into(&mut buf, n);
        let (v, used) = parse_varint(&buf, 0).unwrap();
        assert_eq!(v, n);
        assert_eq!(used, buf.len());
    }
    assert!(parse_varint(&vec![0x80u8], 0).is_none());
}

#[test]
fn pubkey_message_round_trip() {
    for key in [Vec::new(), vec![7u8], vec![1u8; 33], vec![0xabu8; 200]] {
        let enc = encode_pubkey(&key);
        assert_eq!(decode_pubkey(&enc).unwrap(), key);
    }
    assert_eq!(encode_pubkey(&vec![7u8]), vec![0x0au8, 1, 7]);
    assert!(decode_pubkey(&vec![0x0au8, 5, 1]).is_none());
}

#[test]
fn signer_key_any_round_trip() {
    let secp = SignerKey::Secp256k1(generator_compressed());
    let ed = SignerKey::Ed25519(vec![9u8; 32]);
    let other = SignerKey::Other(AnyMsg::new(
        "/cosmos.crypto.multisig.LegacyAminoPubKey".to_string(),
        vec![1, 2, 3],
    ));
    for k in [secp, ed, other] {
        let any = signer_key_to_any(&k);
        let back = signer_key_from_any(any);
        match (&k, &back) {
            (SignerKey::Secp256k1(a), SignerKey::Secp256k1(b)) => assert_eq!(a, b),
            (SignerKey::Ed25519(a), SignerKey::Ed25519(b)) => assert_eq!(a, b),
            (SignerKey::Other(a), SignerKey::Other(b)) => {
                assert_eq!(a.type_url, b.type_url);
                assert_eq!(a.value, b.value);
            },
            _ => panic!("kind changed across the round trip"),
        }
    }
}

#[test]
fn secp_signer_key_classification_uses_canonical_urls() {
    let any = signer_key_to_any(&SignerKey::Secp256k1(vec![3u8; 33]));
    assert_eq!(any.type_url, "/cosmos.crypto.secp256k1.PubKey");
    let any_ed = signer_key_to_any(&SignerKey::Ed25519(vec![4u8; 32]));
    assert_eq!(any_ed.type_url, "/cosmos.crypto.ed25519.PubKey");
}

#[test]
fn payer_falls_back_to_first_message_signer() {
    let registry = SignerRegistry::new(vec![RegistryEntry {
        type_url: "/test.MsgSend".to_string(),
        fields: vec![FieldSpec { number: 1, kind: FieldSpecKind::Str }],
    }])
    .unwrap();
    let msg = AnyMsg::new(
        "/test.MsgSend".to_string(),
        string_field_message(BECH32_ADDR.as_bytes()),
    );
    let d = decoded_tx_with(vec![msg], Vec::new());
    let payer = resolve_payer(false, &registry, &d).unwrap();
    let expected = cosmrs::AccountId::from_str(BECH32_ADDR).unwrap().to_bytes();
    assert_eq!(payer.as_bytes().as_slice(), expected.as_slice());
}

#[test]
fn payer_fallback_skips_unknown_messages() {
    let registry = SignerRegistry::new(vec![RegistryEntry {
        type_url: "/test.MsgSend".to_string(),
        fields: vec![FieldSpec { number: 1, kind: FieldSpecKind::Str }],
    }])
    .unwrap();
    let unknown = AnyMsg::new("/test.Unknown".to_string(), Vec::new());
    let known = AnyMsg::new(
        "/test.MsgSend".to_string(),
        string_field_message(BECH32_ADDR.as_bytes()),
    );
    let d = decoded_tx_with(vec![unknown, known], Vec::new());
    assert!(resolve_payer(false, &registry, &d).is_ok());
}

#[test]
fn payer_fallback_rejects_invalid_bech32() {
    let registry = SignerRegistry::new(vec![RegistryEntry {
        type_url: "/test.MsgSend".to_string(),
        fields: vec![FieldSpec { number: 1, kind: FieldSpecKind::Str }],
    }])
    .unwrap();
    let msg = AnyMsg::new(
        "/test.MsgSend".to_string(),
        string_field_message(b"not-a-bech32-address"),
    );
    let d = decoded_tx_with(vec![msg], Vec::new());
    let r = resolve_payer(false, &registry, &d);
    assert!(matches!(r, Err(IndexerError::Bech32Address(_))));
}

#[test]
fn payer_requires_some_signer_source() {
    let registry = SignerRegistry::new(Vec::new()).unwrap();
    let d = decoded_tx_with(
        vec![AnyMsg::new("/test.Unknown".to_string(), Vec::new())],
        Vec::new(),
    );
    let r = resolve_payer(false, &registry, &d);
    assert!(matches!(r, Err(IndexerError::Signer(_))));

    let d2 = decoded_tx_with(
        vec![AnyMsg::new("/test.Unknown".to_string(), Vec::new())],
        vec![None],
    );
    let r2 = resolve_payer(false, &registry, &d2);
    assert!(matches!(r2, Err(IndexerError::Signer(_))));
}

#[test]
fn nested_message_signers_are_extracted_in_order() {
    let registry = SignerRegistry::new(vec![
        RegistryEntry {
            type_url: "/test.Inner".to_string(),
            fields: vec![FieldSpec { number: 1, kind: FieldSpecKind::Str }],
        },
        RegistryEntry {
            type_url: "/test.Outer".to_string(),
            fields: vec![FieldSpec { number: 2, kind: FieldSpecKind::Msg(0) }],
        },
    ])
    .unwrap();
    let inner = string_field_message(b"addr-one");
    let mut outer = vec![0x12u8, inner.len() as u8];
    outer.extend_from_slice(&inner);
    let inner2 = string_field_message(b"addr-two");
    outer.push(0x12);
    outer.push(inner2.len() as u8);
    outer.extend_from_slice(&inner2);

    let signers = registry
        .signers_from_any_msg(&AnyMsg::new("/test.Outer".to_string(), outer))
        .unwrap();
    assert_eq!(signers, vec![b"addr-one".to_vec(), b"addr-two".to_vec()]);

    let unknown = registry.signers_from_any_msg(&AnyMsg::new("/test.Nope".to_string(), Vec::new()));
    assert!(matches!(unknown, Err(ProtosError::NoSignerInMsg)));
}

#[test]
fn forward_registry_references_are_rejected() {
    let r = SignerRegistry::new(vec![RegistryEntry {
        type_url: "/test.Outer".to_string(),
        fields: vec![FieldSpec { number: 2, kind: FieldSpecKind::Msg(0) }],
    }]);
    assert!(r.is_none());
}

#[test]
fn ethereum_key_payer_matches_keccak_derivation() {
    let compressed = generator_compressed();
    let key = SignerKey::Other(AnyMsg::new(
        "/ethermint.crypto.v1.ethsecp256k1.PubKey".to_string(),
        encode_pubkey(&compressed),
    ));
    let addr = signer_address(true, &key).unwrap();

    let point = k256::PublicKey::from_sec1_bytes(&compressed)
        .unwrap()
        .to_sec1_point(false);
    let digest = sha3::Keccak256::digest(&point.as_bytes()[1..]);
    assert_eq!(addr.as_bytes().as_slice(), &digest[12..]);

    let known = const_decode_hex("7E5F4552091A69125d5DfCb7b8C2659029395Bdf");
    assert_eq!(addr.as_bytes().as_slice(), known.as_slice());
}

#[test]
fn unsupported_keys_are_rejected() {
    let multisig = SignerKey::Other(AnyMsg::new(
        "/cosmos.crypto.multisig.LegacyAminoPubKey".to_string(),
        vec![1, 2, 3],
    ));
    assert!(matches!(
        signer_address(true, &multisig),
        Err(IndexerError::UnsupportedPublicKey)
    ));
    let eth = SignerKey::Other(AnyMsg::new(
        "/ethermint.crypto.v1.ethsecp256k1.PubKey".to_string(),
        encode_pubkey(&generator_compressed()),
    ));
    assert!(matches!(
        signer_address(false, &eth),
        Err(IndexerError::UnsupportedPublicKey)
    ));
    let registry = SignerRegistry::new(Vec::new()).unwrap();
    let d = decoded_tx_with(
        vec![AnyMsg::new("/test.Unknown".to_string(), Vec::new())],
        vec![Some(AnyMsg::new(
            "/cosmos.crypto.multisig.LegacyAminoPubKey".to_string(),
            vec![1, 2, 3],
        ))],
    );
    assert!(matches!(
        resolve_payer(true, &registry, &d),
        Err(IndexerError::UnsupportedPublicKey)
    ));
}

#[test]
fn ed25519_key_derives_truncated_digest() {
    let key_bytes = vec![11u8; 32];
    let addr = signer_address(false, &SignerKey::Ed25519(key_bytes.clone())).unwrap();
    let digest = sha2::Sha256::digest(&key_bytes);
    assert_eq!(addr.as_bytes().as_slice(), &digest[..20]);
}

#[test]
fn secp_key_derives_standard_account_id() {
    let compressed = generator_compressed();
    let addr = signer_address(false, &SignerKey::Secp256k1(compressed.clone())).unwrap();
    let tm_pk = tendermint::PublicKey::from_raw_secp256k1(&compressed).unwrap();
    let pk = cosmrs::crypto::PublicKey::from(tm_pk);
    let expected = pk.account_id("cosmos").unwrap().to_bytes();
    assert_eq!(addr.as_bytes().as_slice(), expected.as_slice());
}

fn str_field(name: &str, number: u64) -> FieldDesc {
    FieldDesc { name: name.to_string(), number, kind: FieldDescKind::Str }
}

#[test]
fn registry_validation_follows_the_descriptor_pool() {
    let pool = DescriptorPool::new(vec![
        MessageDesc {
            type_url: "/test.Inner".to_string(),
            signer_fields: Some(vec!["owner".to_string()]),
            fields: vec![str_field("owner", 1)],
        },
        MessageDesc {
            type_url: "/test.Outer".to_string(),
            signer_fields: Some(vec!["inner".to_string(), "addr".to_string()]),
            fields: vec![
                FieldDesc {
                    name: "inner".to_string(),
                    number: 2,
                    kind: FieldDescKind::Message(0),
                },
                str_field("addr", 3),
            ],
        },
        MessageDesc {
            type_url: "/test.NoOption".to_string(),
            signer_fields: None,
            fields: vec![str_field("x", 1)],
        },
        MessageDesc {
            type_url: "/test.EmptyOption".to_string(),
            signer_fields: Some(Vec::new()),
            fields: Vec::new(),
        },
        MessageDesc {
            type_url: "/test.OnlyBadKinds".to_string(),
            signer_fields: Some(vec!["n".to_string()]),
            fields: vec![FieldDesc {
                name: "n".to_string(),
                number: 4,
                kind: FieldDescKind::Other,
            }],
        },
    ])
    .unwrap();
    let registry = find_signer_msgs(&pool).unwrap();
    let entries = registry.entries();
    assert_eq!(entries.len(), 2);
    assert_eq!(entries[0].type_url, "/test.Inner");
    assert_eq!(entries[1].type_url, "/test.Outer");
    assert_eq!(entries[1].fields.len(), 2);
    assert!(matches!(entries[1].fields[0].kind, FieldSpecKind::Msg(0)));
    assert!(matches!(entries[1].fields[1].kind, FieldSpecKind::Str));

    let inner = string_field_message(b"addr-nested");
    let mut outer = vec![0x12u8, inner.len() as u8];
    outer.extend_from_slice(&inner);
    outer.push(0x1a);
    outer.push(4);
    outer.extend_from_slice(b"addr");
    let signers = registry
        .signers_from_any_msg(&AnyMsg::new("/test.Outer".to_string(), outer))
        .unwrap();
    assert_eq!(signers, vec![b"addr-nested".to_vec(), b"addr".to_vec()]);
}

#[test]
fn registry_validation_rejects_a_missing_field() {
    let pool = DescriptorPool::new(vec![MessageDesc {
        type_url: "/test.Broken".to_string(),
        signer_fields: Some(vec!["missing".to_string()]),
        fields: vec![str_field("present", 1)],
    }])
    .unwrap();
    assert!(matches!(
        find_signer_msgs(&pool),
        Err(imbibe::errors::RegistryError::FieldNotFound)
    ));
}

#[test]
fn cyclic_pools_are_unrepresentable() {
    let r = DescriptorPool::new(vec![
        MessageDesc {
            type_url: "/test.A".to_string(),
            signer_fields: Some(vec!["b".to_string()]),
            fields: vec![FieldDesc {
                name: "b".to_string(),
                number: 1,
                kind: FieldDescKind::Message(1),
            }],
        },
        MessageDesc {
            type_url: "/test.B".to_string(),
            signer_fields: Some(vec!["a".to_string()]),
            fields: vec![FieldDesc {
                name: "a".to_string(),
                number: 1,
                kind: FieldDescKind::Message(0),
            }],
        },
    ]);
    assert!(r.is_none());
}

#[test]
fn non_registering_nested_fields_are_dropped() {
    let pool = DescriptorPool::new(vec![
        MessageDesc {
            type_url: "/test.Plain".to_string(),
            signer_fields: None,
            fields: vec![str_field("x", 1)],
        },
        MessageDesc {
            type_url: "/test.User".to_string(),
            signer_fields: Some(vec!["p".to_string(), "me".to_string()]),
            fields: vec![
                FieldDesc {
                    name: "p".to_string(),
                    number: 1,
                    kind: FieldDescKind::Message(0),
                },
                str_field("me", 2),
            ],
        },
    ])
    .unwrap();
    let registry = find_signer_msgs(&pool).unwrap();
    let entries = registry.entries();
    assert_eq!(entries.len(), 1);
    assert_eq!(entries[0].type_url, "/test.User");
    assert_eq!(entries[0].fields.len(), 1);
    assert_eq!(entries[0].fields[0].number, 2);
    assert!(matches!(entries[0].fields[0].kind, FieldSpecKind::Str));
}

#[test]
fn descriptor_pool_rejects_out_of_range_references() {
    let r = DescriptorPool::new(vec![MessageDesc {
        type_url: "/test.A".to_string(),
        signer_fields: None,
        fields: vec![FieldDesc {
            name: "x".to_string(),
            number: 1,
            kind: FieldDescKind::Message(5),
        }],
    }]);
    assert!(r.is_none());
}
