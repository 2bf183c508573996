use base64::Engine;
use cosmrs::bank::MsgSend;
use cosmrs::proto::cosmos::tx::v1beta1::TxRaw;
use cosmrs::proto::traits::MessageExt;
use cosmrs::tx::{AuthInfo, Body, Fee, Msg, SignerInfo};
use cosmrs::{AccountId, Coin};
use sha2::Digest;
use std::str::FromStr;

use imbibe::errors::IndexerError;
use imbibe::normalize::{process_block, RawHeader, RawTxResult};
use imbibe::registry::SignerRegistry;
use imbibe::store::Store;
use imbibe::types::Sha256;

const RECIPIENT: &str = "cosmos19dyl0uyzes4k23lscla02n06fc22h4uqsdwq6z";

fn empty_registry() -> SignerRegistry {
    SignerRegistry::new(Vec::new()).unwrap()
}

fn header_at(height: u64) -> RawHeader {
    RawHeader {
        chain_id: "test-chain".to_string(),
        height,
        time_ns: 1_700_000_000_000_000_000,
        validators_hash: Some(vec![1u8; 32]),
        next_validators_hash: Some(vec![2u8; 32]),
        consensus_hash: Some(vec![3u8; 32]),
        app_hash: vec![4u8; 8],
        proposer_address: vec![5u8; 20],
        last_commit_hash: None,
        data_hash: None,
        last_results_hash: None,
        evidence_hash: None,
    }
}

struct TestTx {
    bytes: Vec<u8>,
    payer: Vec<u8>,
}

fn raw_send_tx(memo: &str, payer_is_fee: bool) -> TestTx {
    let sk1 = cosmrs::crypto::secp256k1::SigningKey::random();
    let pk1 = sk1.public_key();
    let sk2 = cosmrs::crypto::secp256k1::SigningKey::random();
    let pk2 = sk2.public_key();
    let from = pk1.account_id("cosmos").unwrap();
    let to = AccountId::from_str(RECIPIENT).unwrap();
    let amount = Coin { amount: 1u128, denom: "uatom".parse().unwrap() };
    let msg = MsgSend { from_address: from.clone(), to_address: to, amount: vec![amount] }
        .to_any()
        .unwrap();
    let body = Body::new(vec![msg], memo, 0u32);
    let fee = Fee {
        amount: vec![Coin { amount: 100u128, denom: "uatom".parse().unwrap() }],
        gas_limit: 200000,
        payer: if payer_is_fee { Some(from.clone()) } else { None },
        granter: None,
    };
    let auth = AuthInfo {
        signer_infos: vec![
            SignerInfo::single_direct(Some(pk1), 0),
            SignerInfo::single_direct(Some(pk2), 0),
        ],
        fee,
    };
    let sign_doc =
        cosmrs::tx::SignDoc::new(&body, &auth, &"test-chain".parse().unwrap(), 1).unwrap();
    let raw = TxRaw {
        body_bytes: sign_doc.body_bytes.clone(),
        auth_info_bytes: sign_doc.auth_info_bytes.clone(),
        signatures: vec![vec![1u8; 64], vec![2u8; 64]],
    };
    TestTx { bytes: raw.to_bytes().unwrap(), payer: from.to_bytes() }
}

fn plain_result(gas_used: i64) -> RawTxResult {
    RawTxResult {
        code: 0,
        data: Vec::new(),
        codespace: String::new(),
        gas_wanted: 50000,
        gas_used,
    }
}

#[test]
fn single_tx_block_with_fee() {
    let t = raw_send_tx("hello", false);
    let result = RawTxResult {
        code: 0,
        data: base64::engine::general_purpose::STANDARD
            .encode(b"abc")
            .into_bytes(),
        codespace: String::new(),
        gas_wanted: 50000,
        gas_used: 21000,
    };
    let (block, txs) = process_block(
        false,
        &empty_registry(),
        header_at(77),
        Some(vec![8u8; 32]),
        vec![t.bytes.clone()],
        vec![result],
    )
    .unwrap();
    assert_eq!(block.gas_used(), 21000);
    assert_eq!(txs.len(), 1);
    let tx = &txs[0];

    let expected_hash: Vec<u8> = sha2::Sha256::digest(&t.bytes).to_vec();
    assert_eq!(tx.tx_hash().get().as_slice(), expected_hash.as_slice());

    let fees = tx.fees().as_ref().unwrap().get();
    assert_eq!(fees.len(), 1);
    assert_eq!(fees[0].amount, 100);
    assert_eq!(fees[0].denom.as_str(), "uatom");

    assert_eq!(tx.payer().as_bytes().as_slice(), t.payer.as_slice());
    assert_eq!(tx.msgs().get().len(), 1);
    assert_eq!(tx.msgs().get()[0].type_url.as_str(), "/cosmos.bank.v1beta1.MsgSend");
    assert_eq!(tx.memo().as_ref().unwrap().get().as_str(), "hello");
    assert!(tx.timeout_height().is_none());
    assert_eq!(tx.signatures().len(), 2);
    assert_eq!(tx.signers().len(), 2);
    assert_eq!(tx.gas_limit(), 200000);
    assert_eq!(tx.gas_wanted(), 50000);
    assert_eq!(tx.gas_used(), 21000);
    assert_eq!(tx.data_bz().as_ref().unwrap().get().as_slice(), b"abc");
    assert_eq!(tx.tx_bz().get().as_slice(), t.bytes.as_slice());
}

#[test]
fn saved_tx_rows_round_trip_through_fetch() {
    let t = raw_send_tx("memo-x", false);
    let (block, txs) = process_block(
        false,
        &empty_registry(),
        header_at(50),
        Some(vec![8u8; 32]),
        vec![t.bytes.clone()],
        vec![plain_result(700)],
    )
    .unwrap();
    let mut store = Store::new();
    store.save_block_with_txs(&block, &txs).unwrap();

    let by_idx = store
        .fetch_tx_by_block_height_and_tx_idx_in_block(50, 0)
        .unwrap();
    assert_eq!(by_idx.block_height(), 50);
    assert_eq!(by_idx.tx_idx_in_block(), 0);
    assert_eq!(by_idx.tx_hash().get(), txs[0].tx_hash().get());
    assert_eq!(by_idx.memo().as_ref().unwrap().get(), "memo-x");
    assert_eq!(by_idx.signatures(), txs[0].signatures());
    assert_eq!(by_idx.msgs().get().len(), 1);
    assert_eq!(by_idx.payer().as_bytes(), txs[0].payer().as_bytes());
    assert_eq!(by_idx.gas_used(), 700);
    assert_eq!(by_idx.signers().len(), 2);

    let hash = Sha256::new(txs[0].tx_hash().get().clone());
    let by_hash = store.fetch_tx_by_tx_hash(&hash).unwrap();
    assert_eq!(by_hash.tx_bz().get().as_slice(), t.bytes.as_slice());
    let fees = by_hash.fees().as_ref().unwrap().get();
    assert_eq!(fees.len(), 1);
    assert_eq!(fees[0].amount, 100);
    assert_eq!(fees[0].denom.as_str(), "uatom");

    assert!(matches!(
        store.fetch_tx_by_block_height_and_tx_idx_in_block(50, 1),
        Err(imbibe::errors::StoreError::NotFound)
    ));

    let fetched_block = store.fetch_block_by_height(50).unwrap();
    assert_eq!(fetched_block.data().len(), 1);
    assert_eq!(
        fetched_block.data().get()[0].get().as_slice(),
        t.bytes.as_slice()
    );
}

#[test]
fn gas_sum_overflow_is_rejected() {
    let t = raw_send_tx("", false);
    let results = vec![
        plain_result(i64::MAX),
        plain_result(i64::MAX),
        plain_result(i64::MAX),
    ];
    let data = vec![t.bytes.clone(), t.bytes.clone(), t.bytes.clone()];
    let r = process_block(
        false,
        &empty_registry(),
        header_at(5),
        Some(vec![8u8; 32]),
        data,
        results,
    );
    assert!(matches!(r, Err(IndexerError::Gas)));
}

#[test]
fn negative_gas_is_rejected() {
    let t = raw_send_tx("", false);
    let mut res = plain_result(10);
    res.gas_wanted = -1;
    let r = process_block(
        false,
        &empty_registry(),
        header_at(5),
        Some(vec![8u8; 32]),
        vec![t.bytes.clone()],
        vec![res],
    );
    assert!(matches!(r, Err(IndexerError::Gas)));
}

#[test]
fn invalid_base64_data_is_rejected() {
    let t = raw_send_tx("", false);
    let mut res = plain_result(10);
    res.data = b"!!!not-base64!!!".to_vec();
    let r = process_block(
        false,
        &empty_registry(),
        header_at(5),
        Some(vec![8u8; 32]),
        vec![t.bytes.clone()],
        vec![res],
    );
    assert!(matches!(r, Err(IndexerError::TxDataDecodeError)));
}

#[test]
fn message_free_tx_is_rejected() {
    let sk = cosmrs::crypto::secp256k1::SigningKey::random();
    let pk = sk.public_key();
    let from = pk.account_id("cosmos").unwrap();
    let body = Body::new(Vec::new(), "only-a-memo", 0u32);
    let fee = Fee {
        amount: Vec::new(),
        gas_limit: 1,
        payer: Some(from),
        granter: None,
    };
    let auth = AuthInfo { signer_infos: Vec::new(), fee };
    let sign_doc =
        cosmrs::tx::SignDoc::new(&body, &auth, &"test-chain".parse().unwrap(), 1).unwrap();
    let raw = TxRaw {
        body_bytes: sign_doc.body_bytes.clone(),
        auth_info_bytes: sign_doc.auth_info_bytes.clone(),
        signatures: Vec::new(),
    };
    let bytes = raw.to_bytes().unwrap();
    let r = process_block(
        false,
        &empty_registry(),
        header_at(5),
        Some(vec![8u8; 32]),
        vec![bytes],
        vec![plain_result(0)],
    );
    match r {
        Err(e) => assert!(matches!(e, IndexerError::TxMsgsMissing), "got {:?}", e),
        Ok(_) => panic!("a message-free transaction must be rejected"),
    }
}

#[test]
fn explicit_fee_payer_wins() {
    let t = raw_send_tx("", true);
    let (_, txs) = process_block(
        false,
        &empty_registry(),
        header_at(6),
        Some(vec![8u8; 32]),
        vec![t.bytes.clone()],
        vec![plain_result(1)],
    )
    .unwrap();
    assert_eq!(txs[0].payer().as_bytes().as_slice(), t.payer.as_slice());
}

#[test]
fn flat_record_lists_carry_dense_indices() {
    let t = raw_send_tx("memo-y", false);
    let (_, txs) = process_block(
        false,
        &empty_registry(),
        header_at(8),
        Some(vec![8u8; 32]),
        vec![t.bytes.clone(), t.bytes.clone()],
        vec![plain_result(1), plain_result(2)],
    )
    .unwrap();
    let (tx_rows, sig_rows, fee_rows, msg_rows) =
        Store::process_new_records_from_txs(&txs).unwrap();
    assert_eq!(tx_rows.len(), 2);
    assert_eq!(tx_rows[0].tx_idx_in_block, 0);
    assert_eq!(tx_rows[1].tx_idx_in_block, 1);
    assert_eq!(sig_rows.len(), 4);
    let sig_idx: Vec<i64> = sig_rows.iter().map(|r| r.signature_idx_in_tx).collect();
    assert_eq!(sig_idx, vec![0, 1, 0, 1]);
    assert_eq!(fee_rows.len(), 2);
    assert_eq!(fee_rows[0].fee_idx_in_tx, 0);
    assert_eq!(fee_rows[0].amount, 100);
    assert_eq!(fee_rows[0].denom, "uatom");
    assert_eq!(msg_rows.len(), 2);
    assert_eq!(msg_rows[0].msg_idx_in_tx, 0);
    assert_eq!(msg_rows[1].block_height, 8);
    assert_eq!(msg_rows[1].tx_idx_in_block, 1);
}

#[test]
fn malformed_stored_signer_is_rejected_on_read() {
    let t = raw_send_tx("", false);
    let (_, txs) = process_block(
        false,
        &empty_registry(),
        header_at(4),
        Some(vec![8u8; 32]),
        vec![t.bytes.clone()],
        vec![plain_result(1)],
    )
    .unwrap();
    let mut rec = imbibe::record::tx_records(&txs[0]).unwrap();
    assert!(imbibe::record::tx_from_record(&rec).is_ok());
    rec.tx.signers[0] = imbibe::domain::AnyMsg::new(
        "/cosmos.crypto.secp256k1.PubKey".to_string(),
        vec![0x0a, 5, 1],
    );
    let r = imbibe::record::tx_from_record(&rec);
    assert!(matches!(
        r,
        Err(imbibe::errors::InvalidValueError::SignerEncoding)
    ));
}
