use bitcoin::consensus::encode::deserialize;
use bitcoin::secp256k1::{ecdsa, Message, PublicKey, Secp256k1};
use bitcoin::sighash::SighashCache;
use p2pkh_tx::{
    calculate_fee, create_script_pub_key, create_transaction, derive_address_from_private_key_hex,
    generate_signature, serialize_transaction, ErrorKind, Transaction, TransactionInput, TransactionOutput, UTXO,
};

const KEY: &str = "1111111111111111111111111111111111111111111111111111111111111111";
const OTHER_KEY: &str = "0000000000000000000000000000000000000000000000000000000000000002";

fn own_utxo(value: u64) -> UTXO {
    let address = derive_address_from_private_key_hex(KEY).unwrap();
    UTXO {
        txid: "00".repeat(32),
        vout: 0,
        value,
        address: Some(address.clone()),
        script_pub_key: Some(create_script_pub_key(&address).unwrap()),
    }
}

fn target() -> String {
    derive_address_from_private_key_hex(OTHER_KEY).unwrap()
}

fn decode(hex_text: &str) -> bitcoin::Transaction {
    deserialize(&hex::decode(hex_text).unwrap()).unwrap()
}

#[test]
fn fee_is_flat() {
    let tx = Transaction { version: 1, inputs: vec![], outputs: vec![], locktime: 0 };
    assert_eq!(calculate_fee(&tx), 1000);
}

#[test]
fn serialization_matches_reference() {
    let txid = "0102030405060708091011121314151617181920212223242526272829303132";
    let tx = Transaction {
        version: 2,
        inputs: vec![TransactionInput {
            txid: txid.to_string(),
            vout: 7,
            script_sig: "abcd".to_string(),
            sequence: 0xffff_fffe,
            script_pub_key: None,
        }],
        outputs: vec![TransactionOutput { address: target(), value: 12345 }],
        locktime: 99,
    };
    let hex_text = serialize_transaction(&tx).unwrap();
    let parsed = decode(&hex_text);
    assert_eq!(parsed.version.0, 2);
    assert_eq!(parsed.lock_time.to_consensus_u32(), 99);
    assert_eq!(parsed.input.len(), 1);
    assert_eq!(parsed.input[0].previous_output.txid.to_string(), txid);
    assert_eq!(parsed.input[0].previous_output.vout, 7);
    assert_eq!(hex::encode(parsed.input[0].script_sig.as_bytes()), "abcd");
    assert_eq!(parsed.input[0].sequence.0, 0xffff_fffe);
    assert_eq!(parsed.output.len(), 1);
    assert_eq!(parsed.output[0].value.to_sat(), 12345);
    let script = create_script_pub_key(&target()).unwrap();
    assert_eq!(hex::encode(parsed.output[0].script_pubkey.as_bytes()), script);
    assert!(hex_text.starts_with("02000000"));
    assert!(hex_text.ends_with("63000000"));
}

#[test]
fn serialization_rejects_malformed_fields() {
    let good_input = TransactionInput {
        txid: "00".repeat(32),
        vout: 0,
        script_sig: String::new(),
        sequence: 0,
        script_pub_key: None,
    };
    let mut short_txid = good_input.clone();
    short_txid.txid = "00".repeat(31);
    let mut bad_script = good_input.clone();
    bad_script.script_sig = "0".to_string();
    for input in [short_txid, bad_script] {
        let tx = Transaction { version: 1, inputs: vec![input], outputs: vec![], locktime: 0 };
        assert_eq!(serialize_transaction(&tx).unwrap_err().kind, ErrorKind::SerializationError);
    }
    let tx = Transaction {
        version: 1,
        inputs: vec![good_input],
        outputs: vec![TransactionOutput { address: "not an address".to_string(), value: 1 }],
        locktime: 0,
    };
    assert_eq!(serialize_transaction(&tx).unwrap_err().kind, ErrorKind::InvalidAddress);
}

#[test]
fn end_to_end_with_change() {
    let hex_text = create_transaction(vec![own_utxo(100_000)], &target(), 50_000, KEY).unwrap();
    let parsed = decode(&hex_text);
    assert_eq!(parsed.version.0, 1);
    assert_eq!(parsed.input.len(), 1);
    assert_eq!(parsed.output.len(), 2);
    assert_eq!(parsed.output[0].value.to_sat(), 50_000);
    assert_eq!(parsed.output[1].value.to_sat(), 49_000);
    assert_eq!(
        hex::encode(parsed.output[0].script_pubkey.as_bytes()),
        create_script_pub_key(&target()).unwrap()
    );
    assert_eq!(
        hex::encode(parsed.output[1].script_pubkey.as_bytes()),
        own_utxo(1).script_pub_key.unwrap()
    );
    assert_eq!(parsed.input[0].previous_output.vout, 0);
    assert_eq!(parsed.input[0].sequence.0, 0xffff_ffff);
    assert_eq!(parsed.lock_time.to_consensus_u32(), 0);
}

#[test]
fn end_to_end_insufficient_funds() {
    let err = create_transaction(vec![own_utxo(100_000)], &target(), 1_000_000, KEY).unwrap_err();
    assert_eq!(err.kind, ErrorKind::InsufficientFunds);
    let err = create_transaction(vec![own_utxo(100_000)], &target(), 99_001, KEY).unwrap_err();
    assert_eq!(err.kind, ErrorKind::InsufficientFunds);
}

#[test]
fn surplus_at_dust_limit_gets_no_change_output() {
    let hex_text = create_transaction(vec![own_utxo(100_000)], &target(), 98_454, KEY).unwrap();
    assert_eq!(decode(&hex_text).output.len(), 1);
    let hex_text = create_transaction(vec![own_utxo(100_000)], &target(), 98_453, KEY).unwrap();
    let parsed = decode(&hex_text);
    assert_eq!(parsed.output.len(), 2);
    assert_eq!(parsed.output[1].value.to_sat(), 547);
    let hex_text = create_transaction(vec![own_utxo(100_000)], &target(), 99_000, KEY).unwrap();
    assert_eq!(decode(&hex_text).output.len(), 1);
}

#[test]
fn signatures_verify_against_reference_sighash() {
    let mut second = own_utxo(30_000);
    second.txid = "ab".repeat(32);
    second.vout = 3;
    let utxos = vec![own_utxo(100_000), second];
    let hex_text = create_transaction(utxos, &target(), 120_000, KEY).unwrap();
    let parsed = decode(&hex_text);
    assert_eq!(parsed.input.len(), 2);
    assert_eq!(parsed.output.len(), 2);
    assert_eq!(parsed.output[1].value.to_sat(), 9_000);
    let secp = Secp256k1::verification_only();
    let locking = bitcoin::ScriptBuf::from_bytes(
        hex::decode(own_utxo(1).script_pub_key.unwrap()).unwrap(),
    );
    let cache = SighashCache::new(&parsed);
    for index in 0..parsed.input.len() {
        let script_sig = parsed.input[index].script_sig.as_bytes();
        let sig_len = script_sig[0] as usize;
        let sig = &script_sig[1..1 + sig_len];
        let pk_len = script_sig[1 + sig_len] as usize;
        let pk = &script_sig[2 + sig_len..2 + sig_len + pk_len];
        assert_eq!(script_sig.len(), 2 + sig_len + pk_len);
        assert_eq!(sig[sig.len() - 1], 0x01);
        assert_eq!(pk.len(), 33);
        let sighash = cache.legacy_signature_hash(index, &locking, 1).unwrap();
        let message = Message::from_digest(bitcoin::hashes::Hash::to_byte_array(sighash));
        let signature = ecdsa::Signature::from_der(&sig[..sig.len() - 1]).unwrap();
        let public_key = PublicKey::from_slice(pk).unwrap();
        assert!(secp.verify_ecdsa(&message, &signature, &public_key).is_ok());
    }
}

#[test]
fn signing_is_deterministic() {
    let first = create_transaction(vec![own_utxo(100_000)], &target(), 50_000, KEY).unwrap();
    let second = create_transaction(vec![own_utxo(100_000)], &target(), 50_000, KEY).unwrap();
    assert_eq!(first, second);
}

#[test]
fn create_transaction_validates_arguments() {
    let kind = |r: Result<String, p2pkh_tx::TransactionError>| r.unwrap_err().kind;
    assert_eq!(kind(create_transaction(vec![], &target(), 1, KEY)), ErrorKind::InvalidInput);
    assert_eq!(kind(create_transaction(vec![own_utxo(5000)], &target(), 0, KEY)), ErrorKind::InvalidInput);
    assert_eq!(kind(create_transaction(vec![own_utxo(0)], &target(), 1, KEY)), ErrorKind::InvalidInput);
    assert_eq!(kind(create_transaction(vec![own_utxo(5000)], "bogus", 1, KEY)), ErrorKind::InvalidAddress);
    assert_eq!(kind(create_transaction(vec![own_utxo(5000)], &target(), 1, "00")), ErrorKind::InvalidPrivateKey);
    let mut bad_txid = own_utxo(5000);
    bad_txid.txid = "00".repeat(20);
    assert_eq!(kind(create_transaction(vec![bad_txid], &target(), 1, KEY)), ErrorKind::SerializationError);
    let mut no_script = own_utxo(5000);
    no_script.script_pub_key = None;
    assert_eq!(kind(create_transaction(vec![no_script], &target(), 1, KEY)), ErrorKind::SigningError);
    let mut bad_script = own_utxo(5000);
    bad_script.script_pub_key = Some("xyz".to_string());
    assert_eq!(kind(create_transaction(vec![bad_script], &target(), 1, KEY)), ErrorKind::SerializationError);
}

#[test]
fn change_too_large_for_an_output() {
    let utxos = vec![own_utxo(u64::MAX), own_utxo(u64::MAX)];
    let err = create_transaction(utxos, &target(), 1, KEY).unwrap_err();
    assert_eq!(err.kind, ErrorKind::EncodingError);
}

#[test]
fn error_messages() {
    let err = create_transaction(vec![], &target(), 1, KEY).unwrap_err();
    assert_eq!(err.message(), "invalid input");
}

#[test]
fn signing_a_missing_input_fails() {
    let secret = hex::decode(KEY).unwrap();
    let tx = Transaction {
        version: 1,
        inputs: vec![TransactionInput {
            txid: "00".repeat(32),
            vout: 0,
            script_sig: String::new(),
            sequence: 0xffff_ffff,
            script_pub_key: None,
        }],
        outputs: vec![TransactionOutput { address: target(), value: 1 }],
        locktime: 0,
    };
    assert_eq!(generate_signature(&secret, &tx, 1).unwrap_err().kind, ErrorKind::SigningError);
    assert_eq!(generate_signature(&secret, &tx, 0).unwrap_err().kind, ErrorKind::SigningError);
}
