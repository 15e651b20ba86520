use bitcoin::secp256k1::Secp256k1;
use p2pkh_tx::{
    create_script_pub_key, create_script_sig, derive_address_from_private_key_hex, ErrorKind,
};

const KEY_ONE: &str = "0000000000000000000000000000000000000000000000000000000000000001";

fn reference_testnet_address(key_hex: &str) -> String {
    let secp = Secp256k1::new();
    let bytes = hex::decode(key_hex).unwrap();
    let key = bitcoin::PrivateKey::from_slice(&bytes, bitcoin::Network::Testnet).unwrap();
    let public = key.public_key(&secp);
    bitcoin::Address::p2pkh(public.pubkey_hash(), bitcoin::Network::Testnet).to_string()
}

#[test]
fn derived_address_of_key_one() {
    let address = derive_address_from_private_key_hex(KEY_ONE).unwrap();
    assert_eq!(address, "mrCDrCybB6J1vRfbwM5hemdJz73FwDBC8r");
    assert_eq!(address, reference_testnet_address(KEY_ONE));
}

#[test]
fn derived_address_matches_reference() {
    let key = "1111111111111111111111111111111111111111111111111111111111111111";
    assert_eq!(derive_address_from_private_key_hex(key).unwrap(), reference_testnet_address(key));
}

#[test]
fn derive_address_rejects_bad_keys() {
    let zero = "0000000000000000000000000000000000000000000000000000000000000000";
    let order = "fffffffffffffffffffffffffffffffebaaedce6af48a03bbfd25e8cd0364141";
    for key in [zero, order, "0001", "zz", "123"] {
        let err = derive_address_from_private_key_hex(key).unwrap_err();
        assert_eq!(err.kind, ErrorKind::InvalidPrivateKey);
    }
    let below_order = "fffffffffffffffffffffffffffffffebaaedce6af48a03bbfd25e8cd0364140";
    assert!(derive_address_from_private_key_hex(below_order).is_ok());
}

#[test]
fn script_pub_key_of_testnet_address() {
    let script = create_script_pub_key("mrCDrCybB6J1vRfbwM5hemdJz73FwDBC8r").unwrap();
    assert!(script.starts_with("76a914"));
    assert!(script.ends_with("88ac"));
    assert_eq!(script.len(), 2 * (3 + 20 + 2));
    assert_eq!(script, "76a914751e76e8199196d454941c45d1b3a323f1433bd688ac");
}

#[test]
fn script_pub_key_of_mainnet_address() {
    let script = create_script_pub_key("1BgGZ9tcN4rm9KBzDn7KprQz87SZ26SAMH").unwrap();
    assert_eq!(script, "76a914751e76e8199196d454941c45d1b3a323f1433bd688ac");
}

#[test]
fn script_pub_key_matches_reference() {
    let address = reference_testnet_address(KEY_ONE);
    let parsed: bitcoin::Address<bitcoin::address::NetworkUnchecked> = address.parse().unwrap();
    let expected = parsed.assume_checked().script_pubkey();
    assert_eq!(create_script_pub_key(&address).unwrap(), hex::encode(expected.as_bytes()));
}

#[test]
fn script_pub_key_rejects_corrupted_checksum() {
    let err = create_script_pub_key("mrCDrCybB6J1vRfbwM5hemdJz73FwDBC8s").unwrap_err();
    assert_eq!(err.kind, ErrorKind::InvalidAddress);
}

#[test]
fn script_pub_key_rejects_bad_text() {
    for address in ["", "0OIl", "mrCDrCybB6J1vRfbwM5hemdJz73FwDBC8", "2N8hwP1WmJrFF5QWABn38y63uYLhnJYJYTF"] {
        let err = create_script_pub_key(address).unwrap_err();
        assert_eq!(err.kind, ErrorKind::InvalidAddress);
    }
}

#[test]
fn script_sig_pushes_both_parts() {
    assert_eq!(create_script_sig("aabb", "ccddee").unwrap(), "02aabb03ccddee");
    assert_eq!(create_script_sig("", "").unwrap(), "0000");
}

#[test]
fn script_sig_rejects_bad_parts() {
    assert_eq!(create_script_sig("abc", "00").unwrap_err().kind, ErrorKind::EncodingError);
    assert_eq!(create_script_sig("00", "xy").unwrap_err().kind, ErrorKind::EncodingError);
    let long = "00".repeat(253);
    assert_eq!(create_script_sig(&long, "00").unwrap_err().kind, ErrorKind::EncodingError);
    let longest = "00".repeat(252);
    assert!(create_script_sig(&longest, "00").is_ok());
}
