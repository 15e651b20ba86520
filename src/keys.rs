//! Secret keys, the public keys and addresses derived from them, and ECDSA
//! signatures.
use vstd::prelude::*;

use crate::codec::{from_hex, hex_decode, is_hex};
use crate::error::{ErrorKind, TransactionError};
use crate::hashing::{double_sha256, hash160, hash160_of};
use crate::script::{base58_encode, base58_of, checksum_of, TESTNET_VERSION};

verus! {

/// The value of a byte string read as a big-endian number.
pub open spec fn be_value(b: Seq<u8>) -> nat
    decreases b.len(),
{
    if b.len() == 0 {
        0
    } else {
        be_value(b.drop_last()) * 256 + b.last() as nat
    }
}

/// The order of the secp256k1 group, as 32 big-endian bytes.
pub open spec fn curve_order_bytes() -> Seq<u8> {
    seq![
        0xffu8, 0xff, 0xff, 0xff, 0xff, 0xff, 0xff, 0xff,
        0xff, 0xff, 0xff, 0xff, 0xff, 0xff, 0xff, 0xfe,
        0xba, 0xae, 0xdc, 0xe6, 0xaf, 0x48, 0xa0, 0x3b,
        0xbf, 0xd2, 0x5e, 0x8c, 0xd0, 0x36, 0x41, 0x41,
    ]
}

/// A usable secret key: 32 bytes whose big-endian value is neither zero nor
/// at or above the curve order.
pub open spec fn secret_key_in_range(b: Seq<u8>) -> bool {
    &&& b.len() == 32
    &&& be_value(b) > 0
    &&& be_value(b) < be_value(curve_order_bytes())
}

/// The 33-byte compressed public key of a secret key.
pub uninterp spec fn public_key_of(secret: Seq<u8>) -> Seq<u8>;

/// The DER encoding of the deterministic ECDSA signature of a digest.
pub uninterp spec fn ecdsa_signature_of(secret: Seq<u8>, digest: Seq<u8>) -> Seq<u8>;

/// A version byte, a key hash and the check bytes of the two.
pub open spec fn address_payload(version: u8, hash: Seq<u8>) -> Seq<u8> {
    seq![version] + hash + checksum_of(seq![version] + hash)
}

/// The test-network address that pays to the public key of a secret key.
pub open spec fn testnet_address_of(secret: Seq<u8>) -> Seq<char> {
    base58_of(address_payload(TESTNET_VERSION, hash160_of(public_key_of(secret))))
}

/// Relies on secp256k1::SecretKey::from_slice, which accepts exactly 32 bytes
/// whose big-endian value is neither zero nor at or above the curve order.
#[verifier::external_body]
fn secret_key_is_valid(b: &[u8]) -> (r: bool)
    ensures
        r == secret_key_in_range(b@),
{
    bitcoin::secp256k1::SecretKey::from_slice(b).is_ok()
}

/// Relies on secp256k1::PublicKey::from_secret_key and PublicKey::serialize:
/// the compressed public key, 33 bytes, of a secret key that
/// SecretKey::from_slice accepts.
#[verifier::external_body]
pub(crate) fn compressed_public_key(secret: &[u8]) -> (r: Vec<u8>)
    requires
        secret_key_in_range(secret@),
    ensures
        r@ == public_key_of(secret@),
        r@.len() == 33,
{
    let key = bitcoin::secp256k1::SecretKey::from_slice(secret).expect("checked secret key");
    let context = bitcoin::secp256k1::Secp256k1::signing_only();
    bitcoin::secp256k1::PublicKey::from_secret_key(&context, &key).serialize().to_vec()
}

/// Relies on secp256k1::Secp256k1::sign_ecdsa, whose nonce follows RFC 6979,
/// and ecdsa::Signature::serialize_der, whose output holds at most 72 bytes.
#[verifier::external_body]
pub(crate) fn sign_digest(secret: &[u8], digest: &[u8]) -> (r: Vec<u8>)
    requires
        secret_key_in_range(secret@),
        digest@.len() == 32,
    ensures
        r@ == ecdsa_signature_of(secret@, digest@),
        r@.len() <= 72,
{
    let key = bitcoin::secp256k1::SecretKey::from_slice(secret).expect("checked secret key");
    let message = bitcoin::secp256k1::Message::from_digest_slice(digest).expect("32-byte digest");
    let context = bitcoin::secp256k1::Secp256k1::signing_only();
    context.sign_ecdsa(&message, &key).serialize_der().to_vec()
}

/// The secret key that hex text stands for. Fails with an invalid-private-key
/// error on malformed hex, a length other than 32 bytes, or a value outside
/// the curve's range.
pub fn parse_private_key(private_key_hex: &str) -> (r: Result<Vec<u8>, TransactionError>)
    ensures
        r is Ok <==> is_hex(private_key_hex@) && secret_key_in_range(hex_decode(private_key_hex@)),
        r matches Ok(k) ==> k@ == hex_decode(private_key_hex@),
        r matches Err(e) ==> e.kind == ErrorKind::InvalidPrivateKey,
{
    match from_hex(private_key_hex) {
        None => Err(TransactionError::new(ErrorKind::InvalidPrivateKey)),
        Some(b) => {
            if secret_key_is_valid(b.as_slice()) {
                Ok(b)
            } else {
                Err(TransactionError::new(ErrorKind::InvalidPrivateKey))
            }
        },
    }
}

/// The test-network address of a secret key: base58 of the version byte, the
/// hash160 of the compressed public key, and their check bytes.
pub fn derive_address(secret: &[u8]) -> (r: String)
    requires
        secret_key_in_range(secret@),
    ensures
        r@ == testnet_address_of(secret@),
{
    let public_key = compressed_public_key(secret);
    let hash = hash160(public_key.as_slice());
    let mut payload: Vec<u8> = Vec::new();
    payload.push(TESTNET_VERSION);
    crate::codec::append_bytes(&mut payload, hash.as_slice());
    let ghost versioned = payload@;
    let digest = double_sha256(payload.as_slice());
    let mut k: usize = 0;
    while k < 4
        invariant
            digest@.len() == 32,
            0 <= k <= 4,
            payload@ == versioned + digest@.subrange(0, k as int),
        decreases 4 - k,
    {
        payload.push(digest[k]);
        k = k + 1;
        assert(payload@ =~= versioned + digest@.subrange(0, k as int));
    }
    assert(versioned =~= seq![TESTNET_VERSION] + hash160_of(public_key_of(secret@)));
    assert(payload@ =~= address_payload(TESTNET_VERSION, hash160_of(public_key_of(secret@))));
    base58_encode(payload.as_slice())
}

/// The test-network address of a hex-encoded secret key. Fails as
/// `parse_private_key` does.
pub fn derive_address_from_private_key_hex(private_key_hex: &str) -> (r: Result<
    String,
    TransactionError,
>)
    ensures
        r is Ok <==> is_hex(private_key_hex@) && secret_key_in_range(hex_decode(private_key_hex@)),
        r matches Ok(a) ==> a@ == testnet_address_of(hex_decode(private_key_hex@)),
        r matches Err(e) ==> e.kind == ErrorKind::InvalidPrivateKey,
{
    let secret = parse_private_key(private_key_hex)?;
    Ok(derive_address(secret.as_slice()))
}

} // verus!
