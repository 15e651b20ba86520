//! Base58check addresses and the pay-to-public-key-hash scripts built from them.
use vstd::prelude::*;

use crate::codec::{from_hex, hex_decode, hex_of, is_hex, to_hex};
use crate::error::{ErrorKind, TransactionError};
use crate::hashing::{double_sha256, double_sha256_of};

verus! {

/// Version byte of a main-network pay-to-public-key-hash address.
pub const MAINNET_VERSION: u8 = 0x00;

/// Version byte of a test-network pay-to-public-key-hash address.
pub const TESTNET_VERSION: u8 = 0x6f;

/// Script opcodes used by pay-to-public-key-hash.
pub const OP_DUP: u8 = 0x76;
pub const OP_HASH160: u8 = 0xa9;
pub const OP_EQUALVERIFY: u8 = 0x88;
pub const OP_CHECKSIG: u8 = 0xac;

/// A character of the base58 alphabet.
pub open spec fn is_base58_char(c: char) -> bool {
    ||| ('1' <= c && c <= '9')
    ||| ('A' <= c && c <= 'H')
    ||| ('J' <= c && c <= 'N')
    ||| ('P' <= c && c <= 'Z')
    ||| ('a' <= c && c <= 'k')
    ||| ('m' <= c && c <= 'z')
}

pub open spec fn is_base58(s: Seq<char>) -> bool {
    forall|i: int| 0 <= i < s.len() ==> is_base58_char(#[trigger] s[i])
}

/// The bytes that base58 text stands for.
pub uninterp spec fn base58_decoded(s: Seq<char>) -> Seq<u8>;

/// The base58 text of a byte string.
pub uninterp spec fn base58_of(b: Seq<u8>) -> Seq<char>;

/// The four check bytes that base58check appends to a payload.
pub open spec fn checksum_of(payload: Seq<u8>) -> Seq<u8> {
    double_sha256_of(payload).subrange(0, 4)
}

/// A decoded pay-to-public-key-hash address: a supported version byte, a
/// 20-byte key hash and the check bytes of those 21 bytes.
pub open spec fn decoded_address_ok(d: Seq<u8>) -> bool {
    &&& d.len() == 25
    &&& d[0] == MAINNET_VERSION || d[0] == TESTNET_VERSION
    &&& d.subrange(21, 25) == checksum_of(d.subrange(0, 21))
}

/// `OP_DUP OP_HASH160 <20-byte hash> OP_EQUALVERIFY OP_CHECKSIG`.
pub open spec fn p2pkh_script(hash: Seq<u8>) -> Seq<u8> {
    seq![OP_DUP, OP_HASH160, 0x14u8] + hash + seq![OP_EQUALVERIFY, OP_CHECKSIG]
}

/// The locking script that an address stands for, if it is a valid one.
pub open spec fn address_script(address: Seq<char>) -> Option<Seq<u8>> {
    let d = base58_decoded(address);
    if is_base58(address) && decoded_address_ok(d) {
        Some(p2pkh_script(d.subrange(1, 21)))
    } else {
        None
    }
}

/// An unlocking script: the signature and the public key, each pushed with a
/// one-byte length.
pub open spec fn script_sig_of(signature: Seq<u8>, public_key: Seq<u8>) -> Seq<u8> {
    seq![signature.len() as u8] + signature + seq![public_key.len() as u8] + public_key
}

/// Relies on base58::decode (of the bitcoin crate): it accepts exactly text
/// whose every character is in the base58 alphabet.
#[verifier::external_body]
fn base58_decode(s: &str) -> (r: Option<Vec<u8>>)
    ensures
        r is Some <==> is_base58(s@),
        r is Some ==> r->0@ == base58_decoded(s@),
{
    bitcoin::base58::decode(s).ok()
}

/// Relies on base58::encode (of the bitcoin crate).
#[verifier::external_body]
pub(crate) fn base58_encode(b: &[u8]) -> (r: String)
    ensures
        r@ == base58_of(b@),
{
    bitcoin::base58::encode(b)
}

/// The locking script for a decoded address. Fails with an invalid-address
/// error on a wrong length, an unsupported version byte or a bad checksum.
pub fn script_pub_key_from_decoded(decoded: &[u8]) -> (r: Result<Vec<u8>, TransactionError>)
    ensures
        r is Ok <==> decoded_address_ok(decoded@),
        r matches Ok(s) ==> s@ == p2pkh_script(decoded@.subrange(1, 21)),
        r matches Err(e) ==> e.kind == ErrorKind::InvalidAddress,
{
    if decoded.len() != 25 || (decoded[0] != MAINNET_VERSION && decoded[0] != TESTNET_VERSION) {
        return Err(TransactionError::new(ErrorKind::InvalidAddress));
    }
    let mut payload: Vec<u8> = Vec::new();
    let mut i: usize = 0;
    while i < 21
        invariant
            decoded@.len() == 25,
            0 <= i <= 21,
            payload@ == decoded@.subrange(0, i as int),
        decreases 21 - i,
    {
        payload.push(decoded[i]);
        i = i + 1;
        assert(payload@ =~= decoded@.subrange(0, i as int));
    }
    let digest = double_sha256(payload.as_slice());
    assert(checksum_of(decoded@.subrange(0, 21)) == digest@.subrange(0, 4));
    let mut k: usize = 0;
    while k < 4
        invariant
            decoded@.len() == 25,
            digest@.len() == 32,
            checksum_of(decoded@.subrange(0, 21)) == digest@.subrange(0, 4),
            0 <= k <= 4,
            forall|j: int| 0 <= j < k ==> decoded@[21 + j] == digest@[j],
        decreases 4 - k,
    {
        if decoded[21 + k] != digest[k] {
            assert(decoded@.subrange(21, 25)[k as int] != digest@.subrange(0, 4)[k as int]);
            assert(decoded@.subrange(21, 25) != checksum_of(decoded@.subrange(0, 21)));
            return Err(TransactionError::new(ErrorKind::InvalidAddress));
        }
        k = k + 1;
    }
    assert(decoded@.subrange(21, 25) =~= digest@.subrange(0, 4));
    let mut script: Vec<u8> = Vec::new();
    script.push(OP_DUP);
    script.push(OP_HASH160);
    script.push(0x14);
    let mut j: usize = 1;
    while j < 21
        invariant
            decoded@.len() == 25,
            1 <= j <= 21,
            script@ == seq![OP_DUP, OP_HASH160, 0x14u8] + decoded@.subrange(1, j as int),
        decreases 21 - j,
    {
        script.push(decoded[j]);
        j = j + 1;
        assert(script@ =~= seq![OP_DUP, OP_HASH160, 0x14u8] + decoded@.subrange(1, j as int));
    }
    script.push(OP_EQUALVERIFY);
    script.push(OP_CHECKSIG);
    assert(script@ =~= p2pkh_script(decoded@.subrange(1, 21)));
    Ok(script)
}

/// The locking script bytes for a base58check address.
pub fn script_pub_key_bytes(address: &str) -> (r: Result<Vec<u8>, TransactionError>)
    ensures
        r is Ok <==> address_script(address@) is Some,
        r matches Ok(s) ==> address_script(address@) == Some(s@),
        r matches Err(e) ==> e.kind == ErrorKind::InvalidAddress,
{
    match base58_decode(address) {
        None => Err(TransactionError::new(ErrorKind::InvalidAddress)),
        Some(decoded) => script_pub_key_from_decoded(decoded.as_slice()),
    }
}

/// The hex text of the pay-to-public-key-hash locking script for an address.
pub fn create_script_pub_key(address: &str) -> (r: Result<String, TransactionError>)
    ensures
        r is Ok <==> address_script(address@) is Some,
        r matches Ok(s) ==> s@ == hex_of(address_script(address@)->0),
        r matches Err(e) ==> e.kind == ErrorKind::InvalidAddress,
{
    let script = script_pub_key_bytes(address)?;
    Ok(to_hex(script.as_slice()))
}

/// The unlocking script for a signature and a public key.
pub fn script_sig_bytes(signature: &[u8], public_key: &[u8]) -> (r: Vec<u8>)
    requires
        signature@.len() < 0xfd,
        public_key@.len() < 0xfd,
    ensures
        r@ == script_sig_of(signature@, public_key@),
{
    let mut out: Vec<u8> = Vec::new();
    out.push(signature.len() as u8);
    crate::codec::append_bytes(&mut out, signature);
    out.push(public_key.len() as u8);
    crate::codec::append_bytes(&mut out, public_key);
    assert(out@ =~= script_sig_of(signature@, public_key@));
    out
}

/// The hex text of the unlocking script for hex-encoded signature and public
/// key. Fails with an encoding error on malformed hex or on a part of 253
/// bytes or more, whose length no longer fits the one-byte push.
pub fn create_script_sig(signature: &str, public_key: &str) -> (r: Result<String, TransactionError>)
    ensures
        r is Ok <==> is_hex(signature@) && is_hex(public_key@) && hex_decode(signature@).len()
            < 0xfd && hex_decode(public_key@).len() < 0xfd,
        r matches Ok(s) ==> s@ == hex_of(
            script_sig_of(hex_decode(signature@), hex_decode(public_key@)),
        ),
        r matches Err(e) ==> e.kind == ErrorKind::EncodingError,
{
    let sig = match from_hex(signature) {
        Some(b) => b,
        None => return Err(TransactionError::new(ErrorKind::EncodingError)),
    };
    let pk = match from_hex(public_key) {
        Some(b) => b,
        None => return Err(TransactionError::new(ErrorKind::EncodingError)),
    };
    if sig.len() >= 0xfd || pk.len() >= 0xfd {
        return Err(TransactionError::new(ErrorKind::EncodingError));
    }
    let script = script_sig_bytes(sig.as_slice(), pk.as_slice());
    Ok(to_hex(script.as_slice()))
}

} // verus!
