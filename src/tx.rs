//! Transactions, their canonical wire encoding, the fee policy, per-input
//! signing and the construction of a signed transaction from spendable outputs.
use vstd::prelude::*;

use crate::codec::{
    append_bytes, from_hex, hex_decode, hex_of, is_hex, le_bytes, push_le, push_varint,
    reverse_bytes, to_hex, varint_bytes,
};
use crate::error::{ErrorKind, TransactionError};
use crate::hashing::{double_sha256, double_sha256_of};
use crate::keys::{
    compressed_public_key, derive_address, ecdsa_signature_of, parse_private_key, public_key_of,
    secret_key_in_range, sign_digest, testnet_address_of,
};
use crate::script::{address_script, create_script_sig, script_pub_key_bytes, script_sig_of};

verus! {

/// A spendable output of an earlier transaction.
#[derive(Debug, Clone)]
pub struct UTXO {
    /// Identifier of the earlier transaction, in display (big-endian) hex.
    pub txid: String,
    pub vout: u32,
    /// Value in satoshis.
    pub value: u64,
    pub address: Option<String>,
    /// The output's locking script, in hex.
    pub script_pub_key: Option<String>,
}

/// An input of a transaction.
#[derive(Debug, Clone)]
pub struct TransactionInput {
    pub txid: String,
    pub vout: u32,
    /// The unlocking script, in hex.
    pub script_sig: String,
    pub sequence: u32,
    /// The locking script of the output spent, in hex; used while signing and
    /// never encoded.
    pub script_pub_key: Option<String>,
}

/// An output of a transaction, paying `value` satoshis to `address`.
#[derive(Debug, Clone)]
pub struct TransactionOutput {
    pub address: String,
    pub value: u64,
}

#[derive(Debug, Clone)]
pub struct Transaction {
    pub version: u32,
    pub inputs: Vec<TransactionInput>,
    pub outputs: Vec<TransactionOutput>,
    pub locktime: u32,
}

/// An input as it is encoded: the earlier transaction's identifier in display
/// byte order, and the unlocking script as bytes.
pub struct InputModel {
    pub txid: Seq<u8>,
    pub vout: u32,
    pub script_sig: Seq<u8>,
    pub sequence: u32,
}

/// An output as it is encoded: its value and its locking script.
pub struct OutputModel {
    pub value: u64,
    pub script: Seq<u8>,
}

/// A transaction as it is encoded.
pub struct TxModel {
    pub version: u32,
    pub inputs: Seq<InputModel>,
    pub outputs: Seq<OutputModel>,
    pub locktime: u32,
}

pub open spec fn input_wire(i: InputModel) -> Seq<u8> {
    i.txid.reverse() + le_bytes(i.vout as nat, 4) + varint_bytes(i.script_sig.len()) + i.script_sig
        + le_bytes(i.sequence as nat, 4)
}

pub open spec fn output_wire(o: OutputModel) -> Seq<u8> {
    le_bytes(o.value as nat, 8) + varint_bytes(o.script.len()) + o.script
}

pub open spec fn inputs_wire(s: Seq<InputModel>) -> Seq<u8>
    decreases s.len(),
{
    if s.len() == 0 {
        Seq::empty()
    } else {
        inputs_wire(s.drop_last()) + input_wire(s.last())
    }
}

pub open spec fn outputs_wire(s: Seq<OutputModel>) -> Seq<u8>
    decreases s.len(),
{
    if s.len() == 0 {
        Seq::empty()
    } else {
        outputs_wire(s.drop_last()) + output_wire(s.last())
    }
}

/// The canonical legacy encoding of a transaction.
pub open spec fn tx_wire(m: TxModel) -> Seq<u8> {
    le_bytes(m.version as nat, 4) + varint_bytes(m.inputs.len()) + inputs_wire(m.inputs)
        + varint_bytes(m.outputs.len()) + outputs_wire(m.outputs) + le_bytes(m.locktime as nat, 4)
}

/// The input's identifier is 32 bytes of hex.
pub open spec fn txid_ok(txid: Seq<char>) -> bool {
    is_hex(txid) && hex_decode(txid).len() == 32
}

pub open spec fn input_ok(i: TransactionInput) -> bool {
    txid_ok(i.txid@) && is_hex(i.script_sig@)
}

pub open spec fn output_ok(o: TransactionOutput) -> bool {
    address_script(o.address@) is Some
}

pub open spec fn inputs_ok(tx: Transaction) -> bool {
    forall|j: int| 0 <= j < tx.inputs@.len() ==> input_ok(#[trigger] tx.inputs@[j])
}

pub open spec fn outputs_ok(tx: Transaction) -> bool {
    forall|j: int| 0 <= j < tx.outputs@.len() ==> output_ok(#[trigger] tx.outputs@[j])
}

pub open spec fn input_model(i: TransactionInput) -> InputModel {
    InputModel {
        txid: hex_decode(i.txid@),
        vout: i.vout,
        script_sig: hex_decode(i.script_sig@),
        sequence: i.sequence,
    }
}

pub open spec fn output_model(o: TransactionOutput) -> OutputModel {
    OutputModel { value: o.value, script: address_script(o.address@)->0 }
}

/// What a transaction encodes to, where its fields are well formed.
pub open spec fn tx_model(tx: Transaction) -> TxModel {
    TxModel {
        version: tx.version,
        inputs: tx.inputs@.map_values(|i: TransactionInput| input_model(i)),
        outputs: tx.outputs@.map_values(|o: TransactionOutput| output_model(o)),
        locktime: tx.locktime,
    }
}

pub proof fn lemma_inputs_wire_step(s: Seq<InputModel>, k: int)
    requires
        0 <= k < s.len(),
    ensures
        inputs_wire(s.subrange(0, k + 1)) == inputs_wire(s.subrange(0, k)) + input_wire(s[k]),
{
    assert(s.subrange(0, k + 1).drop_last() =~= s.subrange(0, k));
}

pub proof fn lemma_outputs_wire_step(s: Seq<OutputModel>, k: int)
    requires
        0 <= k < s.len(),
    ensures
        outputs_wire(s.subrange(0, k + 1)) == outputs_wire(s.subrange(0, k)) + output_wire(s[k]),
{
    assert(s.subrange(0, k + 1).drop_last() =~= s.subrange(0, k));
}

/// The canonical encoding of a transaction. Fails with a serialization error
/// where an input's identifier is not 32 bytes of hex or its unlocking script
/// is not hex, and otherwise with an invalid-address error where an output's
/// address is not a valid one.
pub fn serialize_bytes(tx: &Transaction) -> (r: Result<Vec<u8>, TransactionError>)
    ensures
        r is Ok <==> inputs_ok(*tx) && outputs_ok(*tx),
        r matches Ok(b) ==> b@ == tx_wire(tx_model(*tx)),
        r matches Err(e) ==> e.kind == (if inputs_ok(*tx) {
            ErrorKind::InvalidAddress
        } else {
            ErrorKind::SerializationError
        }),
{
    let ghost m = tx_model(*tx);
    let mut out: Vec<u8> = Vec::new();
    push_le(&mut out, tx.version as u64, 4);
    push_varint(&mut out, tx.inputs.len() as u64);
    let ghost head = out@;
    assert(m.inputs.subrange(0, 0) =~= Seq::<InputModel>::empty());
    let mut k: usize = 0;
    while k < tx.inputs.len()
        invariant
            m == tx_model(*tx),
            0 <= k <= tx.inputs@.len(),
            head == le_bytes(tx.version as nat, 4) + varint_bytes(tx.inputs@.len() as nat),
            out@ == head + inputs_wire(m.inputs.subrange(0, k as int)),
            forall|j: int| 0 <= j < k ==> input_ok(#[trigger] tx.inputs@[j]),
        decreases tx.inputs@.len() - k,
    {
        let input = &tx.inputs[k];
        let txid = match from_hex(input.txid.as_str()) {
            Some(b) => b,
            None => return Err(TransactionError::new(ErrorKind::SerializationError)),
        };
        if txid.len() != 32 {
            return Err(TransactionError::new(ErrorKind::SerializationError));
        }
        let script = match from_hex(input.script_sig.as_str()) {
            Some(b) => b,
            None => return Err(TransactionError::new(ErrorKind::SerializationError)),
        };
        let ghost before = out@;
        let reversed = reverse_bytes(txid.as_slice());
        append_bytes(&mut out, reversed.as_slice());
        push_le(&mut out, input.vout as u64, 4);
        push_varint(&mut out, script.len() as u64);
        append_bytes(&mut out, script.as_slice());
        push_le(&mut out, input.sequence as u64, 4);
        proof {
            lemma_inputs_wire_step(m.inputs, k as int);
            assert(m.inputs[k as int] == input_model(tx.inputs@[k as int]));
            assert(out@ =~= before + input_wire(m.inputs[k as int]));
        }
        k = k + 1;
    }
    assert(m.inputs.subrange(0, k as int) =~= m.inputs);
    push_varint(&mut out, tx.outputs.len() as u64);
    let ghost mid = out@;
    assert(m.outputs.subrange(0, 0) =~= Seq::<OutputModel>::empty());
    let mut k: usize = 0;
    while k < tx.outputs.len()
        invariant
            m == tx_model(*tx),
            inputs_ok(*tx),
            0 <= k <= tx.outputs@.len(),
            mid == le_bytes(tx.version as nat, 4) + varint_bytes(tx.inputs@.len() as nat)
                + inputs_wire(m.inputs) + varint_bytes(tx.outputs@.len() as nat),
            out@ == mid + outputs_wire(m.outputs.subrange(0, k as int)),
            forall|j: int| 0 <= j < k ==> output_ok(#[trigger] tx.outputs@[j]),
        decreases tx.outputs@.len() - k,
    {
        let output = &tx.outputs[k];
        let script = match script_pub_key_bytes(output.address.as_str()) {
            Ok(s) => s,
            Err(e) => return Err(e),
        };
        let ghost before = out@;
        push_le(&mut out, output.value, 8);
        push_varint(&mut out, script.len() as u64);
        append_bytes(&mut out, script.as_slice());
        proof {
            lemma_outputs_wire_step(m.outputs, k as int);
            assert(m.outputs[k as int] == output_model(tx.outputs@[k as int]));
            assert(out@ =~= before + output_wire(m.outputs[k as int]));
        }
        k = k + 1;
    }
    assert(m.outputs.subrange(0, k as int) =~= m.outputs);
    push_le(&mut out, tx.locktime as u64, 4);
    assert(out@ =~= tx_wire(m));
    Ok(out)
}

/// The canonical encoding of a transaction, as lowercase hex. Fails as
/// `serialize_bytes` does.
pub fn serialize_transaction(tx: &Transaction) -> (r: Result<String, TransactionError>)
    ensures
        r is Ok <==> inputs_ok(*tx) && outputs_ok(*tx),
        r matches Ok(s) ==> s@ == hex_of(tx_wire(tx_model(*tx))),
        r matches Err(e) ==> e.kind == (if inputs_ok(*tx) {
            ErrorKind::InvalidAddress
        } else {
            ErrorKind::SerializationError
        }),
{
    let bytes = serialize_bytes(tx)?;
    Ok(to_hex(bytes.as_slice()))
}

/// The flat fee, in satoshis, that every transaction pays.
pub const FIXED_FEE: u64 = 1000;

/// The signature-hash type that commits to all inputs and outputs.
pub const SIGHASH_ALL: u8 = 0x01;

/// The fee that the policy asks of a transaction. This and `calculate_fee`
/// are the one place where the fee is decided; it is a flat amount for now.
pub open spec fn fee_policy(m: TxModel) -> u64 {
    FIXED_FEE
}

/// The fee that a transaction pays, as `fee_policy` decides it.
pub fn calculate_fee(_transaction: &Transaction) -> (r: u64)
    ensures
        r == fee_policy(tx_model(*_transaction)),
{
    FIXED_FEE
}

/// Every input's identifier is 32 bytes of hex.
pub open spec fn txids_ok(tx: Transaction) -> bool {
    forall|j: int| 0 <= j < tx.inputs@.len() ==> txid_ok(#[trigger] tx.inputs@[j].txid@)
}

/// The transaction that input `idx` signs: every unlocking script emptied but
/// that of input `idx`, which holds the locking script it spends.
pub open spec fn signing_model(m: TxModel, idx: int, script: Seq<u8>) -> TxModel {
    TxModel {
        version: m.version,
        inputs: Seq::new(
            m.inputs.len(),
            |j: int|
                InputModel {
                    txid: m.inputs[j].txid,
                    vout: m.inputs[j].vout,
                    script_sig: if j == idx {
                        script
                    } else {
                        Seq::empty()
                    },
                    sequence: m.inputs[j].sequence,
                },
        ),
        outputs: m.outputs,
        locktime: m.locktime,
    }
}

/// The digest that input `idx` signs.
pub open spec fn sighash_of(m: TxModel, idx: int, script: Seq<u8>) -> Seq<u8> {
    double_sha256_of(tx_wire(signing_model(m, idx, script)) + le_bytes(SIGHASH_ALL as nat, 4))
}

/// A DER signature of a digest followed by the signature-hash type.
pub open spec fn signature_bytes(secret: Seq<u8>, digest: Seq<u8>) -> Seq<u8> {
    ecdsa_signature_of(secret, digest) + seq![SIGHASH_ALL]
}

/// The signature, as hex, with which input `index` spends its output: the
/// ECDSA signature of the digest of the transaction that the input signs,
/// followed by the signature-hash type. Fails with a signing error where there
/// is no input `index` or its locking script is unknown; then as the encoding of that transaction
/// fails.
pub fn generate_signature(secret: &[u8], transaction: &Transaction, index: usize) -> (r: Result<
    String,
    TransactionError,
>)
    requires
        secret_key_in_range(secret@),
    ensures
        index >= transaction.inputs@.len() ==> (r matches Err(e) && e.kind
            == ErrorKind::SigningError),
        index < transaction.inputs@.len() ==> ({
            let spk = transaction.inputs@[index as int].script_pub_key;
            &&& r is Ok <==> spk is Some && is_hex(spk->0@) && txids_ok(*transaction) && outputs_ok(
                *transaction,
            )
            &&& r matches Ok(s) ==> s@ == hex_of(
                signature_bytes(
                    secret@,
                    sighash_of(tx_model(*transaction), index as int, hex_decode(spk->0@)),
                ),
            )
            &&& r is Ok ==> ecdsa_signature_of(
                secret@,
                sighash_of(tx_model(*transaction), index as int, hex_decode(spk->0@)),
            ).len() <= 72
            &&& r matches Err(e) ==> e.kind == (if spk is None {
                ErrorKind::SigningError
            } else if !(txids_ok(*transaction) && is_hex(spk->0@)) {
                ErrorKind::SerializationError
            } else {
                ErrorKind::InvalidAddress
            })
        }),
{
    if index >= transaction.inputs.len() {
        return Err(TransactionError::new(ErrorKind::SigningError));
    }
    let spk = match &transaction.inputs[index].script_pub_key {
        Some(s) => s,
        None => return Err(TransactionError::new(ErrorKind::SigningError)),
    };
    let mut inputs: Vec<TransactionInput> = Vec::new();
    let mut k: usize = 0;
    while k < transaction.inputs.len()
        invariant
            0 <= k <= transaction.inputs@.len(),
            index < transaction.inputs@.len(),
            transaction.inputs@[index as int].script_pub_key == Some(*spk),
            inputs@.len() == k,
            forall|j: int|
                0 <= j < k ==> {
                    &&& (#[trigger] inputs@[j]).txid@ == transaction.inputs@[j].txid@
                    &&& inputs@[j].vout == transaction.inputs@[j].vout
                    &&& inputs@[j].sequence == transaction.inputs@[j].sequence
                    &&& inputs@[j].script_sig@ == if j == index {
                        spk@
                    } else {
                        Seq::empty()
                    }
                },
        decreases transaction.inputs@.len() - k,
    {
        let source = &transaction.inputs[k];
        let script_sig = if k == index {
            spk.clone()
        } else {
            String::new()
        };
        inputs.push(
            TransactionInput {
                txid: source.txid.clone(),
                vout: source.vout,
                script_sig,
                sequence: source.sequence,
                script_pub_key: None,
            },
        );
        k = k + 1;
    }
    let mut outputs: Vec<TransactionOutput> = Vec::new();
    let mut k: usize = 0;
    while k < transaction.outputs.len()
        invariant
            0 <= k <= transaction.outputs@.len(),
            outputs@.len() == k,
            forall|j: int|
                0 <= j < k ==> (#[trigger] outputs@[j]).address@ == transaction.outputs@[j].address@
                    && outputs@[j].value == transaction.outputs@[j].value,
        decreases transaction.outputs@.len() - k,
    {
        let source = &transaction.outputs[k];
        outputs.push(TransactionOutput { address: source.address.clone(), value: source.value });
        k = k + 1;
    }
    let copy = Transaction {
        version: transaction.version,
        inputs,
        outputs,
        locktime: transaction.locktime,
    };
    let ghost sm = signing_model(tx_model(*transaction), index as int, hex_decode(spk@));
    proof {
        let empty = Seq::<char>::empty();
        assert(hex_decode(empty) =~= Seq::<u8>::empty());
        assert(is_hex(empty));
        assert(inputs_ok(copy) == (txids_ok(*transaction) && is_hex(spk@))) by {
            if inputs_ok(copy) {
                assert(input_ok(copy.inputs@[index as int]));
                assert forall|j: int| 0 <= j < transaction.inputs@.len() implies txid_ok(
                    #[trigger] transaction.inputs@[j].txid@,
                ) by {
                    assert(input_ok(copy.inputs@[j]));
                }
            }
            if txids_ok(*transaction) && is_hex(spk@) {
                assert forall|j: int| 0 <= j < copy.inputs@.len() implies input_ok(
                    #[trigger] copy.inputs@[j],
                ) by {
                    assert(txid_ok(transaction.inputs@[j].txid@));
                }
            }
        }
        assert(outputs_ok(copy) == outputs_ok(*transaction)) by {
            if outputs_ok(copy) {
                assert forall|j: int| 0 <= j < transaction.outputs@.len() implies output_ok(
                    #[trigger] transaction.outputs@[j],
                ) by {
                    assert(output_ok(copy.outputs@[j]));
                }
            }
            if outputs_ok(*transaction) {
                assert forall|j: int| 0 <= j < copy.outputs@.len() implies output_ok(
                    #[trigger] copy.outputs@[j],
                ) by {
                    assert(output_ok(transaction.outputs@[j]));
                }
            }
        }
        assert(tx_model(copy).inputs =~= sm.inputs);
        assert(tx_model(copy).outputs =~= sm.outputs);
        assert(tx_model(copy) == sm);
    }
    let mut preimage = serialize_bytes(&copy)?;
    push_le(&mut preimage, SIGHASH_ALL as u64, 4);
    assert(preimage@ == tx_wire(sm) + le_bytes(SIGHASH_ALL as nat, 4));
    let digest = double_sha256(preimage.as_slice());
    let mut signature = sign_digest(secret, digest.as_slice());
    signature.push(SIGHASH_ALL);
    assert(signature@ =~= signature_bytes(
        secret@,
        sighash_of(tx_model(*transaction), index as int, hex_decode(spk@)),
    ));
    Ok(to_hex(signature.as_slice()))
}

/// Surplus at or below this many satoshis gets no change output and goes to
/// the fee.
pub const DUST_LIMIT: u64 = 546;

/// The sequence number of every input built here.
pub const SEQUENCE_FINAL: u32 = 0xffff_ffff;

/// The total value of spendable outputs.
pub open spec fn utxo_sum(s: Seq<UTXO>) -> nat
    decreases s.len(),
{
    if s.len() == 0 {
        0
    } else {
        utxo_sum(s.drop_last()) + s.last().value as nat
    }
}

/// The unsigned transaction before any change output: one input per
/// spendable output and the payment to the target. The fee is decided on it.
pub open spec fn base_skeleton(utxos: Seq<UTXO>, target: Seq<char>, amount: u64) -> TxModel {
    TxModel {
        version: 1,
        inputs: skeleton_inputs(utxos),
        outputs: seq![OutputModel { value: amount, script: address_script(target)->0 }],
        locktime: 0,
    }
}

/// The fee of a transaction paying `amount` to `target` out of `utxos`.
pub open spec fn fee_of(utxos: Seq<UTXO>, target: Seq<char>, amount: u64) -> u64 {
    fee_policy(base_skeleton(utxos, target, amount))
}

/// What is left of the outputs' total once the amount and the fee are paid.
pub open spec fn change_of(utxos: Seq<UTXO>, target: Seq<char>, amount: u64) -> int {
    utxo_sum(utxos) - amount - fee_of(utxos, target, amount)
}

/// One unsigned input per spendable output, in the same order.
pub open spec fn skeleton_inputs(utxos: Seq<UTXO>) -> Seq<InputModel> {
    utxos.map_values(
        |u: UTXO|
            InputModel {
                txid: hex_decode(u.txid@),
                vout: u.vout,
                script_sig: Seq::empty(),
                sequence: SEQUENCE_FINAL,
            },
    )
}

/// The payment to the target, then the change, where it exceeds the dust limit,
/// to the address of the secret key.
pub open spec fn payment_outputs(
    utxos: Seq<UTXO>,
    target: Seq<char>,
    amount: u64,
    secret: Seq<u8>,
) -> Seq<OutputModel> {
    let pay = OutputModel { value: amount, script: address_script(target)->0 };
    if change_of(utxos, target, amount) > DUST_LIMIT {
        seq![
            pay,
            OutputModel {
                value: change_of(utxos, target, amount) as u64,
                script: address_script(testnet_address_of(secret))->0,
            },
        ]
    } else {
        seq![pay]
    }
}

/// The unsigned transaction: version 1, lock time 0.
pub open spec fn skeleton(utxos: Seq<UTXO>, target: Seq<char>, amount: u64, secret: Seq<u8>) -> TxModel {
    TxModel {
        version: 1,
        inputs: skeleton_inputs(utxos),
        outputs: payment_outputs(utxos, target, amount, secret),
        locktime: 0,
    }
}

/// The locking script that a spendable output carries, as bytes.
pub open spec fn prev_script(u: UTXO) -> Seq<u8> {
    hex_decode(u.script_pub_key->0@)
}

/// The unlocking script of input `j` of `m`, signed with `secret`.
pub open spec fn signed_script_sig(m: TxModel, secret: Seq<u8>, utxos: Seq<UTXO>, j: int) -> Seq<u8> {
    script_sig_of(
        signature_bytes(secret, sighash_of(m, j, prev_script(utxos[j]))),
        public_key_of(secret),
    )
}

/// `m` with every input carrying its unlocking script.
pub open spec fn signed_model(m: TxModel, secret: Seq<u8>, utxos: Seq<UTXO>) -> TxModel {
    TxModel {
        version: m.version,
        inputs: Seq::new(
            m.inputs.len(),
            |j: int|
                InputModel {
                    txid: m.inputs[j].txid,
                    vout: m.inputs[j].vout,
                    script_sig: signed_script_sig(m, secret, utxos, j),
                    sequence: m.inputs[j].sequence,
                },
        ),
        outputs: m.outputs,
        locktime: m.locktime,
    }
}

/// Whether, and how, building a transaction fails; checked in this order.
pub open spec fn creation_error(
    utxos: Seq<UTXO>,
    target: Seq<char>,
    amount: u64,
    key_hex: Seq<char>,
) -> Option<ErrorKind> {
    let secret = hex_decode(key_hex);
    if utxos.len() == 0 || amount == 0 || !(forall|j: int|
        0 <= j < utxos.len() ==> (#[trigger] utxos[j]).value > 0) {
        Some(ErrorKind::InvalidInput)
    } else if address_script(target) is None {
        Some(ErrorKind::InvalidAddress)
    } else if !(is_hex(key_hex) && secret_key_in_range(secret)) {
        Some(ErrorKind::InvalidPrivateKey)
    } else if !(forall|j: int| 0 <= j < utxos.len() ==> txid_ok((#[trigger] utxos[j]).txid@)) {
        Some(ErrorKind::SerializationError)
    } else if !(forall|j: int|
        0 <= j < utxos.len() ==> (#[trigger] utxos[j]).script_pub_key is Some) {
        Some(ErrorKind::SigningError)
    } else if !(forall|j: int|
        0 <= j < utxos.len() ==> is_hex((#[trigger] utxos[j]).script_pub_key->0@)) {
        Some(ErrorKind::SerializationError)
    } else if utxo_sum(utxos) < amount + fee_of(utxos, target, amount) {
        Some(ErrorKind::InsufficientFunds)
    } else if change_of(utxos, target, amount) > u64::MAX {
        Some(ErrorKind::EncodingError)
    } else if change_of(utxos, target, amount) > DUST_LIMIT && address_script(
        testnet_address_of(secret),
    ) is None {
        Some(ErrorKind::InvalidAddress)
    } else {
        None
    }
}

pub proof fn lemma_utxo_sum_step(s: Seq<UTXO>, k: int)
    requires
        0 <= k < s.len(),
    ensures
        utxo_sum(s.subrange(0, k + 1)) == utxo_sum(s.subrange(0, k)) + s[k].value,
{
    assert(s.subrange(0, k + 1).drop_last() =~= s.subrange(0, k));
}

/// Builds and signs a transaction that pays `amount` satoshis to
/// `target_address` out of `utxos`, with change back to the test-network
/// address of the private key, and returns its encoding as lowercase hex.
/// The change always goes to the test-network address, whichever network the
/// target address belongs to.
#[verifier::loop_isolation(false)]
pub fn create_transaction(
    utxos: Vec<UTXO>,
    target_address: &str,
    amount: u64,
    private_key_hex: &str,
) -> (r: Result<String, TransactionError>)
    ensures
        r is Err <==> creation_error(utxos@, target_address@, amount, private_key_hex@) is Some,
        r matches Err(e) ==> creation_error(utxos@, target_address@, amount, private_key_hex@)
            == Some(e.kind),
        r matches Ok(s) ==> s@ == hex_of(
            tx_wire(
                signed_model(
                    skeleton(utxos@, target_address@, amount, hex_decode(private_key_hex@)),
                    hex_decode(private_key_hex@),
                    utxos@,
                ),
            ),
        ),
{
    let ghost u = utxos@;
    if utxos.len() == 0 || amount == 0 {
        return Err(TransactionError::new(ErrorKind::InvalidInput));
    }
    let mut k: usize = 0;
    while k < utxos.len()
        invariant
            u == utxos@,
            0 <= k <= u.len(),
            forall|j: int| 0 <= j < k ==> (#[trigger] u[j]).value > 0,
        decreases u.len() - k,
    {
        if utxos[k].value == 0 {
            return Err(TransactionError::new(ErrorKind::InvalidInput));
        }
        k = k + 1;
    }
    if let Err(e) = script_pub_key_bytes(target_address) {
        return Err(e);
    }
    let secret = match parse_private_key(private_key_hex) {
        Ok(key) => key,
        Err(e) => return Err(e),
    };
    let mut k: usize = 0;
    while k < utxos.len()
        invariant
            u == utxos@,
            0 <= k <= u.len(),
            forall|j: int| 0 <= j < k ==> txid_ok((#[trigger] u[j]).txid@),
        decreases u.len() - k,
    {
        match from_hex(utxos[k].txid.as_str()) {
            Some(b) => {
                if b.len() != 32 {
                    return Err(TransactionError::new(ErrorKind::SerializationError));
                }
            },
            None => return Err(TransactionError::new(ErrorKind::SerializationError)),
        }
        k = k + 1;
    }
    let mut k: usize = 0;
    while k < utxos.len()
        invariant
            u == utxos@,
            0 <= k <= u.len(),
            forall|j: int| 0 <= j < k ==> (#[trigger] u[j]).script_pub_key is Some,
        decreases u.len() - k,
    {
        if utxos[k].script_pub_key.is_none() {
            return Err(TransactionError::new(ErrorKind::SigningError));
        }
        k = k + 1;
    }
    let mut k: usize = 0;
    while k < utxos.len()
        invariant
            u == utxos@,
            0 <= k <= u.len(),
            forall|j: int| 0 <= j < u.len() ==> (#[trigger] u[j]).script_pub_key is Some,
            forall|j: int| 0 <= j < k ==> is_hex((#[trigger] u[j]).script_pub_key->0@),
        decreases u.len() - k,
    {
        if let Some(script) = &utxos[k].script_pub_key {
            if from_hex(script.as_str()).is_none() {
                return Err(TransactionError::new(ErrorKind::SerializationError));
            }
        }
        k = k + 1;
    }
    let mut total: u128 = 0;
    let mut k: usize = 0;
    assert(u.subrange(0, 0) =~= Seq::<UTXO>::empty());
    while k < utxos.len()
        invariant
            u == utxos@,
            0 <= k <= u.len(),
            total as nat == utxo_sum(u.subrange(0, k as int)),
            total <= k as u128 * 0xffff_ffff_ffff_ffff,
        decreases u.len() - k,
    {
        proof {
            lemma_utxo_sum_step(u, k as int);
            assert(k as u128 * 0xffff_ffff_ffff_ffff + 0xffff_ffff_ffff_ffff == (k + 1) as u128
                * 0xffff_ffff_ffff_ffff) by (nonlinear_arith);
            assert((k + 1) as u128 * 0xffff_ffff_ffff_ffff <= 0x1_0000_0000_0000_0000u128
                * 0xffff_ffff_ffff_ffff) by (nonlinear_arith)
                requires
                    k < 0x1_0000_0000_0000_0000u128,
            ;
        }
        total = total + utxos[k].value as u128;
        k = k + 1;
    }
    assert(u.subrange(0, k as int) =~= u);
    let ghost key = secret@;
    let mut inputs: Vec<TransactionInput> = Vec::new();
    let mut k: usize = 0;
    while k < utxos.len()
        invariant
            u == utxos@,
            0 <= k <= u.len(),
            inputs@.len() == k,
            forall|j: int| 0 <= j < u.len() ==> (#[trigger] u[j]).script_pub_key is Some,
            forall|j: int|
                0 <= j < k ==> {
                    &&& (#[trigger] inputs@[j]).txid@ == u[j].txid@
                    &&& inputs@[j].vout == u[j].vout
                    &&& inputs@[j].script_sig@ == Seq::<char>::empty()
                    &&& inputs@[j].sequence == SEQUENCE_FINAL
                    &&& inputs@[j].script_pub_key is Some
                    &&& inputs@[j].script_pub_key->0@ == u[j].script_pub_key->0@
                },
        decreases u.len() - k,
    {
        let source = &utxos[k];
        let script_pub_key = match &source.script_pub_key {
            Some(s) => Some(s.clone()),
            None => None,
        };
        inputs.push(
            TransactionInput {
                txid: source.txid.clone(),
                vout: source.vout,
                script_sig: String::new(),
                sequence: SEQUENCE_FINAL,
                script_pub_key,
            },
        );
        k = k + 1;
    }
    let mut outputs: Vec<TransactionOutput> = Vec::new();
    outputs.push(TransactionOutput { address: target_address.to_owned(), value: amount });
    let mut unsigned = Transaction { version: 1, inputs, outputs, locktime: 0 };
    proof {
        assert(hex_decode(Seq::<char>::empty()) =~= Seq::<u8>::empty());
        let b = base_skeleton(u, target_address@, amount);
        assert(tx_model(unsigned).inputs =~= b.inputs);
        assert(tx_model(unsigned).outputs =~= b.outputs);
        assert(tx_model(unsigned) == b);
    }
    let fee = calculate_fee(&unsigned);
    if total < amount as u128 + fee as u128 {
        return Err(TransactionError::new(ErrorKind::InsufficientFunds));
    }
    let change = total - amount as u128 - fee as u128;
    if change > u64::MAX as u128 {
        return Err(TransactionError::new(ErrorKind::EncodingError));
    }
    if change > DUST_LIMIT as u128 {
        let change_address = derive_address(secret.as_slice());
        if let Err(e) = script_pub_key_bytes(change_address.as_str()) {
            return Err(e);
        }
        unsigned.outputs.push(TransactionOutput { address: change_address, value: change as u64 });
    }
    let ghost m = skeleton(u, target_address@, amount, key);
    proof {
        assert(hex_decode(Seq::<char>::empty()) =~= Seq::<u8>::empty());
        assert(tx_model(unsigned).inputs =~= m.inputs);
        assert(tx_model(unsigned).outputs =~= m.outputs);
        assert(tx_model(unsigned) == m);
        assert(txids_ok(unsigned)) by {
            assert forall|j: int| 0 <= j < unsigned.inputs@.len() implies txid_ok(
                #[trigger] unsigned.inputs@[j].txid@,
            ) by {
                assert(txid_ok(u[j].txid@));
            }
        }
    }
    let public_key = compressed_public_key(secret.as_slice());
    let public_key_hex = to_hex(public_key.as_slice());
    proof {
        crate::codec::lemma_hex_round_trip(public_key@);
    }
    let mut signed_inputs: Vec<TransactionInput> = Vec::new();
    let mut k: usize = 0;
    while k < unsigned.inputs.len()
        invariant
            u == utxos@,
            m == tx_model(unsigned),
            key == secret@,
            secret_key_in_range(key),
            unsigned.inputs@.len() == u.len(),
            txids_ok(unsigned),
            outputs_ok(unsigned),
            public_key@ == public_key_of(key),
            public_key@.len() == 33,
            is_hex(public_key_hex@),
            hex_decode(public_key_hex@) == public_key@,
            0 <= k <= u.len(),
            signed_inputs@.len() == k,
            forall|j: int|
                0 <= j < u.len() ==> {
                    &&& (#[trigger] unsigned.inputs@[j]).txid@ == u[j].txid@
                    &&& unsigned.inputs@[j].vout == u[j].vout
                    &&& unsigned.inputs@[j].sequence == SEQUENCE_FINAL
                    &&& unsigned.inputs@[j].script_pub_key is Some
                    &&& unsigned.inputs@[j].script_pub_key->0@ == u[j].script_pub_key->0@
                    &&& is_hex(u[j].script_pub_key->0@)
                },
            forall|j: int|
                0 <= j < k ==> {
                    &&& (#[trigger] signed_inputs@[j]).txid@ == u[j].txid@
                    &&& signed_inputs@[j].vout == u[j].vout
                    &&& signed_inputs@[j].sequence == SEQUENCE_FINAL
                    &&& signed_inputs@[j].script_sig@ == hex_of(signed_script_sig(m, key, u, j))
                },
        decreases u.len() - k,
    {
        let signature = match generate_signature(secret.as_slice(), &unsigned, k) {
            Ok(s) => s,
            Err(e) => return Err(e),
        };
        let ghost sig_bytes = signature_bytes(key, sighash_of(m, k as int, prev_script(u[k as int])));
        proof {
            crate::codec::lemma_hex_round_trip(sig_bytes);
        }
        let script_sig = match create_script_sig(signature.as_str(), public_key_hex.as_str()) {
            Ok(s) => s,
            Err(e) => return Err(e),
        };
        let source = &unsigned.inputs[k];
        signed_inputs.push(
            TransactionInput {
                txid: source.txid.clone(),
                vout: source.vout,
                script_sig,
                sequence: source.sequence,
                script_pub_key: None,
            },
        );
        k = k + 1;
    }
    let signed = Transaction {
        version: 1,
        inputs: signed_inputs,
        outputs: unsigned.outputs,
        locktime: 0,
    };
    proof {
        assert forall|j: int| 0 <= j < signed.inputs@.len() implies input_ok(
            #[trigger] signed.inputs@[j],
        ) by {
            crate::codec::lemma_hex_round_trip(signed_script_sig(m, key, u, j));
            assert(txid_ok(u[j].txid@));
        }
        assert forall|j: int| 0 <= j < signed.inputs@.len() implies #[trigger] tx_model(
            signed,
        ).inputs[j] == signed_model(m, key, u).inputs[j] by {
            crate::codec::lemma_hex_round_trip(signed_script_sig(m, key, u, j));
        }
        assert(tx_model(signed).inputs =~= signed_model(m, key, u).inputs);
        assert(tx_model(signed) == signed_model(m, key, u));
    }
    serialize_transaction(&signed)
}

} // verus!
