//! Hex text, fixed-width little-endian integers and Bitcoin's variable-length
//! integers.
use vstd::prelude::*;
use vstd::string::{StrSliceExecFns, StringExecFns};

use crate::error::{ErrorKind, TransactionError};
use vstd::arithmetic::div_mod::{lemma_basic_div, lemma_div_denominator, lemma_div_non_zero};

verus! {

/// The lowercase hex digit of value `d`, for `d` below 16.
pub open spec fn hex_digit(d: int) -> char {
    if d < 10 {
        (d + 48) as char
    } else {
        (d + 87) as char
    }
}

/// Lowercase hex text of a byte string: two digits per byte, high digit first.
pub open spec fn hex_of(b: Seq<u8>) -> Seq<char>
    decreases b.len(),
{
    if b.len() == 0 {
        Seq::empty()
    } else {
        hex_of(b.drop_last()) + seq![
            hex_digit(b.last() as int / 16),
            hex_digit(b.last() as int % 16),
        ]
    }
}

pub open spec fn is_hex_char(c: char) -> bool {
    ('0' <= c && c <= '9') || ('a' <= c && c <= 'f') || ('A' <= c && c <= 'F')
}

pub open spec fn is_lower_hex_char(c: char) -> bool {
    ('0' <= c && c <= '9') || ('a' <= c && c <= 'f')
}

/// The value of one hex digit, in either case.
pub open spec fn hex_val(c: char) -> int {
    if '0' <= c && c <= '9' {
        c as int - '0' as int
    } else if 'a' <= c && c <= 'f' {
        c as int - 'a' as int + 10
    } else {
        c as int - 'A' as int + 10
    }
}

/// Text made of an even number of hex digits of either case.
pub open spec fn is_hex(s: Seq<char>) -> bool {
    &&& s.len() % 2 == 0
    &&& forall|i: int| 0 <= i < s.len() ==> is_hex_char(#[trigger] s[i])
}

/// The bytes that hex text stands for, one per pair of digits.
pub open spec fn hex_decode(s: Seq<char>) -> Seq<u8> {
    Seq::new(s.len() / 2, |i: int| (hex_val(s[2 * i]) * 16 + hex_val(s[2 * i + 1])) as u8)
}

/// 256 to the power `w`: the number of values that `w` bytes can hold.
pub open spec fn pow256(w: nat) -> nat
    decreases w,
{
    if w == 0 {
        1
    } else {
        256 * pow256((w - 1) as nat)
    }
}

/// The `w` low bytes of `n`, least significant first.
pub open spec fn le_bytes(n: nat, w: nat) -> Seq<u8>
    decreases w,
{
    if w == 0 {
        Seq::empty()
    } else {
        seq![(n % 256) as u8] + le_bytes(n / 256, (w - 1) as nat)
    }
}

/// Bitcoin's variable-length encoding of `n`.
pub open spec fn varint_bytes(n: nat) -> Seq<u8> {
    if n < 0xfd {
        seq![n as u8]
    } else if n <= 0xffff {
        seq![0xfdu8] + le_bytes(n, 2)
    } else if n <= 0xffff_ffff {
        seq![0xfeu8] + le_bytes(n, 4)
    } else {
        seq![0xffu8] + le_bytes(n, 8)
    }
}

/// Hex text with its digit pairs in reverse order, each pair kept as it is.
pub open spec fn reversed_hex(s: Seq<char>) -> Seq<char>
    decreases s.len(),
{
    if s.len() < 2 {
        s
    } else {
        s.subrange(s.len() - 2, s.len() as int) + reversed_hex(s.subrange(0, s.len() - 2))
    }
}

pub proof fn lemma_hex_chars()
    ensures
        forall|d: int|
            0 <= d < 16 ==> is_lower_hex_char(#[trigger] hex_digit(d)) && hex_val(hex_digit(d))
                == d,
{
    assert forall|d: int| 0 <= d < 16 implies is_lower_hex_char(#[trigger] hex_digit(d))
        && hex_val(hex_digit(d)) == d by {
    }
}

pub proof fn lemma_hex_of_index(b: Seq<u8>)
    ensures
        hex_of(b).len() == 2 * b.len(),
        forall|i: int|
            0 <= i < b.len() ==> {
                &&& #[trigger] hex_of(b)[2 * i] == hex_digit(b[i] as int / 16)
                &&& hex_of(b)[2 * i + 1] == hex_digit(b[i] as int % 16)
            },
    decreases b.len(),
{
    if b.len() > 0 {
        lemma_hex_of_index(b.drop_last());
        assert forall|i: int| 0 <= i < b.len() implies {
            &&& #[trigger] hex_of(b)[2 * i] == hex_digit(b[i] as int / 16)
            &&& hex_of(b)[2 * i + 1] == hex_digit(b[i] as int % 16)
        } by {
            let d = b.drop_last();
            let t = seq![hex_digit(b.last() as int / 16), hex_digit(b.last() as int % 16)];
            assert(hex_of(b) == hex_of(d) + t);
            if i < b.len() - 1 {
                assert(d[i] == b[i]);
                assert(hex_of(d)[2 * i] == hex_digit(d[i] as int / 16));
                assert(hex_of(b)[2 * i] == hex_of(d)[2 * i]);
                assert(hex_of(b)[2 * i + 1] == hex_of(d)[2 * i + 1]);
            } else {
                assert(hex_of(b)[2 * i] == t[0]);
                assert(hex_of(b)[2 * i + 1] == t[1]);
            }
        }
    }
}

/// Lowercase hex text is hex text, and reads back as the bytes it was made of.
pub proof fn lemma_hex_round_trip(b: Seq<u8>)
    ensures
        is_hex(hex_of(b)),
        hex_decode(hex_of(b)) == b,
{
    lemma_hex_of_index(b);
    lemma_hex_chars();
    let h = hex_of(b);
    assert forall|k: int| 0 <= k < h.len() implies is_lower_hex_char(#[trigger] h[k]) by {
        let i = k / 2;
        assert(0 <= i < b.len());
        assert(0 <= b[i] as int / 16 < 16 && 0 <= b[i] as int % 16 < 16);
        assert(h[2 * i] == hex_digit(b[i] as int / 16));
        if k == 2 * i {
        } else {
            assert(k == 2 * i + 1);
        }
    }
    assert forall|i: int| 0 <= i < b.len() implies #[trigger] hex_decode(h)[i] == b[i] by {
        let hi = b[i] as int / 16;
        let lo = b[i] as int % 16;
        assert(0 <= hi < 16 && 0 <= lo < 16);
        assert(hex_val(hex_digit(hi)) == hi);
        assert(hex_val(hex_digit(lo)) == lo);
        assert(hex_val(h[2 * i]) * 16 + hex_val(h[2 * i + 1]) == b[i] as int);
    }
    assert(hex_decode(h) =~= b);
}

/// Reversing the pairs of `x + y` puts the reversed pairs of `y` first.
pub proof fn lemma_reversed_hex_concat(x: Seq<char>, y: Seq<char>)
    requires
        x.len() % 2 == 0,
        y.len() % 2 == 0,
    ensures
        reversed_hex(x + y) == reversed_hex(y) + reversed_hex(x),
    decreases y.len(),
{
    if y.len() == 0 {
        assert(x + y =~= x);
        assert(reversed_hex(y) + reversed_hex(x) =~= reversed_hex(x));
    } else {
        let xy = x + y;
        let rest = y.subrange(0, y.len() - 2);
        assert(xy.subrange(xy.len() - 2, xy.len() as int) =~= y.subrange(y.len() - 2, y.len() as int));
        assert(xy.subrange(0, xy.len() - 2) =~= x + rest);
        lemma_reversed_hex_concat(x, rest);
        assert(reversed_hex(xy) =~= reversed_hex(y) + reversed_hex(x));
    }
}

/// Reversing the pairs keeps the length and keeps hex text hex text.
pub proof fn lemma_reversed_hex_is_hex(s: Seq<char>)
    requires
        s.len() % 2 == 0,
    ensures
        reversed_hex(s).len() == s.len(),
        is_hex(s) ==> is_hex(reversed_hex(s)),
    decreases s.len(),
{
    if s.len() >= 2 {
        let rest = s.subrange(0, s.len() - 2);
        lemma_reversed_hex_is_hex(rest);
        if is_hex(s) {
            assert(is_hex(rest));
            let r = reversed_hex(s);
            assert forall|i: int| 0 <= i < r.len() implies is_hex_char(#[trigger] r[i]) by {
                if i < 2 {
                    assert(r[i] == s[s.len() - 2 + i]);
                } else {
                    assert(r[i] == reversed_hex(rest)[i - 2]);
                }
            }
        }
    }
}

/// Reversing the digit pairs of hex text twice gives the text back.
pub proof fn lemma_reverse_hex_involutive(h: Seq<char>)
    requires
        is_hex(h),
    ensures
        is_hex(reversed_hex(h)),
        reversed_hex(reversed_hex(h)) == h,
    decreases h.len(),
{
    lemma_reversed_hex_is_hex(h);
    if h.len() >= 2 {
        let pair = h.subrange(h.len() - 2, h.len() as int);
        let rest = h.subrange(0, h.len() - 2);
        assert(is_hex(rest));
        lemma_reverse_hex_involutive(rest);
        lemma_reversed_hex_is_hex(rest);
        lemma_reversed_hex_concat(pair, reversed_hex(rest));
        assert(pair.len() == 2);
        assert(pair.subrange(0, 0) =~= Seq::<char>::empty());
        assert(reversed_hex(pair.subrange(0, 0)) == pair.subrange(0, 0));
        assert(pair.subrange(0, 2) =~= pair);
        assert(reversed_hex(pair) == pair.subrange(0, 2) + reversed_hex(pair.subrange(0, 0)));
        assert(reversed_hex(pair) =~= pair);
        assert(rest + pair =~= h);
    }
}

pub proof fn lemma_pow256_positive(w: nat)
    ensures
        pow256(w) > 0,
    decreases w,
{
    if w > 0 {
        lemma_pow256_positive((w - 1) as nat);
    }
}

/// Relies on hex::encode: two lowercase digits per byte, high digit first.
#[verifier::external_body]
pub(crate) fn to_hex(b: &[u8]) -> (r: String)
    ensures
        r@ == hex_of(b@),
{
    hex::encode(b)
}

/// Relies on hex::decode: it accepts exactly an even number of hex digits of
/// either case, and gives one byte per pair of digits.
#[verifier::external_body]
pub(crate) fn from_hex(s: &str) -> (r: Option<Vec<u8>>)
    ensures
        r is Some <==> is_hex(s@),
        r is Some ==> r->0@ == hex_decode(s@),
{
    hex::decode(s).ok()
}

/// Appends the bytes of `b` to `out`.
pub fn append_bytes(out: &mut Vec<u8>, b: &[u8])
    ensures
        final(out)@ == old(out)@ + b@,
{
    let mut i: usize = 0;
    while i < b.len()
        invariant
            0 <= i <= b.len(),
            out@ == old(out)@ + b@.subrange(0, i as int),
        decreases b.len() - i,
    {
        out.push(b[i]);
        i = i + 1;
        assert(b@.subrange(0, i as int) =~= b@.subrange(0, i - 1) + seq![b@[i - 1]]);
    }
    assert(b@.subrange(0, b.len() as int) =~= b@);
}

/// Appends the `w` low bytes of `n`, least significant first, and returns
/// what is left of `n` above them.
pub fn push_le(out: &mut Vec<u8>, n: u64, w: usize) -> (rest: u64)
    ensures
        final(out)@ == old(out)@ + le_bytes(n as nat, w as nat),
        rest as nat == n as nat / pow256(w as nat),
{
    let mut m: u64 = n;
    let mut k: usize = 0;
    assert(pow256(0) == 1);
    assert(n as nat / 1 == n as nat);
    while k < w
        invariant
            0 <= k <= w,
            m as nat == n as nat / pow256(k as nat),
            out@ + le_bytes(m as nat, (w - k) as nat) == old(out)@ + le_bytes(n as nat, w as nat),
        decreases w - k,
    {
        let ghost before = out@;
        out.push((m % 256) as u8);
        proof {
            lemma_pow256_positive(k as nat);
            lemma_div_denominator(n as int, pow256(k as nat) as int, 256);
            assert(pow256((k + 1) as nat) == 256 * pow256(k as nat));
            assert(le_bytes(m as nat, (w - k) as nat) == seq![(m as nat % 256) as u8] + le_bytes(
                m as nat / 256,
                (w - k - 1) as nat,
            ));
            assert(out@ + le_bytes(m as nat / 256, (w - k - 1) as nat) =~= before + le_bytes(
                m as nat,
                (w - k) as nat,
            ));
        }
        m = m / 256;
        k = k + 1;
    }
    assert(out@ + le_bytes(m as nat, 0) =~= out@);
    m
}

/// The hex text of `number` as `bytes` bytes, least significant first.
/// Fails with an encoding error when `number` does not fit in `bytes` bytes.
pub fn int_to_little_endian_hex(number: u64, bytes: usize) -> (r: Result<String, TransactionError>)
    ensures
        r is Ok <==> (number as nat) < pow256(bytes as nat),
        r matches Ok(s) ==> s@ == hex_of(le_bytes(number as nat, bytes as nat)),
        r matches Err(e) ==> e.kind == ErrorKind::EncodingError,
{
    let mut out: Vec<u8> = Vec::new();
    let rest = push_le(&mut out, number, bytes);
    proof {
        lemma_pow256_positive(bytes as nat);
        if (number as nat) < pow256(bytes as nat) {
            lemma_basic_div(number as int, pow256(bytes as nat) as int);
        } else {
            lemma_div_non_zero(number as int, pow256(bytes as nat) as int);
        }
    }
    if rest != 0 {
        return Err(TransactionError::new(ErrorKind::EncodingError));
    }
    Ok(to_hex(out.as_slice()))
}

/// Appends Bitcoin's variable-length encoding of `n`.
pub fn push_varint(out: &mut Vec<u8>, n: u64)
    ensures
        final(out)@ == old(out)@ + varint_bytes(n as nat),
{
    if n < 0xfd {
        out.push(n as u8);
    } else if n <= 0xffff {
        out.push(0xfd);
        push_le(out, n, 2);
    } else if n <= 0xffff_ffff {
        out.push(0xfe);
        push_le(out, n, 4);
    } else {
        out.push(0xff);
        push_le(out, n, 8);
    }
    assert(final(out)@ =~= old(out)@ + varint_bytes(n as nat));
}

/// The hex text of Bitcoin's variable-length encoding of `number`.
pub fn var_int_to_hex(number: u64) -> (r: String)
    ensures
        r@ == hex_of(varint_bytes(number as nat)),
{
    let mut out: Vec<u8> = Vec::new();
    push_varint(&mut out, number);
    assert(out@ =~= varint_bytes(number as nat));
    to_hex(out.as_slice())
}

/// The bytes of `b` in reverse order.
pub fn reverse_bytes(b: &[u8]) -> (r: Vec<u8>)
    ensures
        r@ == b@.reverse(),
{
    let mut out: Vec<u8> = Vec::new();
    let mut i: usize = b.len();
    while i > 0
        invariant
            0 <= i <= b.len(),
            out@.len() == b.len() - i,
            forall|j: int| 0 <= j < out@.len() ==> out@[j] == b@[b.len() - 1 - j],
        decreases i,
    {
        i = i - 1;
        out.push(b[i]);
    }
    assert(out@ =~= b@.reverse());
    out
}

/// Hex text with its digit pairs in reverse order, each pair kept as it is
/// (so the case of every digit is kept). Fails with an encoding error
/// on text of odd length or with a character that is no hex digit.
pub fn reverse_hex(hex: &str) -> (r: Result<String, TransactionError>)
    ensures
        r is Ok <==> is_hex(hex@),
        r matches Ok(s) ==> s@ == reversed_hex(hex@),
        r matches Err(e) ==> e.kind == ErrorKind::EncodingError,
{
    if from_hex(hex).is_none() {
        return Err(TransactionError::new(ErrorKind::EncodingError));
    }
    let ghost s = hex@;
    let n = hex.unicode_len();
    let mut out = String::new();
    let mut rem: usize = n;
    proof {
        assert(s.subrange(0, n as int) =~= s);
    }
    while rem >= 2
        invariant
            s == hex@,
            n == s.len(),
            n % 2 == 0,
            rem <= n,
            rem % 2 == 0,
            out@ + reversed_hex(s.subrange(0, rem as int)) == reversed_hex(s),
        decreases rem,
    {
        let pair = hex.substring_char(rem - 2, rem);
        let ghost before = out@;
        out.append(pair);
        proof {
            let t = s.subrange(0, rem as int);
            assert(t.subrange(t.len() - 2, t.len() as int) =~= pair@);
            assert(t.subrange(0, t.len() - 2) =~= s.subrange(0, rem - 2));
            assert(out@ + reversed_hex(s.subrange(0, rem - 2)) =~= before + reversed_hex(t));
        }
        rem = rem - 2;
    }
    assert(rem == 0);
    assert(out@ + reversed_hex(s.subrange(0, 0)) =~= out@);
    Ok(out)
}

} // verus!
