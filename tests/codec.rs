use p2pkh_tx::{double_sha256, int_to_little_endian_hex, reverse_hex, var_int_to_hex, ErrorKind};

#[test]
fn var_int_single_byte() {
    assert_eq!(var_int_to_hex(0), "00");
    assert_eq!(var_int_to_hex(252), "fc");
}

#[test]
fn var_int_two_bytes() {
    assert_eq!(var_int_to_hex(253), "fdfd00");
    assert_eq!(var_int_to_hex(255), "fdff00");
    assert_eq!(var_int_to_hex(0xffff), "fdffff");
}

#[test]
fn var_int_four_bytes() {
    assert_eq!(var_int_to_hex(0x1_0000), "fe00000100");
    assert_eq!(var_int_to_hex(65536), "fe00000100");
    assert_eq!(var_int_to_hex(0xffff_ffff), "feffffffff");
}

#[test]
fn var_int_eight_bytes() {
    assert_eq!(var_int_to_hex(0x1_0000_0000), "ff0000000001000000");
    assert_eq!(var_int_to_hex(u64::MAX), "ffffffffffffffffff");
}

#[test]
fn little_endian_examples() {
    assert_eq!(int_to_little_endian_hex(1, 4).unwrap(), "01000000");
    assert_eq!(int_to_little_endian_hex(256, 2).unwrap(), "0001");
    assert_eq!(int_to_little_endian_hex(1234, 2).unwrap(), "d204");
    assert_eq!(int_to_little_endian_hex(0, 0).unwrap(), "");
    assert_eq!(int_to_little_endian_hex(u64::MAX, 8).unwrap(), "ffffffffffffffff");
    assert_eq!(int_to_little_endian_hex(5, 10).unwrap(), "05000000000000000000");
}

#[test]
fn little_endian_overflow() {
    assert_eq!(int_to_little_endian_hex(256, 1).unwrap_err().kind, ErrorKind::EncodingError);
    assert_eq!(int_to_little_endian_hex(0x1_0000, 2).unwrap_err().kind, ErrorKind::EncodingError);
    assert_eq!(int_to_little_endian_hex(1, 0).unwrap_err().kind, ErrorKind::EncodingError);
    assert_eq!(int_to_little_endian_hex(0xffff, 2).unwrap(), "ffff");
}

#[test]
fn reverse_hex_reverses_bytes_not_characters() {
    assert_eq!(reverse_hex("1234").unwrap(), "3412");
    assert_eq!(reverse_hex("").unwrap(), "");
    assert_eq!(reverse_hex("abcdef").unwrap(), "efcdab");
}

#[test]
fn reverse_hex_twice_is_identity() {
    let h = "00112233445566778899aabbccddeeff";
    let once = reverse_hex(h).unwrap();
    assert_eq!(once, "ffeeddccbbaa99887766554433221100");
    assert_eq!(reverse_hex(&once).unwrap(), h);
}

#[test]
fn reverse_hex_rejects_odd_length_and_non_hex() {
    assert_eq!(reverse_hex("123").unwrap_err().kind, ErrorKind::EncodingError);
    assert_eq!(reverse_hex("zz").unwrap_err().kind, ErrorKind::EncodingError);
}

#[test]
fn reverse_hex_keeps_the_case_of_each_pair() {
    assert_eq!(reverse_hex("ABcd").unwrap(), "cdAB");
    assert_eq!(reverse_hex("ABCD").unwrap(), "CDAB");
    assert_eq!(reverse_hex("AB").unwrap(), "AB");
    assert_eq!(reverse_hex(&reverse_hex("0aB1Cd").unwrap()).unwrap(), "0aB1Cd");
}

#[test]
fn double_sha256_of_empty_input() {
    let expected = "5df6e0e2761359d30a8275058e299fcc0381534545f55cf43e41983f5d4c9456";
    assert_eq!(hex::encode(double_sha256(&[])), expected);
}

#[test]
fn double_sha256_of_hello() {
    let expected = "9595c9df90075148eb06860365df33584b75bff782a510c6cd4883a419833d50";
    assert_eq!(hex::encode(double_sha256(b"hello")), expected);
}
