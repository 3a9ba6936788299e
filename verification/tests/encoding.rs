use gs_tbk::dch::ch;
use gs_tbk::digest::{hash_to_bignum, sha256_hex};
use gs_tbk::hex::{encode_lower, encode_upper};
use gs_tbk::kjg::{cl, code};
use gs_tbk::numbers::BigNum;

#[test]
fn to_hex_is_upper_case_two_digits_per_byte() {
    let data = [0x01u8, 0xab, 0xff, 0x00, 0x5c];
    assert_eq!(ch::to_hex(&data), "01ABFF005C");
    assert_eq!(code::to_hex(&data), "01ABFF005C");
    assert_eq!(cl::to_hex(&data), "01ABFF005C");
    assert_eq!(gs_tbk::dch::node::Node::to_hex(&data), "01ABFF005C");
    assert_eq!(gs_tbk::dch::proxy::Proxy::to_hex(&data), "01ABFF005C");
    assert_eq!(ch::to_hex(&[]), "");
    assert_eq!(encode_upper(&[0x0f, 0xf0]), "0FF0");
    assert_eq!(encode_lower(&[0x0f, 0xf0]), "0ff0");
}

#[test]
fn sha256_known_digests() {
    assert_eq!(
        ch::sha256("abc"),
        "ba7816bf8f01cfea414140de5dae2223b00361a396177a9cb410ff61f20015ad"
    );
    assert_eq!(
        code::sha256(""),
        "e3b0c44298fc1c149afbf4c8996fb92427ae41e4649b934ca495991b7852b855"
    );
    assert_eq!(
        sha256_hex("abc"),
        "ba7816bf8f01cfea414140de5dae2223b00361a396177a9cb410ff61f20015ad"
    );
    assert_eq!(gs_tbk::dch::node::Node::sha256("abc"), ch::sha256("abc"));
    assert_eq!(gs_tbk::dch::proxy::Proxy::sha256("abc"), ch::sha256("abc"));
}

#[test]
fn hash_to_bignum_reads_the_digest() {
    let n = hash_to_bignum("abc");
    let expected = BigNum::from_hex(
        "ba7816bf8f01cfea414140de5dae2223b00361a396177a9cb410ff61f20015ad",
    );
    assert!(n.equals(&expected));
    assert_eq!(
        n.to_decimal(),
        "84342368487090800366523834928142263660104883695016514377462985829716817089965"
    );
}

#[test]
fn bignum_hex_and_decimal() {
    assert_eq!(BigNum::from_hex("ff").to_decimal(), "255");
    assert_eq!(BigNum::from_hex("FF").to_decimal(), "255");
    assert_eq!(BigNum::from_hex("0").to_decimal(), "0");
    assert_eq!(BigNum::from_hex("0100").to_decimal(), "256");
    assert_eq!(BigNum::zero().to_decimal(), "0");
    assert_eq!(BigNum::from_u16(65535).to_decimal(), "65535");
    let a = BigNum::from_hex("ffffffffffffffffffffffffffffffff");
    let b = BigNum::from_u16(1);
    assert_eq!(a.add(&b).to_decimal(), "340282366920938463463374607431768211456");
    assert!(BigNum::from_be_bytes(&[0, 0, 1]).equals(&BigNum::from_u16(1)));
    assert!(!BigNum::from_u16(2).equals(&BigNum::from_u16(3)));
    assert_eq!(BigNum::from_u16(258).to_be_bytes(), vec![1, 2]);
}

#[test]
fn decimal_parsing_follows_biguint() {
    let cases: [(&str, Option<&str>); 10] = [
        ("123", Some("123")),
        ("+42", Some("42")),
        ("1_000", Some("1000")),
        ("007", Some("7")),
        ("++1", None),
        ("_1", None),
        ("", None),
        ("+", None),
        ("12a", None),
        ("-5", None),
    ];
    for (text, expected) in cases.iter() {
        let got = BigNum::parse_decimal(text).map(|v| v.to_decimal());
        assert_eq!(got.as_deref(), *expected, "text {:?}", text);
    }
}

#[test]
fn upper_hex_tells_byte_strings_apart() {
    let pairs: [(&[u8], &[u8]); 4] =
        [(&[0x0a], &[0xa0]), (&[0x01, 0x10], &[0x11, 0x00]), (&[0xff], &[0xfe]), (&[], &[0x00])];
    for (a, b) in pairs.iter() {
        assert_ne!(encode_upper(a), encode_upper(b));
    }
    assert_eq!(encode_upper(&[0x0a]), "0A");
    assert_eq!(encode_upper(&[0xa0]), "A0");
}
