use vstd::prelude::*;
use curv::arithmetic::Converter;

verus! {

/// The natural number whose big-endian base-256 digits are `s`.
pub open spec fn be_value(s: Seq<u8>) -> nat
    decreases s.len(),
{
    if s.len() == 0 {
        0
    } else {
        be_value(s.drop_last()) * 256 + s.last() as nat
    }
}

/// The decimal digit character for `d < 10`.
pub open spec fn decimal_digit(d: nat) -> char {
    (d + 48) as char
}

/// The shortest decimal representation of `v` (no sign, no leading zeros; "0" for zero).
pub open spec fn decimal_repr(v: nat) -> Seq<char>
    decreases v,
{
    if v < 10 {
        seq![decimal_digit(v)]
    } else {
        decimal_repr(v / 10).push(decimal_digit(v % 10))
    }
}

/// A fresh vector holding the bytes of `s`.
pub fn copy_bytes(s: &[u8]) -> (r: Vec<u8>)
    ensures
        r@ == s@,
{
    let mut r: Vec<u8> = Vec::new();
    let mut i: usize = 0;
    while i < s.len()
        invariant
            i <= s@.len(),
            r@ == s@.take(i as int),
        decreases s@.len() - i,
    {
        r.push(s[i]);
        assert(s@.take(i + 1) =~= s@.take(i as int).push(s@[i as int]));
        i += 1;
    }
    assert(s@.take(s@.len() as int) =~= s@);
    r
}

/// Whether two byte strings are identical.
pub fn bytes_equal(a: &[u8], b: &[u8]) -> (r: bool)
    ensures
        r == (a@ == b@),
{
    if a.len() != b.len() {
        return false;
    }
    let mut i: usize = 0;
    while i < a.len()
        invariant
            a@.len() == b@.len(),
            i <= a@.len(),
            forall|j: int| 0 <= j < i ==> a@[j] == b@[j],
        decreases a@.len() - i,
    {
        if a[i] != b[i] {
            return false;
        }
        i += 1;
    }
    assert(a@ =~= b@);
    true
}

/// `s` without the one leading `+` that `BigUint`'s parser skips (it keeps it when a second
/// `+` follows).
pub open spec fn unsigned_part(s: Seq<char>) -> Seq<char> {
    if s.len() > 0 && s[0] == '+' && !(s.len() > 1 && s[1] == '+') {
        s.drop_first()
    } else {
        s
    }
}

/// A decimal digit or the separator `_`.
pub open spec fn is_decimal_char(c: char) -> bool {
    (48 <= c as int && c as int <= 57) || c == '_'
}

/// Whether `str::parse::<BigUint>` accepts `s`: after the optional `+`, a non-empty run of
/// decimal digits and `_` that does not start with `_`.
pub open spec fn is_decimal_text(s: Seq<char>) -> bool {
    let d = unsigned_part(s);
    &&& d.len() > 0
    &&& d[0] != '_'
    &&& forall|i: int| 0 <= i < d.len() ==> is_decimal_char(#[trigger] d[i])
}

/// The value of decimal digits, `_` skipped.
pub open spec fn digits_value(d: Seq<char>) -> nat
    decreases d.len(),
{
    if d.len() == 0 {
        0
    } else if d.last() == '_' {
        digits_value(d.drop_last())
    } else {
        digits_value(d.drop_last()) * 10 + (d.last() as int - 48) as nat
    }
}

/// The value of an accepted decimal text.
pub open spec fn decimal_text_value(s: Seq<char>) -> nat {
    digits_value(unsigned_part(s))
}

/// `str::parse::<num_bigint::BigUint>`, the value as big-endian bytes.
/// Trusted, as num-bigint's `from_str_radix` shows: the text is accepted exactly when, after
/// one leading `+` (not followed by another), it is non-empty, does not start with `_` and
/// holds only decimal digits and `_`; the value is that of the digits, `_` skipped.
#[verifier::external_body]
fn biguint_parse_decimal(s: &str) -> (r: Option<Vec<u8>>)
    ensures
        r is Some <==> is_decimal_text(s@),
        r matches Some(b) ==> be_value(b@) == decimal_text_value(s@),
{
    match s.parse::<num_bigint::BigUint>() {
        Ok(v) => Some(v.to_bytes_be()),
        Err(_) => None,
    }
}

/// A non-negative integer of any size, kept as big-endian bytes.
/// The protocol's integers (hash values, scalar values, their sums and indices) are
/// never negative.
#[derive(Clone, Debug)]
pub struct BigNum {
    pub(crate) be: Vec<u8>,
}

impl View for BigNum {
    type V = nat;

    closed spec fn view(&self) -> nat {
        be_value(self.be@)
    }
}

/// `curv::BigInt` addition of two non-negative integers given by big-endian bytes.
/// Trusted: the sum is exact.
#[verifier::external_body]
fn curv_bigint_add(a: &[u8], b: &[u8]) -> (r: Vec<u8>)
    ensures
        be_value(r@) == be_value(a@) + be_value(b@),
{
    let x = curv::BigInt::from_bytes(a);
    let y = curv::BigInt::from_bytes(b);
    (x + y).to_bytes()
}

/// `curv::BigInt` equality of two non-negative integers given by big-endian bytes.
/// Trusted: true exactly when the values are equal.
#[verifier::external_body]
fn curv_bigint_eq(a: &[u8], b: &[u8]) -> (r: bool)
    ensures
        r == (be_value(a@) == be_value(b@)),
{
    curv::BigInt::from_bytes(a) == curv::BigInt::from_bytes(b)
}

/// `curv::BigInt`'s `to_string` (decimal) of a non-negative integer.
/// Trusted: the text is the shortest decimal representation of the value.
#[verifier::external_body]
fn curv_bigint_decimal(a: &[u8]) -> (r: String)
    ensures
        r@ == decimal_repr(be_value(a@)),
{
    curv::BigInt::from_bytes(a).to_string()
}

/// `curv::BigInt::from_hex` on a non-empty string of hex digits.
/// Trusted: the value is the number that the digits denote.
#[verifier::external_body]
fn curv_bigint_from_hex(s: &str) -> (r: Vec<u8>)
    requires
        s@.len() > 0,
        crate::hex::is_hex_text(s@),
    ensures
        be_value(r@) == crate::hex::hex_value(s@),
{
    curv::BigInt::from_hex(s).unwrap().to_bytes()
}

impl BigNum {
    /// Zero.
    pub fn zero() -> (r: BigNum)
        ensures
            r@ == 0,
    {
        BigNum { be: Vec::new() }
    }

    /// The integer whose big-endian bytes are `bytes`.
    pub fn from_be_bytes(bytes: &[u8]) -> (r: BigNum)
        ensures
            r@ == be_value(bytes@),
    {
        BigNum { be: copy_bytes(bytes) }
    }

    /// A small integer.
    pub fn from_u16(v: u16) -> (r: BigNum)
        ensures
            r@ == v as nat,
    {
        let mut be: Vec<u8> = Vec::new();
        be.push((v / 256) as u8);
        be.push((v % 256) as u8);
        proof {
            assert(be@.drop_last() =~= seq![(v / 256) as u8]);
            assert(seq![(v / 256) as u8].drop_last() =~= Seq::<u8>::empty());
            assert(be_value(Seq::<u8>::empty()) == 0);
            assert(seq![(v / 256) as u8].last() == (v / 256) as u8);
            assert(be_value(seq![(v / 256) as u8]) == (v / 256) as nat);
            assert(be_value(be@) == ((v / 256) as nat) * 256 + (v % 256) as nat);
        }
        BigNum { be }
    }

    /// Big-endian bytes of the value (possibly with leading zeros).
    pub fn to_be_bytes(&self) -> (r: Vec<u8>)
        ensures
            be_value(r@) == self@,
    {
        self.be.clone()
    }

    /// A copy of the integer.
    pub fn copy(&self) -> (r: BigNum)
        ensures
            r@ == self@,
    {
        BigNum { be: self.be.clone() }
    }

    /// Sum of two integers.
    pub fn add(&self, other: &BigNum) -> (r: BigNum)
        ensures
            r@ == self@ + other@,
    {
        BigNum { be: curv_bigint_add(self.be.as_slice(), other.be.as_slice()) }
    }

    /// Whether two integers are equal.
    pub fn equals(&self, other: &BigNum) -> (r: bool)
        ensures
            r == (self@ == other@),
    {
        curv_bigint_eq(self.be.as_slice(), other.be.as_slice())
    }

    /// Decimal text of the integer (`to_string`).
    pub fn to_decimal(&self) -> (r: String)
        ensures
            r@ == decimal_repr(self@),
    {
        curv_bigint_decimal(self.be.as_slice())
    }

    /// The integer that a decimal text denotes, as `BigUint`'s parser reads it; `None` when
    /// the parser refuses the text.
    pub fn parse_decimal(s: &str) -> (r: Option<BigNum>)
        ensures
            r is Some <==> is_decimal_text(s@),
            r matches Some(v) ==> v@ == decimal_text_value(s@),
    {
        match biguint_parse_decimal(s) {
            Some(b) => Some(BigNum { be: b }),
            None => None,
        }
    }

    /// The integer that a non-empty string of hex digits denotes (`BigInt::from_hex`).
    pub fn from_hex(s: &str) -> (r: BigNum)
        requires
            s@.len() > 0,
            crate::hex::is_hex_text(s@),
        ensures
            r@ == crate::hex::hex_value(s@),
    {
        BigNum { be: curv_bigint_from_hex(s) }
    }
}

} // verus!
