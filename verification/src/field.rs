use vstd::prelude::*;
use curv::arithmetic::Converter;
use curv::elliptic::curves::Secp256k1;
use crate::numbers::{be_value, BigNum};

verus! {

/// The order `n` of the secp256k1 group: scalars are integers modulo `n`.
pub open spec fn group_order() -> nat {
    0xFFFFFFFFFFFFFFFFFFFFFFFFFFFFFFFEBAAEDCE6AF48A03BBFD25E8CD0364141nat
}

/// An element of the scalar field of secp256k1: an integer `0 <= v < n`,
/// kept as its 32 big-endian bytes (the encoding `curv` uses).
#[derive(Clone, Copy, Debug, PartialEq, Eq)]
pub struct Scalar {
    pub(crate) bytes: [u8; 32],
}

impl View for Scalar {
    type V = nat;

    closed spec fn view(&self) -> nat {
        be_value(self.bytes@)
    }
}

impl Scalar {
    /// A scalar is below the group order.
    #[verifier::type_invariant]
    pub open spec fn wf(self) -> bool {
        self@ < group_order()
    }
}

pub(crate) fn to_array32(e: &[u8]) -> (r: [u8; 32])
    requires
        e@.len() == 32,
    ensures
        r@ == e@,
{
    let mut r = [0u8; 32];
    let mut i: usize = 0;
    while i < 32
        invariant
            i <= 32,
            e@.len() == 32,
            forall|j: int| 0 <= j < i ==> r@[j] == e@[j],
        decreases 32 - i,
    {
        r[i] = e[i];
        i += 1;
    }
    assert(r@ =~= e@);
    r
}

/// `Scalar::<Secp256k1>` addition.
/// Trusted: the sum modulo the group order, as curv documents for scalar arithmetic.
#[verifier::external_body]
fn curv_scalar_add(a: &[u8; 32], b: &[u8; 32]) -> (r: [u8; 32])
    requires
        be_value(a@) < group_order(),
        be_value(b@) < group_order(),
    ensures
        be_value(r@) == (be_value(a@) + be_value(b@)) % group_order(),
{
    let x = curv::elliptic::curves::Scalar::<Secp256k1>::from_bytes(a).unwrap();
    let y = curv::elliptic::curves::Scalar::<Secp256k1>::from_bytes(b).unwrap();
    to_array32(&(x + y).to_bytes())
}

/// `Scalar::<Secp256k1>` subtraction.
/// Trusted: the difference modulo the group order.
#[verifier::external_body]
fn curv_scalar_sub(a: &[u8; 32], b: &[u8; 32]) -> (r: [u8; 32])
    requires
        be_value(a@) < group_order(),
        be_value(b@) < group_order(),
    ensures
        be_value(r@) == (be_value(a@) + group_order() - be_value(b@)) % (group_order() as int),
{
    let x = curv::elliptic::curves::Scalar::<Secp256k1>::from_bytes(a).unwrap();
    let y = curv::elliptic::curves::Scalar::<Secp256k1>::from_bytes(b).unwrap();
    to_array32(&(x - y).to_bytes())
}

/// `Scalar::<Secp256k1>` multiplication.
/// Trusted: the product modulo the group order.
#[verifier::external_body]
fn curv_scalar_mul(a: &[u8; 32], b: &[u8; 32]) -> (r: [u8; 32])
    requires
        be_value(a@) < group_order(),
        be_value(b@) < group_order(),
    ensures
        be_value(r@) == (be_value(a@) * be_value(b@)) % group_order(),
{
    let x = curv::elliptic::curves::Scalar::<Secp256k1>::from_bytes(a).unwrap();
    let y = curv::elliptic::curves::Scalar::<Secp256k1>::from_bytes(b).unwrap();
    to_array32(&(x * y).to_bytes())
}

/// `Scalar::<Secp256k1>::invert`.
/// Trusted: as documented, `None` exactly for zero, otherwise the inverse modulo the
/// group order.
#[verifier::external_body]
fn curv_scalar_invert(a: &[u8; 32]) -> (r: Option<[u8; 32]>)
    requires
        be_value(a@) < group_order(),
    ensures
        r is None <==> be_value(a@) == 0,
        r matches Some(v) ==> be_value(v@) < group_order() && (be_value(v@) * be_value(a@))
            % group_order() == 1,
{
    let x = curv::elliptic::curves::Scalar::<Secp256k1>::from_bytes(a).unwrap();
    x.invert().map(|v| to_array32(&v.to_bytes()))
}

/// `Scalar::<Secp256k1>::from_bigint` on the non-negative integer with big-endian bytes `b`.
/// Trusted: as documented, the integer reduced modulo the group order.
#[verifier::external_body]
fn curv_scalar_from_bigint(b: &[u8]) -> (r: [u8; 32])
    ensures
        be_value(r@) == be_value(b@) % group_order(),
{
    let x = curv::elliptic::curves::Scalar::<Secp256k1>::from_bigint(&curv::BigInt::from_bytes(b));
    to_array32(&x.to_bytes())
}

/// `Scalar::<Secp256k1>::random`.
/// Trusted: as documented, a non-zero scalar; which one is left open.
#[verifier::external_body]
fn curv_scalar_random() -> (r: [u8; 32])
    ensures
        0 < be_value(r@) < group_order(),
{
    to_array32(&curv::elliptic::curves::Scalar::<Secp256k1>::random().to_bytes())
}

/// `Scalar::<Secp256k1>::from_bytes` on 32 big-endian bytes.
/// Trusted: accepted exactly when the value is below the group order.
#[verifier::external_body]
fn curv_scalar_from_bytes(b: &[u8; 32]) -> (r: bool)
    ensures
        r == (be_value(b@) < group_order()),
{
    curv::elliptic::curves::Scalar::<Secp256k1>::from_bytes(b).is_ok()
}

/// Scalars with equal values are equal.
pub proof fn lemma_scalar_view_injective(a: Scalar, b: Scalar)
    ensures
        a@ == b@ ==> a == b,
{
    lemma_be_value_injective_32(a.bytes@, b.bytes@);
    if a@ == b@ {
        assert(a.bytes@ == b.bytes@);
        assert(a.bytes =~= b.bytes);
    }
}

impl Scalar {
    /// The scalar with the given 32 big-endian bytes, which must encode a value below the
    /// group order.
    pub(crate) fn from_raw(b: [u8; 32]) -> (r: Scalar)
        requires
            be_value(b@) < group_order(),
        ensures
            r@ == be_value(b@),
            r.bytes == b,
    {
        Scalar { bytes: b }
    }

    /// The scalar zero.
    pub fn zero() -> (r: Scalar)
        ensures
            r@ == 0,
    {
        let bytes = [0u8; 32];
        proof {
            lemma_be_value_zeros(bytes@);
        }
        Scalar { bytes }
    }

    /// A random non-zero scalar (`Scalar::random`).
    pub fn random() -> (r: Scalar)
        ensures
            0 < r@ < group_order(),
    {
        Scalar { bytes: curv_scalar_random() }
    }

    /// The value below the group order, as 32 big-endian bytes.
    pub fn to_bytes(&self) -> (r: [u8; 32])
        ensures
            be_value(r@) == self@,
    {
        self.bytes
    }

    /// Decodes 32 big-endian bytes; `None` when the value is not below the group order.
    pub fn from_bytes(b: &[u8; 32]) -> (r: Option<Scalar>)
        ensures
            r is Some <==> be_value(b@) < group_order(),
            r matches Some(s) ==> s@ == be_value(b@),
    {
        if curv_scalar_from_bytes(b) {
            Some(Scalar { bytes: *b })
        } else {
            None
        }
    }

    /// The integer reduced modulo the group order (`Scalar::from_bigint`, `From<&BigInt>`).
    pub fn from_bignum(n: &BigNum) -> (r: Scalar)
        ensures
            r@ == n@ % group_order(),
    {
        let be = n.to_be_bytes();
        Scalar { bytes: curv_scalar_from_bigint(be.as_slice()) }
    }

    /// A small integer as a scalar (`From<u16>`).
    pub fn from_u16(v: u16) -> (r: Scalar)
        ensures
            r@ == v as nat,
    {
        let n = BigNum::from_u16(v);
        let r = Scalar::from_bignum(&n);
        assert(v < group_order());
        r
    }

    /// The value as an integer (`to_bigint`).
    pub fn to_bignum(&self) -> (r: BigNum)
        ensures
            r@ == self@,
    {
        BigNum::from_be_bytes(&self.bytes)
    }

    /// Whether the scalar is zero.
    pub fn is_zero(&self) -> (r: bool)
        ensures
            r == (self@ == 0),
    {
        let z = Scalar::zero();
        proof {
            lemma_be_value_injective_32(self.bytes@, z.bytes@);
        }
        crate::numbers::bytes_equal(&self.bytes, &z.bytes)
    }

    /// Whether two scalars are equal.
    pub fn equals(&self, other: &Scalar) -> (r: bool)
        ensures
            r == (self@ == other@),
    {
        proof {
            lemma_be_value_injective_32(self.bytes@, other.bytes@);
        }
        crate::numbers::bytes_equal(&self.bytes, &other.bytes)
    }

    /// Sum modulo the group order.
    pub fn add(&self, other: &Scalar) -> (r: Scalar)
        ensures
            r@ == (self@ + other@) % group_order(),
    {
        proof {
            use_type_invariant(self);
            use_type_invariant(other);
        }
        Scalar { bytes: curv_scalar_add(&self.bytes, &other.bytes) }
    }

    /// Difference modulo the group order.
    pub fn sub(&self, other: &Scalar) -> (r: Scalar)
        ensures
            r@ == (self@ + group_order() - other@) % (group_order() as int),
            r@ == (self@ - other@) % (group_order() as int),
    {
        proof {
            use_type_invariant(self);
            use_type_invariant(other);
        }
        let r = Scalar { bytes: curv_scalar_sub(&self.bytes, &other.bytes) };
        proof {
            let n = group_order() as int;
            vstd::arithmetic::div_mod::lemma_mod_add_multiples_vanish(self@ - other@, n);
        }
        r
    }

    /// Product modulo the group order.
    pub fn mul(&self, other: &Scalar) -> (r: Scalar)
        ensures
            r@ == (self@ * other@) % group_order(),
    {
        proof {
            use_type_invariant(self);
            use_type_invariant(other);
        }
        Scalar { bytes: curv_scalar_mul(&self.bytes, &other.bytes) }
    }

    /// Multiplicative inverse modulo the group order; `None` exactly for zero.
    pub fn invert(&self) -> (r: Option<Scalar>)
        ensures
            r is None <==> self@ == 0,
            r matches Some(v) ==> (v@ * self@) % group_order() == 1,
    {
        proof {
            use_type_invariant(self);
        }
        match curv_scalar_invert(&self.bytes) {
            Some(b) => Some(Scalar { bytes: b }),
            None => None,
        }
    }
}

/// Thirty-two zero bytes have value zero.
proof fn lemma_be_value_zeros(s: Seq<u8>)
    requires
        forall|i: int| 0 <= i < s.len() ==> s[i] == 0,
    ensures
        be_value(s) == 0,
    decreases s.len(),
{
    if s.len() > 0 {
        lemma_be_value_zeros(s.drop_last());
    }
}

/// Equal-length byte strings with equal big-endian values are equal.
proof fn lemma_be_value_injective_32(a: Seq<u8>, b: Seq<u8>)
    requires
        a.len() == b.len(),
    ensures
        be_value(a) == be_value(b) ==> a == b,
    decreases a.len(),
{
    if a.len() > 0 && be_value(a) == be_value(b) {
        lemma_be_value_injective_32(a.drop_last(), b.drop_last());
        assert(be_value(a.drop_last()) == be_value(b.drop_last()) && a.last() == b.last()) by (
        nonlinear_arith)
            requires
                be_value(a) == be_value(a.drop_last()) * 256 + a.last() as nat,
                be_value(b) == be_value(b.drop_last()) * 256 + b.last() as nat,
                be_value(a) == be_value(b),
                a.last() < 256,
                b.last() < 256,
        ;
        assert(a =~= b.drop_last().push(b.last())) by {
            assert(a =~= a.drop_last().push(a.last()));
        }
        assert(b =~= b.drop_last().push(b.last()));
    }
}

} // verus!
