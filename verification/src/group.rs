use vstd::prelude::*;
use curv::elliptic::curves::Secp256k1;
use crate::field::{group_order, Scalar};

verus! {

/// Whether `curv::elliptic::curves::Point::<Secp256k1>::from_bytes` accepts the bytes.
pub uninterp spec fn spec_point_valid(encoding: Seq<u8>) -> bool;

/// Compressed encoding of the sum of two points (`Point + Point` in curv).
pub uninterp spec fn spec_point_add(a: Seq<u8>, b: Seq<u8>) -> Seq<u8>;

/// Compressed encoding of the difference of two points (`Point - Point` in curv).
pub uninterp spec fn spec_point_sub(a: Seq<u8>, b: Seq<u8>) -> Seq<u8>;

/// Compressed encoding of a point times a scalar value (`Point * Scalar` in curv).
pub uninterp spec fn spec_point_mul(p: Seq<u8>, k: nat) -> Seq<u8>;

/// Compressed encoding of the secp256k1 generator `G`.
pub open spec fn generator_encoding() -> Seq<u8> {
    seq![0x02u8, 0x79u8, 0xbeu8, 0x66u8, 0x7eu8, 0xf9u8, 0xdcu8, 0xbbu8, 0xacu8, 0x55u8, 0xa0u8, 0x62u8, 0x95u8, 0xceu8, 0x87u8, 0x0bu8, 0x07u8, 0x02u8, 0x9bu8, 0xfcu8, 0xdbu8, 0x2du8, 0xceu8, 0x28u8, 0xd9u8, 0x59u8, 0xf2u8, 0x81u8, 0x5bu8, 0x16u8, 0xf8u8, 0x17u8, 0x98u8]
}

/// Compressed encoding of curv's second generator `H` (`Point::base_point2`).
pub open spec fn base_point2_encoding() -> Seq<u8> {
    seq![0x02u8, 0x08u8, 0xd1u8, 0x32u8, 0x21u8, 0xe3u8, 0xa7u8, 0x32u8, 0x6au8, 0x34u8, 0xddu8, 0x45u8, 0x21u8, 0x4bu8, 0xa8u8, 0x01u8, 0x16u8, 0xddu8, 0x14u8, 0x2eu8, 0x4bu8, 0x5fu8, 0xf3u8, 0xceu8, 0x66u8, 0xa8u8, 0xdcu8, 0x7bu8, 0xfau8, 0x03u8, 0x78u8, 0xb7u8, 0x95u8]
}

/// Encoding of the zero point (33 zero bytes).
pub open spec fn zero_encoding() -> Seq<u8> {
    Seq::new(33, |i: int| 0u8)
}

/// The point `d * G`, for any integer `d` (taken modulo the group order).
pub open spec fn gen_pow(d: int) -> Seq<u8> {
    spec_point_mul(generator_encoding(), (d % (group_order() as int)) as nat)
}

/// A point of secp256k1 (or the zero point), kept in curv's 33-byte compressed encoding.
#[derive(Clone, Copy, Debug)]
pub struct Point {
    pub(crate) bytes: [u8; 33],
}

impl View for Point {
    type V = Seq<u8>;

    closed spec fn view(&self) -> Seq<u8> {
        self.bytes@
    }
}

impl Point {
    /// A point is a valid curv encoding of a multiple of the generator.
    #[verifier::type_invariant]
    pub open spec fn wf(self) -> bool {
        spec_point_valid(self@) && exists|d: int| self@ == gen_pow(d)
    }
}

fn to_array33(e: &[u8]) -> (r: [u8; 33])
    requires
        e@.len() == 33,
    ensures
        r@ == e@,
{
    let mut r = [0u8; 33];
    let mut i: usize = 0;
    while i < 33
        invariant
            i <= 33,
            e@.len() == 33,
            forall|j: int| 0 <= j < i ==> r@[j] == e@[j],
        decreases 33 - i,
    {
        r[i] = e[i];
        i += 1;
    }
    assert(r@ =~= e@);
    r
}

/// `Point::<Secp256k1>::generator()` in compressed encoding.
/// Trusted: the standard secp256k1 generator, which is `1 * G`; `G` has the prime order `n`,
/// so its multiples `0 * G, .., (n - 1) * G` are distinct points, with distinct encodings.
#[verifier::external_body]
fn curv_generator() -> (r: [u8; 33])
    ensures
        r@ == generator_encoding(),
        r@ == gen_pow(1),
        spec_point_valid(r@),
        forall|a: nat, b: nat|
            #![trigger spec_point_mul(r@, a), spec_point_mul(r@, b)]
            a < group_order() && b < group_order() && spec_point_mul(r@, a) == spec_point_mul(
                r@,
                b,
            ) ==> a == b,
{
    to_array33(&curv::elliptic::curves::Point::<Secp256k1>::generator().to_point().to_bytes(true))
}

/// `Point::<Secp256k1>::base_point2()` in compressed encoding.
/// Trusted: curv's fixed second generator (its coordinates are in curv's source); as a point
/// of the prime-order group it is some multiple of `G`, whose factor nobody knows.
#[verifier::external_body]
fn curv_base_point2() -> (r: [u8; 33])
    ensures
        r@ == base_point2_encoding(),
        exists|h: int| r@ == gen_pow(h),
        spec_point_valid(r@),
{
    to_array33(&curv::elliptic::curves::Point::<Secp256k1>::base_point2().to_bytes(true))
}

/// `Point::<Secp256k1>::zero()` in compressed encoding.
/// Trusted: 33 zero bytes (curv's encoding of the neutral element), which is `0 * G`.
#[verifier::external_body]
fn curv_zero() -> (r: [u8; 33])
    ensures
        r@ == zero_encoding(),
        r@ == gen_pow(0),
        spec_point_valid(r@),
{
    to_array33(&curv::elliptic::curves::Point::<Secp256k1>::zero().to_bytes(true))
}

/// `Point + Point`.
/// Trusted: the result is named `spec_point_add`; it decodes again; and, the group being
/// cyclic, the sum of `x * G` and `y * G` is `(x + y) * G`.
#[verifier::external_body]
fn curv_add(a: &[u8; 33], b: &[u8; 33]) -> (r: [u8; 33])
    requires
        spec_point_valid(a@),
        spec_point_valid(b@),
    ensures
        r@ == spec_point_add(a@, b@),
        spec_point_valid(r@),
        forall|x: int, y: int|
            #![trigger gen_pow(x), gen_pow(y)]
            a@ == gen_pow(x) && b@ == gen_pow(y) ==> r@ == gen_pow(x + y),
{
    let p = curv::elliptic::curves::Point::<Secp256k1>::from_bytes(a).unwrap();
    let q = curv::elliptic::curves::Point::<Secp256k1>::from_bytes(b).unwrap();
    to_array33(&(p + q).to_bytes(true))
}

/// `Point - Point`.
/// Trusted: the result is named `spec_point_sub`; it decodes again; and the difference of
/// `x * G` and `y * G` is `(x - y) * G`.
#[verifier::external_body]
fn curv_sub(a: &[u8; 33], b: &[u8; 33]) -> (r: [u8; 33])
    requires
        spec_point_valid(a@),
        spec_point_valid(b@),
    ensures
        r@ == spec_point_sub(a@, b@),
        spec_point_valid(r@),
        forall|x: int, y: int|
            #![trigger gen_pow(x), gen_pow(y)]
            a@ == gen_pow(x) && b@ == gen_pow(y) ==> r@ == gen_pow(x - y),
{
    let p = curv::elliptic::curves::Point::<Secp256k1>::from_bytes(a).unwrap();
    let q = curv::elliptic::curves::Point::<Secp256k1>::from_bytes(b).unwrap();
    to_array33(&(p - q).to_bytes(true))
}

/// `Point * Scalar`.
/// Trusted: the result is named `spec_point_mul` of the point and the scalar's value; it
/// decodes again; and `k` times `x * G` is `(x * k) * G`.
#[verifier::external_body]
fn curv_mul(p: &[u8; 33], k: &[u8; 32]) -> (r: [u8; 33])
    requires
        spec_point_valid(p@),
        crate::numbers::be_value(k@) < group_order(),
    ensures
        r@ == spec_point_mul(p@, crate::numbers::be_value(k@)),
        spec_point_valid(r@),
        forall|x: int|
            #![trigger gen_pow(x)]
            p@ == gen_pow(x) ==> r@ == gen_pow(x * crate::numbers::be_value(k@)),
{
    let q = curv::elliptic::curves::Point::<Secp256k1>::from_bytes(p).unwrap();
    let s = curv::elliptic::curves::Scalar::<Secp256k1>::from_bytes(k).unwrap();
    to_array33(&(q * s).to_bytes(true))
}

/// `Point::<Secp256k1>::from_bytes` followed by `to_bytes(true)`.
/// Trusted: decoding succeeds exactly when `spec_point_valid` holds; a decoded point is a
/// multiple of `G` (the group has prime order); a compressed encoding comes back unchanged.
#[verifier::external_body]
fn curv_decode(b: &[u8]) -> (r: Option<[u8; 33]>)
    ensures
        r is Some <==> spec_point_valid(b@),
        r matches Some(e) ==> spec_point_valid(e@) && (exists|d: int| e@ == gen_pow(d)) && (
        b@.len() == 33 ==> e@ == b@),
{
    match curv::elliptic::curves::Point::<Secp256k1>::from_bytes(b) {
        Ok(p) => Some(to_array33(&p.to_bytes(true))),
        Err(_) => None,
    }
}

impl Point {
    /// The generator `G` (`Point::generator`).
    pub fn generator() -> (r: Point)
        ensures
            r@ == gen_pow(1),
            r@ == generator_encoding(),
            forall|x: int, y: int|
                #![trigger gen_pow(x), gen_pow(y)]
                gen_pow(x) == gen_pow(y) <==> x % (group_order() as int) == y % (
                group_order() as int),
    {
        let bytes = curv_generator();
        proof {
            let n = group_order() as int;
            assert forall|x: int, y: int| #![trigger gen_pow(x), gen_pow(y)] gen_pow(x) == gen_pow(y)
                implies x % n == y % n by {
                let (a, b) = ((x % n) as nat, (y % n) as nat);
                assert(spec_point_mul(bytes@, a) == spec_point_mul(bytes@, b));
            }
        }
        Point { bytes }
    }

    /// The second generator `H` (`Point::base_point2`).
    pub fn base_point2() -> (r: Point)
        ensures
            r@ == base_point2_encoding(),
    {
        Point { bytes: curv_base_point2() }
    }

    /// The zero point (`Point::zero`).
    pub fn zero() -> (r: Point)
        ensures
            r@ == gen_pow(0),
            r@ == zero_encoding(),
    {
        Point { bytes: curv_zero() }
    }

    /// Sum of two points.
    pub fn add(&self, other: &Point) -> (r: Point)
        ensures
            r@ == spec_point_add(self@, other@),
            forall|x: int, y: int|
                #![trigger gen_pow(x), gen_pow(y)]
                self@ == gen_pow(x) && other@ == gen_pow(y) ==> r@ == gen_pow(x + y),
    {
        proof {
            use_type_invariant(self);
            use_type_invariant(other);
        }
        let b = curv_add(&self.bytes, &other.bytes);
        proof {
            let x = choose|x: int| self@ == gen_pow(x);
            let y = choose|y: int| other@ == gen_pow(y);
            assert(b@ == gen_pow(x + y));
        }
        Point { bytes: b }
    }

    /// Difference of two points.
    pub fn sub(&self, other: &Point) -> (r: Point)
        ensures
            r@ == spec_point_sub(self@, other@),
            forall|x: int, y: int|
                #![trigger gen_pow(x), gen_pow(y)]
                self@ == gen_pow(x) && other@ == gen_pow(y) ==> r@ == gen_pow(x - y),
    {
        proof {
            use_type_invariant(self);
            use_type_invariant(other);
        }
        let b = curv_sub(&self.bytes, &other.bytes);
        proof {
            let x = choose|x: int| self@ == gen_pow(x);
            let y = choose|y: int| other@ == gen_pow(y);
            assert(b@ == gen_pow(x - y));
        }
        Point { bytes: b }
    }

    /// The point times a scalar.
    pub fn mul(&self, k: &Scalar) -> (r: Point)
        ensures
            r@ == spec_point_mul(self@, k@),
            forall|x: int| #![trigger gen_pow(x)] self@ == gen_pow(x) ==> r@ == gen_pow(x * k@),
    {
        proof {
            use_type_invariant(self);
            use_type_invariant(k);
        }
        let kb = k.to_bytes();
        let b = curv_mul(&self.bytes, &kb);
        proof {
            let x = choose|x: int| self@ == gen_pow(x);
            assert(b@ == gen_pow(x * k@));
        }
        Point { bytes: b }
    }

    /// The compressed encoding (`to_bytes(true)`).
    pub fn to_bytes(&self) -> (r: [u8; 33])
        ensures
            r@ == self@,
    {
        self.bytes
    }

    /// Decodes a compressed or uncompressed encoding (`Point::from_bytes`).
    pub fn from_bytes(b: &[u8]) -> (r: Option<Point>)
        ensures
            r is Some <==> spec_point_valid(b@),
            r matches Some(p) ==> (b@.len() == 33 ==> p@ == b@),
    {
        match curv_decode(b) {
            Some(e) => Some(Point { bytes: e }),
            None => None,
        }
    }

    /// Whether two points are equal: curv compares the points, and the compressed encoding
    /// of a point is unique, so this compares encodings.
    pub fn equals(&self, other: &Point) -> (r: bool)
        ensures
            r == (self@ == other@),
    {
        crate::numbers::bytes_equal(&self.bytes, &other.bytes)
    }

    /// Every point is some multiple of the generator.
    pub fn has_dlog(&self) -> (r: Ghost<int>)
        ensures
            self@ == gen_pow(r@),
    {
        proof {
            use_type_invariant(self);
        }
        Ghost(choose|d: int| self@ == gen_pow(d))
    }
}

} // verus!
