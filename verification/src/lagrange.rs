use vstd::prelude::*;
use vstd::arithmetic::div_mod::*;
use vstd::arithmetic::mul::*;
use crate::field::{group_order, Scalar};
use crate::numbers::BigNum;

verus! {

/// The integers held by a sequence of `BigNum`s.
pub open spec fn values(s: Seq<BigNum>) -> Seq<nat> {
    s.map_values(|b: BigNum| b@)
}

/// Numerator of the Lagrange coefficient at zero of `index` over the points `s`:
/// the product, modulo the group order, of every point (reduced) that differs from `index`.
pub open spec fn lagrange_num(index: nat, s: Seq<nat>) -> nat
    decreases s.len(),
{
    if s.len() == 0 {
        1
    } else {
        let r = lagrange_num(index, s.drop_last());
        if s.last() != index {
            (r * (s.last() % group_order())) % group_order()
        } else {
            r
        }
    }
}

/// Denominator of the Lagrange coefficient at zero of `index` over the points `s`:
/// the product, modulo the group order, of `x_j - x_index` over every point that differs
/// from `index`.
pub open spec fn lagrange_den(index: nat, s: Seq<nat>) -> nat
    decreases s.len(),
{
    if s.len() == 0 {
        1
    } else {
        let r = lagrange_den(index, s.drop_last());
        if s.last() != index {
            (r * ((((s.last() % group_order()) as int) - ((index % group_order()) as int)) % (
            group_order() as int)) as nat) % group_order()
        } else {
            r
        }
    }
}

/// `v` is an inverse of `a` modulo the group order.
pub open spec fn is_inverse(v: nat, a: nat) -> bool {
    v < group_order() && (v * a) % group_order() == 1
}

/// The inverse of `a` modulo the group order (an unspecified value when there is none).
pub open spec fn inverse_of(a: nat) -> nat {
    choose|v: nat| #[trigger] is_inverse(v, a)
}

/// The Lagrange coefficient at zero of `index` over the points `s`: the numerator times the
/// inverse of the denominator, modulo the group order.
pub open spec fn lagrange_value(index: nat, s: Seq<nat>) -> nat {
    (lagrange_num(index, s) * inverse_of(lagrange_den(index, s))) % group_order()
}

/// An inverse modulo the group order is unique.
proof fn lemma_inverse_unique(a: nat, v: nat, w: nat)
    requires
        v < group_order(),
        w < group_order(),
        (v * a) % group_order() == 1,
        (w * a) % group_order() == 1,
    ensures
        v == w,
{
    let n = group_order() as int;
    lemma_mul_is_commutative(a as int, w as int);
    lemma_mul_mod_noop_right(v as int, (a * w) as int, n);
    lemma_mul_is_associative(v as int, a as int, w as int);
    lemma_mul_mod_noop_left((v * a) as int, w as int, n);
    lemma_small_mod(v, n as nat);
    lemma_small_mod(w, n as nat);
    lemma_mul_basics(v as int);
    lemma_mul_basics(w as int);
}

proof fn lemma_mod_mul_cancel(a: int, b: int, c: int, n: int)
    requires
        n > 0,
        (c * b) % n == 1,
    ensures
        (((a * c) % n) * b) % n == a % n,
{
    lemma_mul_mod_noop_left(a * c, b, n);
    lemma_mul_is_associative(a, c, b);
    lemma_mul_mod_noop_right(a, c * b, n);
    lemma_mul_basics(a);
}

/// The denominator of the Lagrange coefficient at zero of the point `index` over the points
/// `s`: the product, modulo the group order, of `x_j - x_index` over the points that differ
/// from `index`.
pub fn lagrange_denominator(index: &BigNum, s: &[BigNum]) -> (r: Scalar)
    ensures
        r@ == lagrange_den(index@, values(s@)),
{
    let ghost vals = values(s@);
    let s_len = s.len();
    let xi = Scalar::from_bignum(index);
    let mut den = Scalar::from_u16(1);
    let mut i: usize = 0;
    while i < s_len
        invariant
            s_len == s@.len(),
            vals == values(s@),
            i <= s_len,
            xi@ == index@ % group_order(),
            den@ == lagrange_den(index@, vals.take(i as int)),
        decreases s_len - i,
    {
        let point = Scalar::from_bignum(&s[i]);
        assert(vals.take(i + 1).drop_last() =~= vals.take(i as int));
        assert(vals.take(i + 1).last() == s@[i as int]@);
        if !s[i].equals(index) {
            let diff = point.sub(&xi);
            den = den.mul(&diff);
        }
        i += 1;
    }
    assert(vals.take(s_len as int) =~= vals);
    den
}

/// The Lagrange coefficient at zero of the point `index` over the points `s`:
/// `prod_{j: s_j != index} x_j / prod_{j: s_j != index} (x_j - x_index)` modulo the group
/// order, where `x` is a point reduced modulo the group order.
/// The denominator must not vanish (the points that differ from `index` must differ from it
/// modulo the group order too); the result is the unique scalar whose product with the
/// denominator is the numerator.
pub fn lagrange_coefficient(index: &BigNum, s: &[BigNum]) -> (r: Scalar)
    requires
        lagrange_den(index@, values(s@)) != 0,
    ensures
        r@ == lagrange_value(index@, values(s@)),
        (r@ * lagrange_den(index@, values(s@))) % group_order() == lagrange_num(
            index@,
            values(s@),
        ),
        r@ < group_order(),
{
    let ghost vals = values(s@);
    let s_len = s.len();
    let xi = Scalar::from_bignum(index);
    let mut num = Scalar::from_u16(1);
    let mut den = Scalar::from_u16(1);
    let mut i: usize = 0;
    while i < s_len
        invariant
            s_len == s@.len(),
            vals == values(s@),
            i <= s_len,
            xi@ == index@ % group_order(),
            num@ == lagrange_num(index@, vals.take(i as int)),
            den@ == lagrange_den(index@, vals.take(i as int)),
        decreases s_len - i,
    {
        let point = Scalar::from_bignum(&s[i]);
        assert(vals.take(i + 1).drop_last() =~= vals.take(i as int));
        assert(vals.take(i + 1).last() == s@[i as int]@);
        if !s[i].equals(index) {
            num = num.mul(&point);
            let diff = point.sub(&xi);
            den = den.mul(&diff);
        }
        i += 1;
    }
    assert(vals.take(s_len as int) =~= vals);
    let inv = match den.invert() {
        Some(v) => v,
        None => {
            assert(false);
            Scalar::zero()
        },
    };
    let r = num.mul(&inv);
    proof {
        use_type_invariant(&r);
        use_type_invariant(&num);
        let n = group_order() as int;
        lemma_mod_mul_cancel(num@ as int, den@ as int, inv@ as int, n);
        lemma_small_mod(num@, group_order());
        use_type_invariant(&inv);
        let w = inverse_of(den@);
        assert(is_inverse(inv@, den@));
        assert(is_inverse(w, den@));
        lemma_inverse_unique(den@, inv@, w);
    }
    r
}

} // verus!
