//! Lagrange interpolation at zero: the Lagrange coefficients of `t + 1` points recover the
//! constant term of any polynomial with `t + 1` coefficients from its values at the points.

use vstd::prelude::*;
use vstd::arithmetic::div_mod::*;
use vstd::arithmetic::mul::*;
use crate::field::group_order;
use crate::lagrange::{inverse_of, is_inverse, lagrange_den, lagrange_num, lagrange_value};
use crate::poly::{as_ints, poly_value};
use crate::kjg::combine::weighted_int_sum;
use crate::kjg::laws::{add_seqs, joint_dlogs, lemma_joint_poly_value, lemma_poly_value_add, value_total};

verus! {

/// The quotient of the polynomial `c` by `X - a` (synthetic division).
pub open spec fn synth(c: Seq<int>, a: int) -> Seq<int>
    decreases c.len(),
{
    if c.len() <= 1 {
        Seq::empty()
    } else {
        seq![poly_value(c.drop_first(), a)] + synth(c.drop_first(), a)
    }
}

proof fn lemma_poly_value_cons(v: int, q: Seq<int>, x: int)
    ensures
        poly_value(seq![v] + q, x) == v + x * poly_value(q, x),
{
    assert((seq![v] + q).drop_first() =~= q);
}

/// Division by `X - a` with remainder `c(a)`.
proof fn lemma_synth(c: Seq<int>, a: int, x: int)
    requires
        c.len() >= 1,
    ensures
        synth(c, a).len() == c.len() - 1,
        poly_value(c, x) == (x - a) * poly_value(synth(c, a), x) + poly_value(c, a),
    decreases c.len(),
{
    if c.len() == 1 {
        assert(c.drop_first().len() == 0);
        assert(poly_value(c.drop_first(), x) == 0);
        assert(poly_value(c.drop_first(), a) == 0);
        lemma_mul_basics(x);
        lemma_mul_basics(a);
        lemma_mul_basics(x - a);
        assert(poly_value(synth(c, a), x) == 0);
    } else {
        let c1 = c.drop_first();
        let q1 = synth(c1, a);
        lemma_synth(c1, a, x);
        let v = poly_value(c1, a);
        lemma_poly_value_cons(v, q1, x);
        let p1 = poly_value(q1, x);
        let cx = poly_value(c1, x);
        assert(c[0] + x * cx == (x - a) * (v + x * p1) + (c[0] + a * v)) by (nonlinear_arith)
            requires
                cx == (x - a) * p1 + v,
        ;
    }
}

/// `d` has an inverse modulo the group order.
pub open spec fn invertible(d: int) -> bool {
    exists|v: nat| #[trigger] is_inverse(v, (d % (group_order() as int)) as nat)
}

/// Any two distinct entries of `xs` differ by an invertible amount (true of distinct points
/// below the group order, which is prime).
pub open spec fn pairwise_invertible(xs: Seq<int>) -> bool {
    forall|i: int, j: int|
        0 <= i < xs.len() && 0 <= j < xs.len() && i != j ==> invertible(
            #[trigger] xs[i] - #[trigger] xs[j],
        )
}

/// An invertible factor cancels from a multiple of the group order.
proof fn lemma_cancel(d: int, q: int)
    requires
        invertible(d),
        (d * q) % (group_order() as int) == 0,
    ensures
        q % (group_order() as int) == 0,
{
    let n = group_order() as int;
    let v = choose|v: nat| #[trigger] is_inverse(v, (d % n) as nat);
    // q == (v * (d % n)) * q == v * (d * q) modulo n
    lemma_mul_mod_noop_left(v * (d % n), q, n);
    lemma_mul_is_associative(v as int, d % n, q);
    lemma_mul_mod_noop_left(d, q, n);
    lemma_mul_mod_noop_right(v as int, (d % n) * q, n);
    lemma_mul_mod_noop_right(v as int, d * q, n);
    lemma_mul_basics(q);
    lemma_mul_basics(v as int);
    assert((v * (d % n)) % n == 1);
    assert(((v * (d % n)) * q) % n == (1 * q) % n);
}

/// A polynomial with at most `xs.len()` coefficients that vanishes modulo the group order at
/// the points `xs` vanishes there everywhere.
proof fn lemma_vanishing(c: Seq<int>, xs: Seq<int>, x: int)
    requires
        c.len() <= xs.len(),
        pairwise_invertible(xs),
        forall|i: int| 0 <= i < xs.len() ==> #[trigger] poly_value(c, xs[i]) % (group_order() as int) == 0,
    ensures
        poly_value(c, x) % (group_order() as int) == 0,
    decreases xs.len(),
{
    let n = group_order() as int;
    if c.len() == 0 {
        assert(poly_value(c, x) == 0);
    } else {
        let a = xs[0];
        let q = synth(c, a);
        let rest = xs.drop_first();
        assert(poly_value(c, xs[0]) % n == 0);
        assert forall|i: int| 0 <= i < rest.len() implies #[trigger] poly_value(q, rest[i]) % n == 0 by {
            let b = rest[i];
            assert(b == xs[i + 1]);
            lemma_synth(c, a, b);
            assert(poly_value(c, xs[i + 1]) % n == 0);
            assert(invertible(xs[i + 1] - xs[0]));
            // (b - a) * q(b) == c(b) - c(a), a multiple of n
            lemma_sub_mod_noop(poly_value(c, b), poly_value(c, a), n);
            lemma_cancel(b - a, poly_value(q, b));
        }
        assert(pairwise_invertible(rest)) by {
            assert forall|i: int, j: int|
                0 <= i < rest.len() && 0 <= j < rest.len() && i != j implies invertible(
                #[trigger] rest[i] - #[trigger] rest[j],
            ) by {
                assert(rest[i] == xs[i + 1] && rest[j] == xs[j + 1]);
            }
        }
        lemma_synth(c, a, x);
        lemma_vanishing(q, rest, x);
        let qx = poly_value(q, x);
        lemma_mul_mod_noop_right(x - a, qx, n);
        lemma_mul_basics(x - a);
        lemma_add_mod_noop((x - a) * qx, poly_value(c, a), n);
    }
}

/// `s` with `v` added to its constant coefficient.
pub open spec fn bump(s: Seq<int>, v: int) -> Seq<int> {
    if s.len() == 0 {
        seq![v]
    } else {
        s.update(0, s[0] + v)
    }
}

proof fn lemma_bump(s: Seq<int>, v: int, x: int)
    ensures
        poly_value(bump(s, v), x) == poly_value(s, x) + v,
        bump(s, v).len() == if s.len() == 0 { 1 } else { s.len() },
{
    if s.len() == 0 {
        assert(bump(s, v).drop_first().len() == 0);
        assert(poly_value(bump(s, v).drop_first(), x) == 0);
        lemma_mul_basics(x);
    } else {
        assert(bump(s, v).drop_first() =~= s.drop_first());
    }
}

/// The coefficients of `(X - a) * c(X)`.
pub open spec fn mul_linear(c: Seq<int>, a: int) -> Seq<int>
    decreases c.len(),
{
    if c.len() == 0 {
        Seq::empty()
    } else {
        seq![-a * c[0]] + bump(mul_linear(c.drop_first(), a), c[0])
    }
}

proof fn lemma_mul_linear(c: Seq<int>, a: int, x: int)
    ensures
        poly_value(mul_linear(c, a), x) == (x - a) * poly_value(c, x),
        c.len() > 0 ==> mul_linear(c, a).len() == c.len() + 1,
    decreases c.len(),
{
    if c.len() == 0 {
        lemma_mul_basics(x - a);
    } else {
        let c1 = c.drop_first();
        let m1 = mul_linear(c1, a);
        lemma_mul_linear(c1, a, x);
        lemma_bump(m1, c[0], x);
        lemma_poly_value_cons(-a * c[0], bump(m1, c[0]), x);
        let p1 = poly_value(c1, x);
        let pm = poly_value(m1, x);
        assert(-a * c[0] + x * (pm + c[0]) == (x - a) * (c[0] + x * p1)) by (nonlinear_arith)
            requires
                pm == (x - a) * p1,
        ;
        if c1.len() == 0 {
            assert(m1.len() == 0);
        }
    }
}

/// `(x - rs_0) * (x - rs_1) * ...`.
pub open spec fn prod_diff(x: int, rs: Seq<int>) -> int
    decreases rs.len(),
{
    if rs.len() == 0 {
        1
    } else {
        prod_diff(x, rs.drop_last()) * (x - rs.last())
    }
}

/// The coefficients of `(X - rs_0) * (X - rs_1) * ...`.
pub open spec fn prod_lin(rs: Seq<int>) -> Seq<int>
    decreases rs.len(),
{
    if rs.len() == 0 {
        seq![1int]
    } else {
        mul_linear(prod_lin(rs.drop_last()), rs.last())
    }
}

proof fn lemma_prod_lin(rs: Seq<int>, x: int)
    ensures
        prod_lin(rs).len() == rs.len() + 1,
        poly_value(prod_lin(rs), x) == prod_diff(x, rs),
    decreases rs.len(),
{
    if rs.len() == 0 {
        assert(prod_lin(rs).drop_first().len() == 0);
        assert(poly_value(prod_lin(rs).drop_first(), x) == 0);
        lemma_mul_basics(x);
    } else {
        lemma_prod_lin(rs.drop_last(), x);
        lemma_mul_linear(prod_lin(rs.drop_last()), rs.last(), x);
        lemma_mul_is_commutative(x - rs.last(), prod_diff(x, rs.drop_last()));
    }
}

/// A product with a vanishing factor vanishes.
proof fn lemma_prod_diff_root(x: int, rs: Seq<int>, j: int)
    requires
        0 <= j < rs.len(),
        rs[j] == x,
    ensures
        prod_diff(x, rs) == 0,
    decreases rs.len(),
{
    if j == rs.len() - 1 {
        lemma_mul_basics(prod_diff(x, rs.drop_last()));
    } else {
        lemma_prod_diff_root(x, rs.drop_last(), j);
        lemma_mul_basics(x - rs.last());
    }
}

/// The entries of `s` other than `v`, in order.
pub open spec fn skip(s: Seq<int>, v: int) -> Seq<int>
    decreases s.len(),
{
    if s.len() == 0 {
        Seq::empty()
    } else if s.last() != v {
        skip(s.drop_last(), v).push(s.last())
    } else {
        skip(s.drop_last(), v)
    }
}

proof fn lemma_skip_keeps(s: Seq<int>, v: int, j: int)
    requires
        0 <= j < s.len(),
        s[j] != v,
    ensures
        exists|k: int| 0 <= k < skip(s, v).len() && skip(s, v)[k] == s[j],
    decreases s.len(),
{
    if j == s.len() - 1 {
        let r = skip(s, v);
        assert(r[r.len() - 1] == s[j]);
    } else {
        lemma_skip_keeps(s.drop_last(), v, j);
        let r0 = skip(s.drop_last(), v);
        let k = choose|k: int| 0 <= k < r0.len() && #[trigger] r0[k] == s.drop_last()[j];
        assert(s.drop_last()[j] == s[j]);
        if s.last() != v {
            assert(skip(s, v) == r0.push(s.last()));
            assert(skip(s, v)[k] == r0[k]);
        } else {
            assert(skip(s, v) == r0);
        }
    }
}

/// No two entries are equal.
pub open spec fn distinct(s: Seq<int>) -> bool {
    forall|i: int, j: int| 0 <= i < s.len() && 0 <= j < s.len() && i != j ==> s[i] != s[j]
}

proof fn lemma_skip_len(s: Seq<int>, i: int)
    requires
        distinct(s),
        0 <= i < s.len(),
    ensures
        skip(s, s[i]).len() == s.len() - 1,
    decreases s.len(),
{
    let v = s[i];
    if i == s.len() - 1 {
        lemma_skip_none(s.drop_last(), v);
    } else {
        assert(s.drop_last()[i] == v);
        lemma_skip_len(s.drop_last(), i);
        assert(s.last() != v);
    }
}

proof fn lemma_skip_none(s: Seq<int>, v: int)
    requires
        forall|j: int| 0 <= j < s.len() ==> s[j] != v,
    ensures
        skip(s, v) == s,
    decreases s.len(),
{
    if s.len() > 0 {
        lemma_skip_none(s.drop_last(), v);
        assert(s.drop_last().push(s.last()) =~= s);
    }
}

/// Each factor `x - rs_j` is invertible, so the product is.
proof fn lemma_prod_invertible(x: int, rs: Seq<int>)
    requires
        forall|j: int| 0 <= j < rs.len() ==> invertible(x - #[trigger] rs[j]),
    ensures
        invertible(prod_diff(x, rs)),
    decreases rs.len(),
{
    let n = group_order() as int;
    if rs.len() == 0 {
        lemma_small_mod(1nat, n as nat);
        assert(is_inverse(1, (1int % n) as nat));
    } else {
        let p = prod_diff(x, rs.drop_last());
        let d = x - rs.last();
        assert forall|j: int| 0 <= j < rs.drop_last().len() implies invertible(
            x - #[trigger] rs.drop_last()[j],
        ) by {
            assert(rs.drop_last()[j] == rs[j]);
        }
        lemma_prod_invertible(x, rs.drop_last());
        assert(invertible(x - rs[rs.len() - 1]));
        lemma_invertible_mul(p, d);
    }
}

/// `(rs_0 - x) * (rs_1 - x) * ...`.
pub open spec fn prod_rdiff(x: int, rs: Seq<int>) -> int
    decreases rs.len(),
{
    if rs.len() == 0 {
        1
    } else {
        prod_rdiff(x, rs.drop_last()) * (rs.last() - x)
    }
}

/// `rs_0 * rs_1 * ...`.
pub open spec fn prod_of(rs: Seq<int>) -> int
    decreases rs.len(),
{
    if rs.len() == 0 {
        1
    } else {
        prod_of(rs.drop_last()) * rs.last()
    }
}

proof fn lemma_prod_rdiff_invertible(x: int, rs: Seq<int>)
    requires
        forall|j: int| 0 <= j < rs.len() ==> invertible(#[trigger] rs[j] - x),
    ensures
        invertible(prod_rdiff(x, rs)),
    decreases rs.len(),
{
    let n = group_order() as int;
    if rs.len() == 0 {
        lemma_small_mod(1nat, n as nat);
        assert(is_inverse(1, (1int % n) as nat));
    } else {
        let p = prod_rdiff(x, rs.drop_last());
        let d = rs.last() - x;
        assert forall|j: int| 0 <= j < rs.drop_last().len() implies invertible(
            #[trigger] rs.drop_last()[j] - x,
        ) by {
            assert(rs.drop_last()[j] == rs[j]);
        }
        lemma_prod_rdiff_invertible(x, rs.drop_last());
        assert(invertible(rs[rs.len() - 1] - x));
        lemma_invertible_mul(p, d);
    }
}

/// A product of invertible factors is invertible.
proof fn lemma_invertible_mul(p: int, d: int)
    requires
        invertible(p),
        invertible(d),
    ensures
        invertible(p * d),
{
    let n = group_order() as int;
    let v1 = choose|v: nat| #[trigger] is_inverse(v, (p % n) as nat);
    let v2 = choose|v: nat| #[trigger] is_inverse(v, (d % n) as nat);
    lemma_mod_bound(p, n);
    lemma_mod_bound(d, n);
    let w = (v1 * v2) as int;
    let v = (w % n) as nat;
    lemma_mod_bound(w, n);
    assert(is_inverse(v, ((p * d) % n) as nat)) by {
        lemma_mul_mod_noop(w, p * d, n);
        lemma_mul_mod_noop(p, d, n);
        lemma_mod_twice(w, n);
        assert(w * ((p % n) * (d % n)) == (v1 * (p % n)) * (v2 * (d % n))) by (nonlinear_arith)
            requires
                w == v1 * v2,
        ;
        lemma_mul_mod_noop(v1 * (p % n), v2 * (d % n), n);
        lemma_mul_mod_noop(w, (p % n) * (d % n), n);
        lemma_mod_twice((p % n) * (d % n), n);
        lemma_mod_twice(p * d, n);
        lemma_small_mod(1nat, n as nat);
    }
}

/// `(0 - r)(r - x) == r (x - r)` factor by factor.
proof fn lemma_sign_swap(x: int, rs: Seq<int>)
    ensures
        prod_diff(0, rs) * prod_rdiff(x, rs) == prod_of(rs) * prod_diff(x, rs),
    decreases rs.len(),
{
    if rs.len() > 0 {
        lemma_sign_swap(x, rs.drop_last());
        let a = prod_diff(0, rs.drop_last());
        let b = prod_rdiff(x, rs.drop_last());
        let c = prod_of(rs.drop_last());
        let d = prod_diff(x, rs.drop_last());
        let r = rs.last();
        assert((a * (0 - r)) * (b * (r - x)) == (c * r) * (d * (x - r))) by (nonlinear_arith)
            requires
                a * b == c * d,
        ;
    }
}

/// Every entry that `skip` keeps is an entry of `s` other than `v`.
proof fn lemma_skip_from(s: Seq<int>, v: int, k: int)
    requires
        0 <= k < skip(s, v).len(),
    ensures
        exists|j: int| 0 <= j < s.len() && s[j] == skip(s, v)[k] && s[j] != v,
    decreases s.len(),
{
    let r0 = skip(s.drop_last(), v);
    if s.last() != v && k == r0.len() {
        assert(skip(s, v)[k] == s[s.len() - 1]);
    } else {
        if s.last() != v {
            assert(skip(s, v)[k] == r0[k]);
        }
        lemma_skip_from(s.drop_last(), v, k);
        let j = choose|j: int| 0 <= j < s.drop_last().len() && s.drop_last()[j] == r0[k] && s.drop_last()[j] != v;
        assert(s[j] == s.drop_last()[j]);
    }
}

/// The numerator of a Lagrange coefficient is the product of the other points.
proof fn lemma_num_as_product(index: nat, s: Seq<nat>)
    ensures
        lagrange_num(index, s) as int == prod_of(skip(as_ints(s), index as int)) % (
        group_order() as int),
    decreases s.len(),
{
    let n = group_order() as int;
    if s.len() == 0 {
        lemma_small_mod(1nat, n as nat);
    } else {
        lemma_num_as_product(index, s.drop_last());
        assert(as_ints(s).drop_last() =~= as_ints(s.drop_last()));
        let r0 = skip(as_ints(s.drop_last()), index as int);
        let p = prod_of(r0);
        let l = s.last();
        assert(as_ints(s).last() == l as int);
        if l != index {
            assert(skip(as_ints(s), index as int) == r0.push(l as int));
            assert(r0.push(l as int).drop_last() =~= r0);
            assert(prod_of(skip(as_ints(s), index as int)) == p * l);
            lemma_mul_mod_noop(p, l as int, n);
            lemma_mod_twice(p, n);
            lemma_mod_twice(l as int, n);
            lemma_mul_mod_noop(p % n, (l % (n as nat)) as int, n);
        }
    }
}

/// The denominator of a Lagrange coefficient is the product of the other points minus it.
proof fn lemma_den_as_product(index: nat, s: Seq<nat>)
    ensures
        lagrange_den(index, s) as int == prod_rdiff(index as int, skip(as_ints(s), index as int))
            % (group_order() as int),
    decreases s.len(),
{
    let n = group_order() as int;
    if s.len() == 0 {
        lemma_small_mod(1nat, n as nat);
    } else {
        lemma_den_as_product(index, s.drop_last());
        assert(as_ints(s).drop_last() =~= as_ints(s.drop_last()));
        let r0 = skip(as_ints(s.drop_last()), index as int);
        let p = prod_rdiff(index as int, r0);
        let l = s.last();
        assert(as_ints(s).last() == l as int);
        if l != index {
            assert(skip(as_ints(s), index as int) == r0.push(l as int));
            assert(r0.push(l as int).drop_last() =~= r0);
            assert(prod_rdiff(index as int, skip(as_ints(s), index as int)) == p * (l - index));
            let f = (((l % (n as nat)) as int) - ((index % (n as nat)) as int)) % n;
            lemma_sub_mod_noop(l as int, index as int, n);
            assert(f == (l - index) % n);
            lemma_mul_mod_noop(p, l - index, n);
            lemma_mod_twice(p, n);
            lemma_mod_bound(l - index, n);
            lemma_mod_bound(p, n);
        }
    }
}

/// Multiplying by `d` and then by an inverse of `d` is the identity modulo the group order.
proof fn lemma_inverse_cancel(a: int, d: int, v: nat)
    requires
        is_inverse(v, (d % (group_order() as int)) as nat),
    ensures
        (a * v * d) % (group_order() as int) == a % (group_order() as int),
{
    let n = group_order() as int;
    lemma_mul_is_associative(a, v as int, d);
    lemma_mul_mod_noop_right(a, v * d, n);
    lemma_mul_mod_noop_right(v as int, d, n);
    lemma_mul_mod_noop_right(a, 1, n);
    lemma_mul_basics(a);
}

/// Each coefficient times `k`.
pub open spec fn scaled(s: Seq<int>, k: int) -> Seq<int> {
    Seq::new(s.len(), |j: int| k * s[j])
}

proof fn lemma_scaled(s: Seq<int>, k: int, x: int)
    ensures
        poly_value(scaled(s, k), x) == k * poly_value(s, x),
    decreases s.len(),
{
    if s.len() == 0 {
        lemma_mul_basics(k);
    } else {
        lemma_scaled(s.drop_first(), k, x);
        assert(scaled(s, k).drop_first() =~= scaled(s.drop_first(), k));
        let p = poly_value(s.drop_first(), x);
        assert(k * s[0] + x * (k * p) == k * (s[0] + x * p)) by (nonlinear_arith);
    }
}

/// The sum of the entries.
pub open spec fn int_sum(a: Seq<int>) -> int
    decreases a.len(),
{
    if a.len() == 0 {
        0
    } else {
        int_sum(a.drop_last()) + a.last()
    }
}

proof fn lemma_value_total_sum(ds: Seq<Seq<int>>, x: int)
    ensures
        value_total(ds, x) == int_sum(Seq::new(ds.len(), |i: int| poly_value(ds[i], x))),
    decreases ds.len(),
{
    if ds.len() > 0 {
        lemma_value_total_sum(ds.drop_last(), x);
        assert(Seq::new(ds.len(), |i: int| poly_value(ds[i], x)).drop_last() =~= Seq::new(
            ds.drop_last().len(),
            |i: int| poly_value(ds.drop_last()[i], x),
        ));
    }
}

proof fn lemma_weighted_as_sum(d: Seq<int>, ts: Seq<nat>)
    requires
        d.len() <= ts.len(),
    ensures
        weighted_int_sum(d, ts) == int_sum(Seq::new(d.len(), |i: int| d[i] * ts[i])),
    decreases d.len(),
{
    if d.len() > 0 {
        let l = d.len() - 1;
        lemma_weighted_as_sum(d.drop_last(), ts.take(l));
        assert(Seq::new(d.len(), |i: int| d[i] * ts[i]).drop_last() =~= Seq::new(
            d.drop_last().len(),
            |i: int| d.drop_last()[i] * ts.take(l)[i],
        ));
    }
}

proof fn lemma_sum_congruent(a: Seq<int>, b: Seq<int>)
    requires
        a.len() == b.len(),
        forall|i: int| 0 <= i < a.len() ==> #[trigger] a[i] % (group_order() as int) == b[i] % (
        group_order() as int),
    ensures
        int_sum(a) % (group_order() as int) == int_sum(b) % (group_order() as int),
    decreases a.len(),
{
    let n = group_order() as int;
    if a.len() > 0 {
        assert forall|i: int| 0 <= i < a.drop_last().len() implies #[trigger] a.drop_last()[i] % n
            == b.drop_last()[i] % n by {
            assert(a.drop_last()[i] == a[i] && b.drop_last()[i] == b[i]);
        }
        lemma_sum_congruent(a.drop_last(), b.drop_last());
        assert(a[a.len() - 1] % n == b[b.len() - 1] % n);
        lemma_add_mod_noop(int_sum(a.drop_last()), a.last(), n);
        lemma_add_mod_noop(int_sum(b.drop_last()), b.last(), n);
    }
}

proof fn lemma_value_total_single(ds: Seq<Seq<int>>, x: int, k: int)
    requires
        0 <= k < ds.len(),
        forall|i: int| 0 <= i < ds.len() && i != k ==> #[trigger] poly_value(ds[i], x) == 0,
    ensures
        value_total(ds, x) == poly_value(ds[k], x),
    decreases ds.len(),
{
    let d1 = ds.drop_last();
    if k == ds.len() - 1 {
        lemma_value_total_zero(d1, x);
    } else {
        assert forall|i: int| 0 <= i < d1.len() && i != k implies #[trigger] poly_value(d1[i], x) == 0 by {
            assert(d1[i] == ds[i]);
        }
        lemma_value_total_single(d1, x, k);
        assert(poly_value(ds[ds.len() - 1], x) == 0);
    }
}

proof fn lemma_value_total_zero(ds: Seq<Seq<int>>, x: int)
    requires
        forall|i: int| 0 <= i < ds.len() ==> #[trigger] poly_value(ds[i], x) == 0,
    ensures
        value_total(ds, x) == 0,
    decreases ds.len(),
{
    if ds.len() > 0 {
        let d1 = ds.drop_last();
        assert forall|i: int| 0 <= i < d1.len() implies #[trigger] poly_value(d1[i], x) == 0 by {
            assert(d1[i] == ds[i]);
        }
        lemma_value_total_zero(d1, x);
        assert(poly_value(ds[ds.len() - 1], x) == 0);
    }
}

/// The points other than the `i`-th.
spec fn others(xi: Seq<int>, i: int) -> Seq<int> {
    skip(xi, xi[i])
}

/// The `i`-th basis polynomial's numerator, `prod_{j != i} (X - x_j)`.
spec fn basis(xi: Seq<int>, i: int) -> Seq<int> {
    prod_lin(others(xi, i))
}

/// Its value at `x_i`.
spec fn basis_at(xi: Seq<int>, i: int) -> int {
    prod_diff(xi[i], others(xi, i))
}

/// An inverse of `basis_at` modulo the group order.
spec fn basis_inv(xi: Seq<int>, i: int) -> nat {
    choose|v: nat| #[trigger] is_inverse(v, (basis_at(xi, i) % (group_order() as int)) as nat)
}

/// `f(x_i) / basis_at(i) * basis(i)` for each point.
spec fn basis_terms(f: Seq<int>, xi: Seq<int>) -> Seq<Seq<int>> {
    Seq::new(
        xi.len(),
        |i: int| scaled(basis(xi, i), poly_value(f, xi[i]) * basis_inv(xi, i)),
    )
}

/// The interpolating polynomial minus `f`.
spec fn residual(f: Seq<int>, xi: Seq<int>) -> Seq<int> {
    add_seqs(joint_dlogs(basis_terms(f, xi), xi.len()), scaled(f, -1))
}

proof fn lemma_basis(xi: Seq<int>, i: int)
    requires
        distinct(xi),
        pairwise_invertible(xi),
        0 <= i < xi.len(),
    ensures
        basis(xi, i).len() == xi.len(),
        invertible(basis_at(xi, i)),
        is_inverse(basis_inv(xi, i), (basis_at(xi, i) % (group_order() as int)) as nat),
        invertible(prod_rdiff(xi[i], others(xi, i))),
        forall|k: int|
            0 <= k < xi.len() && k != i ==> #[trigger] prod_diff(xi[k], others(xi, i)) == 0,
{
    let rs = others(xi, i);
    lemma_skip_len(xi, i);
    lemma_prod_lin(rs, 0);
    assert forall|j: int| 0 <= j < rs.len() implies invertible(xi[i] - #[trigger] rs[j]) by {
        lemma_skip_from(xi, xi[i], j);
        let jj = choose|jj: int| 0 <= jj < xi.len() && xi[jj] == rs[j] && xi[jj] != xi[i];
        assert(invertible(xi[i] - xi[jj]));
    }
    lemma_prod_invertible(xi[i], rs);
    assert forall|j: int| 0 <= j < rs.len() implies invertible(#[trigger] rs[j] - xi[i]) by {
        lemma_skip_from(xi, xi[i], j);
        let jj = choose|jj: int| 0 <= jj < xi.len() && xi[jj] == rs[j] && xi[jj] != xi[i];
        assert(invertible(xi[jj] - xi[i]));
    }
    lemma_prod_rdiff_invertible(xi[i], rs);
    assert forall|k: int| 0 <= k < xi.len() && k != i implies #[trigger] prod_diff(xi[k], rs) == 0 by {
        lemma_skip_keeps(xi, xi[i], k);
        let kk = choose|kk: int| 0 <= kk < rs.len() && rs[kk] == xi[k];
        lemma_prod_diff_root(xi[k], rs, kk);
    }
}

proof fn lemma_residual_value(f: Seq<int>, xi: Seq<int>, x: int)
    requires
        distinct(xi),
        pairwise_invertible(xi),
        f.len() == xi.len(),
    ensures
        residual(f, xi).len() == xi.len(),
        poly_value(residual(f, xi), x) == value_total(basis_terms(f, xi), x) - poly_value(f, x),
{
    let ts = basis_terms(f, xi);
    let m = xi.len();
    assert forall|k: int| 0 <= k < ts.len() implies (#[trigger] ts[k]).len() == m by {
        lemma_basis(xi, k);
    }
    lemma_joint_poly_value(ts, x, m);
    lemma_poly_value_add(joint_dlogs(ts, m), scaled(f, -1), x);
    lemma_scaled(f, -1, x);
}

proof fn lemma_residual_root(f: Seq<int>, xi: Seq<int>, k: int)
    requires
        distinct(xi),
        pairwise_invertible(xi),
        f.len() == xi.len(),
        0 <= k < xi.len(),
    ensures
        poly_value(residual(f, xi), xi[k]) % (group_order() as int) == 0,
{
    let n = group_order() as int;
    let ts = basis_terms(f, xi);
    let x = xi[k];
    lemma_residual_value(f, xi, x);
    assert forall|i: int| 0 <= i < ts.len() && i != k implies #[trigger] poly_value(ts[i], x) == 0 by {
        lemma_basis(xi, i);
        lemma_scaled(basis(xi, i), poly_value(f, xi[i]) * basis_inv(xi, i), x);
        lemma_prod_lin(others(xi, i), x);
        assert(prod_diff(xi[k], others(xi, i)) == 0);
        lemma_mul_basics(poly_value(f, xi[i]) * basis_inv(xi, i));
    }
    lemma_value_total_single(ts, x, k);
    lemma_basis(xi, k);
    let y = poly_value(f, x);
    let v = basis_inv(xi, k);
    lemma_scaled(basis(xi, k), y * v, x);
    lemma_prod_lin(others(xi, k), x);
    assert(poly_value(ts[k], x) == y * v * basis_at(xi, k));
    lemma_inverse_cancel(y, basis_at(xi, k), v);
    lemma_sub_mod_noop(y * v * basis_at(xi, k), y, n);
    lemma_mod_self_0(n);
    lemma_sub_mod_noop(y, y, n);
}

/// The weight of the `i`-th value at zero agrees with the Lagrange coefficient.
proof fn lemma_weight_at_zero(xs: Seq<nat>, i: int)
    requires
        distinct(as_ints(xs)),
        pairwise_invertible(as_ints(xs)),
        0 <= i < xs.len(),
    ensures
        (basis_inv(as_ints(xs), i) * prod_diff(0, others(as_ints(xs), i))) % (group_order() as int)
            == lagrange_value(xs[i], xs) % group_order(),
{
    let n = group_order() as int;
    let xi = as_ints(xs);
    let rs = others(xi, i);
    assert(xi[i] == xs[i] as int);
    lemma_basis(xi, i);
    lemma_num_as_product(xs[i], xs);
    lemma_den_as_product(xs[i], xs);
    let v = basis_inv(xi, i);
    let z = prod_diff(0, rs);
    let e = prod_rdiff(xi[i], rs);
    let p = prod_of(rs);
    let d = basis_at(xi, i);
    lemma_sign_swap(xi[i], rs);
    assert(z * e == p * d);
    let num = lagrange_num(xs[i], xs);
    let den = lagrange_den(xs[i], xs);
    assert(num as int == p % n);
    assert(den as int == e % n);
    // den has an inverse, so the chosen one is one
    let w0 = choose|w: nat| #[trigger] is_inverse(w, (e % n) as nat);
    assert(is_inverse(w0, den));
    let w = inverse_of(den);
    assert(is_inverse(w, den));
    let lam = lagrange_value(xs[i], xs);
    assert(lam == (num * w) % (n as nat));
    // (v * z) * e == v * (p * d) == p * v * d, which is p modulo n
    assert((v * z) * e == p * v * d) by (nonlinear_arith)
        requires
            z * e == p * d,
    ;
    lemma_inverse_cancel(p, d, v);
    // lam * e == num * w * e, which is num modulo n
    lemma_mul_mod_noop_left((num * w) as int, e, n);
    lemma_mul_mod_noop_right((num * w) as int, e, n);
    assert(is_inverse(w, ((e % n) as nat)));
    lemma_inverse_cancel(num as int, e, w);
    lemma_mod_twice(p, n);
    // so (v * z - lam) * e is a multiple of n
    assert(((v * z) * e - lam * e) % n == 0) by {
        lemma_sub_mod_noop((v * z) * e, lam * e, n);
        lemma_mod_self_0(n);
    }
    assert((v * z - lam) * e == (v * z) * e - lam * e) by (nonlinear_arith);
    lemma_mul_is_commutative(v * z - lam, e);
    lemma_cancel(e, v * z - lam);
    lemma_sub_mod_noop(v * z, lam as int, n);
    lemma_mod_bound(v * z - lam, n);
    lemma_fundamental_div_mod(v * z, n);
    lemma_fundamental_div_mod(lam as int, n);
    lemma_mod_bound(v * z, n);
    lemma_mod_bound(lam as int, n);
}

/// Lagrange interpolation at zero: for distinct points `xs` whose differences are invertible
/// modulo the group order (as they are for distinct points below it, the order being prime)
/// and a polynomial `f` with as many coefficients as there are points, the values `f(x_i)`
/// weighted by the Lagrange coefficients `l_i` of the points add up to the constant term
/// `f_0` modulo the group order.
pub proof fn law_lagrange_interpolation(f: Seq<int>, xs: Seq<nat>)
    requires
        xs.len() >= 1,
        f.len() == xs.len(),
        distinct(as_ints(xs)),
        pairwise_invertible(as_ints(xs)),
    ensures
        weighted_int_sum(
            Seq::new(xs.len(), |i: int| poly_value(f, xs[i] as int)),
            Seq::new(xs.len(), |i: int| lagrange_value(xs[i], xs)),
        ) % (group_order() as int) == f[0] % (group_order() as int),
{
    let n = group_order() as int;
    let xi = as_ints(xs);
    let m = xs.len();
    let ts = basis_terms(f, xi);
    // the residual vanishes at every point, hence at zero
    assert forall|k: int| 0 <= k < xi.len() implies #[trigger] poly_value(residual(f, xi), xi[k]) % n == 0 by {
        lemma_residual_root(f, xi, k);
    }
    lemma_residual_value(f, xi, 0);
    lemma_vanishing(residual(f, xi), xi, 0);
    assert(poly_value(f.drop_first(), 0) * 0 == 0) by {
        lemma_mul_basics(poly_value(f.drop_first(), 0));
    }
    assert(poly_value(f, 0) == f[0]);
    lemma_sub_mod_noop(value_total(ts, 0), f[0], n);
    lemma_fundamental_div_mod(value_total(ts, 0), n);
    lemma_fundamental_div_mod(f[0], n);
    lemma_mod_bound(value_total(ts, 0), n);
    lemma_mod_bound(f[0], n);
    assert(value_total(ts, 0) % n == f[0] % n) by {
        lemma_mod_bound(value_total(ts, 0) - f[0], n);
    }
    // and the sum at zero is the weighted sum of the values
    let ys = Seq::new(m, |i: int| poly_value(f, xs[i] as int));
    let ls = Seq::new(m, |i: int| lagrange_value(xs[i], xs));
    lemma_value_total_sum(ts, 0);
    lemma_weighted_as_sum(ys, ls);
    let a = Seq::new(ts.len(), |i: int| poly_value(ts[i], 0));
    let b = Seq::new(ys.len(), |i: int| ys[i] * ls[i]);
    assert forall|i: int| 0 <= i < a.len() implies #[trigger] a[i] % n == b[i] % n by {
        let y = poly_value(f, xi[i]);
        assert(xi[i] == xs[i] as int);
        let v = basis_inv(xi, i);
        let z = prod_diff(0, others(xi, i));
        lemma_scaled(basis(xi, i), y * v, 0);
        lemma_prod_lin(others(xi, i), 0);
        assert(a[i] == y * v * z);
        lemma_weight_at_zero(xs, i);
        lemma_mul_is_associative(y, v as int, z);
        lemma_mul_mod_noop_right(y, v * z, n);
        lemma_mul_mod_noop_right(y, ls[i] as int, n);
    }
    lemma_sum_congruent(a, b);
}

} // verus!
