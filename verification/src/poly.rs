use vstd::prelude::*;
use vstd::arithmetic::div_mod::*;
use vstd::arithmetic::mul::*;
use crate::field::{group_order, Scalar};
use crate::group::{gen_pow, spec_point_add, spec_point_mul, Point};

verus! {

/// The values of a sequence of scalars.
pub open spec fn scalar_values(s: Seq<Scalar>) -> Seq<nat> {
    s.map_values(|x: Scalar| x@)
}

/// The encodings of a sequence of points.
pub open spec fn point_encodings(s: Seq<Point>) -> Seq<Seq<u8>> {
    s.map_values(|p: Point| p@)
}

/// `c_0 + c_1 x + c_2 x^2 + ...` over the integers (no reduction).
pub open spec fn poly_value(c: Seq<int>, x: int) -> int
    decreases c.len(),
{
    if c.len() == 0 {
        0
    } else {
        c[0] + x * poly_value(c.drop_first(), x)
    }
}

/// Natural-number coefficients as integers.
pub open spec fn as_ints(c: Seq<nat>) -> Seq<int> {
    c.map_values(|v: nat| v as int)
}

/// The polynomial with coefficients `c` evaluated at `x` modulo the group order.
pub open spec fn poly_eval(c: Seq<nat>, x: nat) -> nat {
    (poly_value(as_ints(c), x as int) % (group_order() as int)) as nat
}

/// Horner evaluation of point coefficients, as curv folds them: the last coefficient, then
/// `C_j + acc * x` for the others from the end (`C_0 + (C_1 + (...) * x) * x`).
pub open spec fn commit_eval(cs: Seq<Seq<u8>>, x: nat) -> Seq<u8>
    decreases cs.len(),
{
    if cs.len() <= 1 {
        cs[0]
    } else {
        spec_point_add(cs[0], spec_point_mul(commit_eval(cs.drop_first(), x), x))
    }
}

/// `d` lists, in order, discrete logarithms of the points `cs`.
pub open spec fn dlogs_of(cs: Seq<Seq<u8>>, d: Seq<int>) -> bool {
    &&& d.len() == cs.len()
    &&& forall|j: int| 0 <= j < cs.len() ==> cs[j] == gen_pow(d[j])
}

proof fn lemma_poly_value_suffix(c: Seq<int>, j: int, x: int)
    requires
        0 <= j < c.len(),
    ensures
        poly_value(c.subrange(j, c.len() as int), x) == c[j] + x * poly_value(
            c.subrange(j + 1, c.len() as int),
            x,
        ),
{
    assert(c.subrange(j, c.len() as int).drop_first() =~= c.subrange(j + 1, c.len() as int));
}

/// Evaluates the polynomial with scalar coefficients `coeffs` at `x` (Horner's rule modulo the
/// group order, as `Polynomial::evaluate` in curv).
pub fn evaluate(coeffs: &Vec<Scalar>, x: &Scalar) -> (r: Scalar)
    requires
        coeffs@.len() > 0,
    ensures
        r@ == poly_eval(scalar_values(coeffs@), x@),
{
    let ghost c = as_ints(scalar_values(coeffs@));
    let len = coeffs.len();
    let mut acc = coeffs[len - 1];
    let mut j = len - 1;
    proof {
        use_type_invariant(&acc);
        assert(c.subrange(j as int, len as int).drop_first() =~= Seq::<int>::empty());
        assert(c[j as int] == acc@ as int);
        assert(poly_value(Seq::<int>::empty(), x@ as int) == 0);
        assert(poly_value(c.subrange(j as int, len as int), x@ as int) == c[j as int]);
        lemma_small_mod(acc@, group_order());
    }
    while j > 0
        invariant
            len == coeffs@.len(),
            c == as_ints(scalar_values(coeffs@)),
            0 <= j < len,
            acc@ == poly_value(c.subrange(j as int, len as int), x@ as int) % (
            group_order() as int),
        decreases j,
    {
        j -= 1;
        let t = acc.mul(x);
        let coef = coeffs[j];
        acc = t.add(&coef);
        proof {
            let n = group_order() as int;
            let rest = poly_value(c.subrange(j + 1, len as int), x@ as int);
            lemma_poly_value_suffix(c, j as int, x@ as int);
            use_type_invariant(&coef);
            // ((rest % n) * x % n + c_j) % n == (c_j + x * rest) % n
            lemma_mul_mod_noop_left(rest, x@ as int, n);
            lemma_add_mod_noop((rest * x@) % n, coef@ as int, n);
            lemma_mod_twice(rest * x@, n);
            lemma_add_mod_noop(rest * x@, coef@ as int, n);
            lemma_mul_is_commutative(rest, x@ as int);
            lemma_small_mod(coef@, n as nat);
        }
    }
    assert(c.subrange(0, len as int) =~= c);
    acc
}

/// Evaluates point coefficients at `x` as curv's VSS does: starting from the last commitment,
/// `acc = C_j + acc * x`. Whatever discrete logarithms `d` the commitments have, the result has
/// discrete logarithm `poly_value(d, x)`.
pub fn evaluate_commitments(cs: &Vec<Point>, x: &Scalar) -> (r: Point)
    requires
        cs@.len() > 0,
    ensures
        r@ == commit_eval(point_encodings(cs@), x@),
        forall|d: Seq<int>|
            #[trigger] dlogs_of(point_encodings(cs@), d) ==> r@ == gen_pow(poly_value(d, x@ as int)),
{
    let ghost e = point_encodings(cs@);
    let len = cs.len();
    let mut acc = cs[len - 1];
    let mut j = len - 1;
    proof {
        assert(e.subrange(j as int, len as int) =~= seq![e[j as int]]);
        assert forall|d: Seq<int>| #[trigger] dlogs_of(e, d) implies acc@ == gen_pow(
            poly_value(d.subrange(j as int, len as int), x@ as int),
        ) by {
            assert(d.subrange(j as int, len as int).drop_first() =~= Seq::<int>::empty());
            assert(e[j as int] == acc@);
            assert(acc@ == gen_pow(d[j as int]));
            assert(poly_value(Seq::<int>::empty(), x@ as int) == 0);
        }
    }
    while j > 0
        invariant
            len == cs@.len(),
            e == point_encodings(cs@),
            0 <= j < len,
            acc@ == commit_eval(e.subrange(j as int, len as int), x@),
            forall|d: Seq<int>| #[trigger]
                dlogs_of(e, d) ==> acc@ == gen_pow(
                    poly_value(d.subrange(j as int, len as int), x@ as int),
                ),
        decreases j,
    {
        j -= 1;
        let t = acc.mul(x);
        let cj = cs[j];
        let next = cj.add(&t);
        proof {
            assert(e.subrange(j as int, len as int).drop_first() =~= e.subrange(
                j + 1,
                len as int,
            ));
            assert forall|d: Seq<int>| #[trigger] dlogs_of(e, d) implies next@ == gen_pow(
                poly_value(d.subrange(j as int, len as int), x@ as int),
            ) by {
                let rest = poly_value(d.subrange(j + 1, len as int), x@ as int);
                lemma_poly_value_suffix(d, j as int, x@ as int);
                assert(t@ == gen_pow(rest * x@));
                assert(e[j as int] == cj@);
                assert(cj@ == gen_pow(d[j as int]));
                assert(next@ == gen_pow(d[j as int] + rest * x@));
                lemma_mul_is_commutative(rest, x@ as int);
            }
        }
        acc = next;
    }
    assert(e.subrange(0, len as int) =~= e);
    proof {
        assert forall|d: Seq<int>| #[trigger] dlogs_of(e, d) implies acc@ == gen_pow(
            poly_value(d, x@ as int),
        ) by {
            assert(d.subrange(0, len as int) =~= d);
        }
    }
    acc
}

/// A copy of a point vector.
pub fn copy_points(v: &Vec<Point>) -> (r: Vec<Point>)
    ensures
        r@ == v@,
{
    let mut r: Vec<Point> = Vec::new();
    let mut i: usize = 0;
    while i < v.len()
        invariant
            i <= v@.len(),
            r@ == v@.take(i as int),
        decreases v@.len() - i,
    {
        r.push(v[i]);
        assert(v@.take(i + 1) =~= v@.take(i as int).push(v@[i as int]));
        i += 1;
    }
    assert(v@.take(v@.len() as int) =~= v@);
    r
}

} // verus!
