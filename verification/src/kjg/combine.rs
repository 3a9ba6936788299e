//! Sums of commitments that the key generation forms on both sides.

use vstd::prelude::*;
use vstd::arithmetic::div_mod::*;
use vstd::arithmetic::mul::*;
use vstd::string::*;
use crate::digest::{hash_to_bignum, text_digest};
use crate::field::{group_order, Scalar};
use crate::group::{gen_pow, spec_point_add, spec_point_mul, zero_encoding, Point};
use crate::hex::upper_hex;
use crate::numbers::be_value;
use crate::poly::{dlogs_of, point_encodings, scalar_values};

verus! {

/// The weight that binds a Pedersen commitment `c` to a Feldman commitment `s`: the SHA-256 of
/// their upper-case hex, read as an integer and reduced modulo the group order.
pub open spec fn tag(c: Seq<u8>, s: Seq<u8>) -> nat {
    be_value(text_digest(upper_hex(c) + upper_hex(s))) % group_order()
}

/// The weights of the first `cs.len()` pairs.
pub open spec fn tags(cs: Seq<Seq<u8>>, ss: Seq<Seq<u8>>) -> Seq<nat> {
    Seq::new(cs.len(), |i: int| tag(cs[i], ss[i]))
}

/// `zero + p_0 * t_0 + p_1 * t_1 + ...`, added in this order.
pub open spec fn weighted_point_sum(ps: Seq<Seq<u8>>, ts: Seq<nat>) -> Seq<u8>
    decreases ps.len(),
{
    if ps.len() == 0 {
        zero_encoding()
    } else {
        spec_point_add(
            weighted_point_sum(ps.drop_last(), ts.take(ps.len() - 1)),
            spec_point_mul(ps.last(), ts[ps.len() - 1]),
        )
    }
}

/// `d_0 * t_0 + d_1 * t_1 + ...` over the integers.
pub open spec fn weighted_int_sum(d: Seq<int>, ts: Seq<nat>) -> int
    decreases d.len(),
{
    if d.len() == 0 {
        0
    } else {
        weighted_int_sum(d.drop_last(), ts.take(d.len() - 1)) + d.last() * ts[d.len() - 1]
    }
}

/// `(b_0 * t_0 + b_1 * t_1 + ...) mod n`, accumulated in this order.
pub open spec fn weighted_scalar_sum(b: Seq<nat>, ts: Seq<nat>) -> nat {
    (weighted_int_sum(b.map_values(|v: nat| v as int), ts) % (group_order() as int)) as nat
}

/// The weighted sum of a dealer's Pedersen commitments `cs`, weighted by the tags of `cs`
/// and its Feldman commitments `ss`.
pub open spec fn slog_pc(cs: Seq<Seq<u8>>, ss: Seq<Seq<u8>>) -> Seq<u8> {
    weighted_point_sum(cs, tags(cs, ss))
}

/// The weighted sum of a dealer's Feldman commitments, with the same weights.
pub open spec fn slog_dl(cs: Seq<Seq<u8>>, ss: Seq<Seq<u8>>) -> Seq<u8> {
    weighted_point_sum(ss.take(cs.len() as int), tags(cs, ss))
}

/// The weight of one commitment pair.
pub fn tag_of(c: &Point, s: &Point) -> (t: Scalar)
    ensures
        t@ == tag(c@, s@),
{
    let cb = c.to_bytes();
    let sb = s.to_bytes();
    let mut text = crate::hex::encode_upper(&cb);
    let hs = crate::hex::encode_upper(&sb);
    text.append(hs.as_str());
    let t_bn = hash_to_bignum(text.as_str());
    Scalar::from_bignum(&t_bn)
}

/// The weights of the pairs `(cs[i], ss[i])` for every index of `cs`.
pub fn tags_of(cs: &Vec<Point>, ss: &Vec<Point>) -> (r: Vec<Scalar>)
    requires
        cs@.len() <= ss@.len(),
    ensures
        r@.len() == cs@.len(),
        scalar_values(r@) == tags(point_encodings(cs@), point_encodings(ss@)),
{
    let mut r: Vec<Scalar> = Vec::new();
    let mut i: usize = 0;
    while i < cs.len()
        invariant
            cs@.len() <= ss@.len(),
            i <= cs@.len(),
            r@.len() == i,
            forall|k: int| 0 <= k < i ==> (#[trigger] r@[k])@ == tag(cs@[k]@, ss@[k]@),
        decreases cs@.len() - i,
    {
        r.push(tag_of(&cs[i], &ss[i]));
        i += 1;
    }
    assert(scalar_values(r@) =~= tags(point_encodings(cs@), point_encodings(ss@)));
    r
}

/// `zero + ps_0 * ts_0 + ...` over the weights `ts` (the first `ts.len()` points); whatever
/// discrete logarithms `d` those points have, the sum has discrete logarithm
/// `weighted_int_sum(d, ts)`.
pub fn weighted_sum(ps: &Vec<Point>, ts: &Vec<Scalar>) -> (r: Point)
    requires
        ts@.len() <= ps@.len(),
    ensures
        r@ == weighted_point_sum(
            point_encodings(ps@).take(ts@.len() as int),
            scalar_values(ts@),
        ),
        forall|d: Seq<int>|
            #[trigger] dlogs_of(point_encodings(ps@).take(ts@.len() as int), d) ==> r@ == gen_pow(
                weighted_int_sum(d, scalar_values(ts@)),
            ),
{
    let ghost e = point_encodings(ps@).take(ts@.len() as int);
    let ghost tv = scalar_values(ts@);
    let mut acc = Point::zero();
    let mut i: usize = 0;
    while i < ts.len()
        invariant
            ts@.len() <= ps@.len(),
            e == point_encodings(ps@).take(ts@.len() as int),
            tv == scalar_values(ts@),
            i <= ts@.len(),
            acc@ == weighted_point_sum(e.take(i as int), tv),
            forall|d: Seq<int>|
                #[trigger] dlogs_of(e, d) ==> acc@ == gen_pow(
                    weighted_int_sum(d.take(i as int), tv),
                ),
        decreases ts@.len() - i,
    {
        let m = ps[i].mul(&ts[i]);
        let next = acc.add(&m);
        proof {
            let e1 = e.take(i + 1);
            assert(e1.drop_last() =~= e.take(i as int));
            assert(tv.take(i as int) =~= tv.take(i + 1).take(i as int));
            lemma_weighted_point_sum_prefix(e.take(i as int), tv);
            lemma_weighted_point_sum_prefix(e1, tv);
            assert forall|d: Seq<int>| #[trigger] dlogs_of(e, d) implies next@ == gen_pow(
                weighted_int_sum(d.take(i + 1), tv),
            ) by {
                assert(acc@ == gen_pow(weighted_int_sum(d.take(i as int), tv)));
                assert(e[i as int] == ps@[i as int]@);
                assert(ps@[i as int]@ == gen_pow(d[i as int]));
                assert(m@ == gen_pow(d[i as int] * ts@[i as int]@));
                assert(d.take(i + 1).drop_last() =~= d.take(i as int));
                lemma_weighted_int_sum_prefix(d.take(i as int), tv);
                lemma_weighted_int_sum_prefix(d.take(i + 1), tv);
            }
        }
        acc = next;
        i += 1;
    }
    assert(e.take(ts@.len() as int) =~= e);
    proof {
        assert forall|d: Seq<int>| #[trigger] dlogs_of(e, d) implies acc@ == gen_pow(
            weighted_int_sum(d, tv),
        ) by {
            assert(d.take(ts@.len() as int) =~= d);
        }
    }
    acc
}

/// Only the first `ps.len()` weights matter.
pub proof fn lemma_weighted_point_sum_prefix(ps: Seq<Seq<u8>>, ts: Seq<nat>)
    requires
        ps.len() <= ts.len(),
    ensures
        weighted_point_sum(ps, ts) == weighted_point_sum(ps, ts.take(ps.len() as int)),
    decreases ps.len(),
{
    if ps.len() > 0 {
        assert(ts.take(ps.len() as int).take(ps.len() - 1) =~= ts.take(ps.len() - 1));
    }
}

/// Only the first `d.len()` weights matter.
pub proof fn lemma_weighted_int_sum_prefix(d: Seq<int>, ts: Seq<nat>)
    requires
        d.len() <= ts.len(),
    ensures
        weighted_int_sum(d, ts) == weighted_int_sum(d, ts.take(d.len() as int)),
    decreases d.len(),
{
    if d.len() > 0 {
        assert(ts.take(d.len() as int).take(d.len() - 1) =~= ts.take(d.len() - 1));
    }
}


/// `(bs_0 * ts_0 + bs_1 * ts_1 + ...) mod n` over the weights `ts`.
pub fn weighted_scalar(bs: &Vec<Scalar>, ts: &Vec<Scalar>) -> (r: Scalar)
    requires
        ts@.len() <= bs@.len(),
    ensures
        r@ == weighted_scalar_sum(scalar_values(bs@).take(ts@.len() as int), scalar_values(ts@)),
{
    let ghost tv = scalar_values(ts@);
    let ghost bv = scalar_values(bs@).map_values(|v: nat| v as int);
    let mut acc = Scalar::zero();
    let mut i: usize = 0;
    while i < ts.len()
        invariant
            ts@.len() <= bs@.len(),
            tv == scalar_values(ts@),
            bv == scalar_values(bs@).map_values(|v: nat| v as int),
            i <= ts@.len(),
            acc@ == weighted_int_sum(bv.take(i as int), tv) % (group_order() as int),
        decreases ts@.len() - i,
    {
        let m = bs[i].mul(&ts[i]);
        let next = acc.add(&m);
        proof {
            let n = group_order() as int;
            let prev = weighted_int_sum(bv.take(i as int), tv);
            assert(bv.take(i + 1).drop_last() =~= bv.take(i as int));
            lemma_weighted_int_sum_prefix(bv.take(i as int), tv);
            lemma_weighted_int_sum_prefix(bv.take(i + 1), tv);
            assert(tv.take(i + 1).take(i as int) =~= tv.take(i as int));
            assert(weighted_int_sum(bv.take(i + 1), tv) == prev + bv[i as int] * tv[i as int]);
            lemma_add_mod_noop(prev, bv[i as int] * tv[i as int], n);
            lemma_mod_twice(prev, n);
            lemma_mod_twice(bv[i as int] * tv[i as int], n);
            lemma_add_mod_noop(prev % n, (bv[i as int] * tv[i as int]) % n, n);
        }
        acc = next;
        i += 1;
    }
    assert(bv.take(ts@.len() as int) =~= scalar_values(bs@).take(ts@.len() as int).map_values(
        |v: nat| v as int,
    ));
    acc
}

/// Position-wise sums of two point vectors, as long as the shorter one.
pub open spec fn zip_add(a: Seq<Seq<u8>>, b: Seq<Seq<u8>>) -> Seq<Seq<u8>> {
    Seq::new(
        if a.len() <= b.len() {
            a.len()
        } else {
            b.len()
        },
        |j: int| spec_point_add(a[j], b[j]),
    )
}

/// `init` with each vector of `vs` added position-wise in turn (the fold that the proxy uses
/// to combine the nodes' commitment vectors).
pub open spec fn column_sums(init: Seq<Seq<u8>>, vs: Seq<Seq<Seq<u8>>>) -> Seq<Seq<u8>>
    decreases vs.len(),
{
    if vs.len() == 0 {
        init
    } else {
        zip_add(column_sums(init, vs.drop_last()), vs.last())
    }
}

/// The `j`-th entries of the discrete-logarithm vectors `ds`, summed.
pub open spec fn column_int_sum(ds: Seq<Seq<int>>, j: int) -> int
    decreases ds.len(),
{
    if ds.len() == 0 {
        0
    } else {
        column_int_sum(ds.drop_last(), j) + ds.last()[j]
    }
}

/// `ds[k]` lists discrete logarithms of `vs[k]`, for every `k`.
pub open spec fn all_dlogs(vs: Seq<Seq<Seq<u8>>>, ds: Seq<Seq<int>>) -> bool {
    &&& ds.len() == vs.len()
    &&& forall|k: int| 0 <= k < vs.len() ==> #[trigger] dlogs_of(vs[k], ds[k])
}

/// The encodings of a vector of point vectors.
pub open spec fn encodings_2(vs: Seq<Vec<Point>>) -> Seq<Seq<Seq<u8>>> {
    vs.map_values(|v: Vec<Point>| point_encodings(v@))
}

/// Position-wise sums of the vectors `vs`, starting from as many zero points as there are
/// vectors and keeping only the positions that every vector has.
pub fn sum_columns(vs: &Vec<Vec<Point>>) -> (r: Vec<Point>)
    ensures
        point_encodings(r@) == column_sums(
            Seq::new(vs@.len(), |j: int| zero_encoding()),
            encodings_2(vs@),
        ),
        forall|ds: Seq<Seq<int>>|
            #[trigger] all_dlogs(encodings_2(vs@), ds) ==> forall|j: int|
                0 <= j < r@.len() ==> (#[trigger] r@[j])@ == gen_pow(column_int_sum(ds, j)),
{
    let ghost es = encodings_2(vs@);
    let ghost init = Seq::new(vs@.len(), |j: int| zero_encoding());
    let mut acc: Vec<Point> = Vec::new();
    let mut z: usize = 0;
    while z < vs.len()
        invariant
            z <= vs@.len(),
            acc@.len() == z,
            forall|j: int| 0 <= j < z ==> (#[trigger] acc@[j])@ == zero_encoding(),
            forall|j: int| 0 <= j < z ==> (#[trigger] acc@[j])@ == gen_pow(0),
        decreases vs@.len() - z,
    {
        acc.push(Point::zero());
        z += 1;
    }
    assert(point_encodings(acc@) =~= init);
    let mut k: usize = 0;
    while k < vs.len()
        invariant
            es == encodings_2(vs@),
            init == Seq::new(vs@.len(), |j: int| zero_encoding()),
            k <= vs@.len(),
            point_encodings(acc@) == column_sums(init, es.take(k as int)),
            forall|ds: Seq<Seq<int>>|
                #[trigger] all_dlogs(es, ds) ==> forall|j: int|
                    0 <= j < acc@.len() ==> (#[trigger] acc@[j])@ == gen_pow(
                        column_int_sum(ds.take(k as int), j),
                    ),
        decreases vs@.len() - k,
    {
        let v = &vs[k];
        let m = if acc.len() <= v.len() {
            acc.len()
        } else {
            v.len()
        };
        let mut next: Vec<Point> = Vec::new();
        let mut j: usize = 0;
        while j < m
            invariant
                m <= acc@.len(),
                m <= v@.len(),
                j <= m,
                next@.len() == j,
                forall|i: int|
                    0 <= i < j ==> (#[trigger] next@[i])@ == spec_point_add(acc@[i]@, v@[i]@),
                forall|i: int, x: int, y: int|
                    #![trigger next@[i], gen_pow(x), gen_pow(y)]
                    0 <= i < j && acc@[i]@ == gen_pow(x) && v@[i]@ == gen_pow(y) ==> next@[i]@
                        == gen_pow(x + y),
            decreases m - j,
        {
            let p = acc[j].add(&v[j]);
            next.push(p);
            j += 1;
        }
        proof {
            assert(es.take(k + 1).drop_last() =~= es.take(k as int));
            assert(es[k as int] == point_encodings(v@));
            assert(point_encodings(next@) =~= zip_add(point_encodings(acc@), point_encodings(v@)));
            assert forall|ds: Seq<Seq<int>>| #[trigger] all_dlogs(es, ds) implies forall|i: int|
                0 <= i < next@.len() ==> (#[trigger] next@[i])@ == gen_pow(
                    column_int_sum(ds.take(k + 1), i),
                ) by {
                assert forall|i: int| 0 <= i < next@.len() implies (#[trigger] next@[i])@
                    == gen_pow(column_int_sum(ds.take(k + 1), i)) by {
                    assert(dlogs_of(es[k as int], ds[k as int]));
                    assert(es[k as int][i] == v@[i]@);
                    assert(v@[i]@ == gen_pow(ds[k as int][i]));
                    assert(acc@[i]@ == gen_pow(column_int_sum(ds.take(k as int), i)));
                    assert(ds.take(k + 1).drop_last() =~= ds.take(k as int));
                    assert(ds.take(k + 1).last() == ds[k as int]);
                }
            }
        }
        acc = next;
        k += 1;
    }
    assert(es.take(vs@.len() as int) =~= es);
    proof {
        assert forall|ds: Seq<Seq<int>>| #[trigger] all_dlogs(es, ds) implies forall|j: int|
            0 <= j < acc@.len() ==> (#[trigger] acc@[j])@ == gen_pow(column_int_sum(ds, j)) by {
            assert(ds.take(vs@.len() as int) =~= ds);
        }
    }
    acc
}

/// The weight of a commitment pair is the SHA-256 digest of the upper-case hex of the bytes of
/// the Pedersen commitment followed by those of the Feldman commitment, read as an integer and
/// reduced modulo the group order; so it depends on the pair only through those bytes in that
/// order.
pub proof fn law_tag_digest(c: Seq<u8>, s: Seq<u8>)
    ensures
        tag(c, s) == be_value(text_digest(upper_hex(c + s))) % group_order(),
        tag(c, s) == tag(c + s, Seq::empty()),
        tag(c, s) == tag(Seq::empty(), c + s),
{
    crate::hex::law_upper_hex_concat(c, s);
    crate::hex::law_upper_hex_concat(c + s, Seq::empty());
    crate::hex::law_upper_hex_concat(Seq::empty(), c + s);
    assert(c + s + Seq::<u8>::empty() =~= c + s);
    assert(Seq::<u8>::empty() + (c + s) =~= c + s);
}

/// Each pair is weighted on its own: the weights of the pairs `(cs[i], ss[i])` are one per
/// Pedersen commitment, and the `i`-th is the digest weight of the `i`-th Pedersen commitment's
/// bytes followed by the `i`-th Feldman commitment's bytes.
pub proof fn law_tags_pairwise(cs: Seq<Seq<u8>>, ss: Seq<Seq<u8>>, i: int)
    requires
        0 <= i < cs.len(),
    ensures
        tags(cs, ss).len() == cs.len(),
        tags(cs, ss)[i] == be_value(text_digest(upper_hex(cs[i] + ss[i]))) % group_order(),
{
    law_tag_digest(cs[i], ss[i]);
}

} // verus!
