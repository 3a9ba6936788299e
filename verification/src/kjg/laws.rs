//! What the phases of the key generation promise one another, in discrete logarithms: the
//! joint shares match the summed commitments, the dealer's and the proxy's batch commitments
//! agree, and an honest dealer's commitment proof is accepted.

use vstd::prelude::*;
use vstd::arithmetic::div_mod::*;
use vstd::arithmetic::mul::*;
use crate::field::group_order;
use crate::group::gen_pow;
use crate::kjg::combine::{column_int_sum, weighted_int_sum, weighted_scalar_sum};
use crate::kjg::node::shares_at;
use crate::kjg::proxy::evals_at;
use crate::kjg::vss::{lemma_pedersen_linear, pedersen_dlogs};
use crate::poly::{as_ints, poly_eval, poly_value};

verus! {

/// The coefficient-wise sums of the dealers' logarithm vectors, over the first `len`
/// positions: the logarithms of the summed commitments.
pub open spec fn joint_dlogs(ds: Seq<Seq<int>>, len: nat) -> Seq<int> {
    Seq::new(len, |j: int| column_int_sum(ds, j))
}

/// The logarithms of each dealer's Pedersen commitments, dealer `k` having used the
/// coefficients `a[k]` and `b[k]`, when `H = hd * G`.
pub open spec fn dealer_dlogs(a: Seq<Seq<nat>>, b: Seq<Seq<nat>>, hd: int) -> Seq<Seq<int>> {
    Seq::new(a.len(), |k: int| pedersen_dlogs(a[k], b[k], hd))
}

/// The coefficients of each dealer as integers.
pub open spec fn dealer_ints(a: Seq<Seq<nat>>) -> Seq<Seq<int>> {
    Seq::new(a.len(), |k: int| as_ints(a[k]))
}

/// The sum, over the dealers, of the shares that dealer `k` (coefficients `a[k]`) gives to `x`.
pub open spec fn share_total(a: Seq<Seq<nat>>, x: nat) -> int
    decreases a.len(),
{
    if a.len() == 0 {
        0
    } else {
        share_total(a.drop_last(), x) + poly_eval(a.last(), x)
    }
}

/// The sum, over the dealers, of their polynomials' values at `x`, without reduction.
pub open spec fn value_total(ds: Seq<Seq<int>>, x: int) -> int
    decreases ds.len(),
{
    if ds.len() == 0 {
        0
    } else {
        value_total(ds.drop_last(), x) + poly_value(ds.last(), x)
    }
}

/// Position-wise sums of two integer sequences.
pub open spec fn add_seqs(a: Seq<int>, b: Seq<int>) -> Seq<int> {
    Seq::new(a.len(), |j: int| a[j] + b[j])
}

pub(crate) proof fn lemma_poly_value_add(a: Seq<int>, b: Seq<int>, x: int)
    requires
        a.len() == b.len(),
    ensures
        poly_value(add_seqs(a, b), x) == poly_value(a, x) + poly_value(b, x),
    decreases a.len(),
{
    if a.len() > 0 {
        let a1 = a.drop_first();
        let b1 = b.drop_first();
        lemma_poly_value_add(a1, b1, x);
        assert(add_seqs(a, b).drop_first() =~= add_seqs(a1, b1));
        lemma_mul_is_distributive_add(x, poly_value(a1, x), poly_value(b1, x));
    }
}

pub(crate) proof fn lemma_poly_value_zeros(z: Seq<int>, x: int)
    requires
        forall|j: int| 0 <= j < z.len() ==> z[j] == 0,
    ensures
        poly_value(z, x) == 0,
    decreases z.len(),
{
    if z.len() > 0 {
        lemma_poly_value_zeros(z.drop_first(), x);
        lemma_mul_basics(x);
    }
}

/// The polynomial of the summed coefficients is the sum of the polynomials.
pub(crate) proof fn lemma_joint_poly_value(ds: Seq<Seq<int>>, x: int, len: nat)
    requires
        forall|k: int| 0 <= k < ds.len() ==> (#[trigger] ds[k]).len() == len,
    ensures
        poly_value(joint_dlogs(ds, len), x) == value_total(ds, x),
    decreases ds.len(),
{
    if ds.len() == 0 {
        lemma_poly_value_zeros(joint_dlogs(ds, len), x);
    } else {
        let ds1 = ds.drop_last();
        lemma_joint_poly_value(ds1, x, len);
        assert(ds.last().len() == len);
        assert(joint_dlogs(ds, len) =~= add_seqs(joint_dlogs(ds1, len), ds.last()));
        lemma_poly_value_add(joint_dlogs(ds1, len), ds.last(), x);
    }
}

/// Summed Pedersen logarithms: the sum of the Pedersen polynomials is the sum of the secret
/// polynomials plus `hd` times the sum of the blinding polynomials.
proof fn lemma_dealer_total(a: Seq<Seq<nat>>, b: Seq<Seq<nat>>, hd: int, x: int)
    requires
        a.len() == b.len(),
        forall|k: int| 0 <= k < a.len() ==> (#[trigger] a[k]).len() == b[k].len(),
    ensures
        value_total(dealer_dlogs(a, b, hd), x) == value_total(dealer_ints(a), x) + hd
            * value_total(dealer_ints(b), x),
    decreases a.len(),
{
    if a.len() > 0 {
        let a1 = a.drop_last();
        let b1 = b.drop_last();
        lemma_dealer_total(a1, b1, hd, x);
        assert(dealer_dlogs(a, b, hd).drop_last() =~= dealer_dlogs(a1, b1, hd));
        assert(dealer_ints(a).drop_last() =~= dealer_ints(a1));
        assert(dealer_ints(b).drop_last() =~= dealer_ints(b1));
        assert(a.last().len() == b.last().len());
        lemma_pedersen_linear(a.last(), b.last(), hd, x);
        lemma_mul_is_distributive_add(
            hd,
            value_total(dealer_ints(b1), x),
            poly_value(as_ints(b.last()), x),
        );
    }
}

/// The reduced shares add up, modulo the group order, to the sum of the polynomials' values.
proof fn lemma_share_total_mod(a: Seq<Seq<nat>>, x: nat)
    ensures
        share_total(a, x) % (group_order() as int) == value_total(dealer_ints(a), x as int) % (
        group_order() as int),
    decreases a.len(),
{
    let n = group_order() as int;
    if a.len() > 0 {
        let a1 = a.drop_last();
        lemma_share_total_mod(a1, x);
        assert(dealer_ints(a).drop_last() =~= dealer_ints(a1));
        let v = poly_value(as_ints(a.last()), x as int);
        lemma_add_mod_noop(share_total(a1, x), poly_eval(a.last(), x) as int, n);
        lemma_add_mod_noop(value_total(dealer_ints(a1), x as int), v, n);
        lemma_mod_bound(v, n);
        lemma_mod_twice(v, n);
    }
}

/// The joint share passes the Pedersen check against the summed commitments: when dealer `k`
/// dealt with the coefficients `a[k]` and `b[k]` (so its commitments have the logarithms
/// `a[k][j] + hd * b[k][j]`, `H = hd * G`), and a node at `x` holds `s` and `r`, the sums
/// (modulo the group order) of the secret and blinding shares it was dealt, then
/// `G * s + H * r` has the logarithm of the summed commitments evaluated at `x`.
pub proof fn law_joint_share_validates(
    a: Seq<Seq<nat>>,
    b: Seq<Seq<nat>>,
    hd: int,
    x: nat,
    len: nat,
    s: nat,
    r: nat,
)
    requires
        a.len() == b.len(),
        forall|k: int| 0 <= k < a.len() ==> (#[trigger] a[k]).len() == len && b[k].len() == len,
        s % group_order() == share_total(a, x) % (group_order() as int),
        r % group_order() == share_total(b, x) % (group_order() as int),
    ensures
        gen_pow(s + hd * r) == gen_pow(poly_value(joint_dlogs(dealer_dlogs(a, b, hd), len), x as int)),
{
    let n = group_order() as int;
    let ds = dealer_dlogs(a, b, hd);
    assert forall|k: int| 0 <= k < ds.len() implies (#[trigger] ds[k]).len() == len by {
        assert(a[k].len() == len);
    }
    lemma_joint_poly_value(ds, x as int, len);
    lemma_dealer_total(a, b, hd, x as int);
    lemma_share_total_mod(a, x);
    lemma_share_total_mod(b, x);
    let va = value_total(dealer_ints(a), x as int);
    let vb = value_total(dealer_ints(b), x as int);
    // s + hd * r and va + hd * vb agree modulo n
    lemma_add_mod_noop(s as int, hd * r, n);
    lemma_add_mod_noop(va, hd * vb, n);
    lemma_mul_mod_noop_right(hd, r as int, n);
    lemma_mul_mod_noop_right(hd, vb, n);
}

/// The joint key share passes the Feldman check against the summed Feldman commitments: when
/// dealer `k` used the secret coefficients `a[k]` and a node at `x` holds `s`, the sum (modulo
/// the group order) of the secret shares it was dealt, then `G * s` has the logarithm of the
/// summed commitments `G * a[k][j]` evaluated at `x`.
pub proof fn law_joint_key_share_validates(a: Seq<Seq<nat>>, x: nat, len: nat, s: nat)
    requires
        forall|k: int| 0 <= k < a.len() ==> (#[trigger] a[k]).len() == len,
        s % group_order() == share_total(a, x) % (group_order() as int),
    ensures
        gen_pow(s as int) == gen_pow(poly_value(joint_dlogs(dealer_ints(a), len), x as int)),
{
    let ds = dealer_ints(a);
    assert forall|k: int| 0 <= k < ds.len() implies (#[trigger] ds[k]).len() == len by {
        assert(a[k].len() == len);
    }
    lemma_joint_poly_value(ds, x as int, len);
    lemma_share_total_mod(a, x);
}

/// `d1[i] + hd * d2[i]` for each position of `d1`.
pub open spec fn combo(d1: Seq<int>, d2: Seq<int>, hd: int) -> Seq<int> {
    Seq::new(d1.len(), |i: int| d1[i] + hd * d2[i])
}

/// Each entry reduced modulo the group order.
pub open spec fn reduced_ints(d: Seq<int>) -> Seq<int> {
    Seq::new(d.len(), |i: int| d[i] % (group_order() as int))
}

pub(crate) proof fn lemma_weighted_combo(d1: Seq<int>, d2: Seq<int>, hd: int, ts: Seq<nat>)
    requires
        d1.len() == d2.len(),
        d1.len() <= ts.len(),
    ensures
        weighted_int_sum(combo(d1, d2, hd), ts) == weighted_int_sum(d1, ts) + hd * weighted_int_sum(
            d2,
            ts,
        ),
    decreases d1.len(),
{
    if d1.len() > 0 {
        let l = d1.len() - 1;
        let ts1 = ts.take(l);
        lemma_weighted_combo(d1.drop_last(), d2.drop_last(), hd, ts1);
        assert(combo(d1, d2, hd).drop_last() =~= combo(d1.drop_last(), d2.drop_last(), hd));
        let w1 = weighted_int_sum(d1.drop_last(), ts1);
        let w2 = weighted_int_sum(d2.drop_last(), ts1);
        let t = ts[l] as int;
        assert((d1[l] + hd * d2[l]) * t + w1 + hd * w2 == (w1 + d1[l] * t) + hd * (w2 + d2[l] * t))
            by (nonlinear_arith);
    }
}

pub(crate) proof fn lemma_weighted_mod(d: Seq<int>, ts: Seq<nat>)
    requires
        d.len() <= ts.len(),
    ensures
        weighted_int_sum(reduced_ints(d), ts) % (group_order() as int) == weighted_int_sum(d, ts) % (
        group_order() as int),
    decreases d.len(),
{
    let n = group_order() as int;
    if d.len() > 0 {
        let l = d.len() - 1;
        let ts1 = ts.take(l);
        lemma_weighted_mod(d.drop_last(), ts1);
        assert(reduced_ints(d).drop_last() =~= reduced_ints(d.drop_last()));
        let t = ts[l] as int;
        lemma_add_mod_noop(weighted_int_sum(reduced_ints(d.drop_last()), ts1), (d[l] % n) * t, n);
        lemma_add_mod_noop(weighted_int_sum(d.drop_last(), ts1), d[l] * t, n);
        lemma_mul_mod_noop_left(d[l], t, n);
        lemma_mod_twice(d[l], n);
        lemma_mul_mod_noop_left(d[l] % n, t, n);
    }
}

/// An honest dealer's two batch commitments agree: with weights `ts` and receivers `ids`,
/// the dealer's `G * st + H * rt` (`st`, `rt` the weighted sums of its secret and blinding
/// shares, modulo the group order) and the proxy's `sum_i C(id_i) * t_i` (`C` the evaluation
/// of its Pedersen commitments, logarithms `a_j + hd * b_j`) have the same logarithm.
pub proof fn law_batch_commitments_agree(
    a: Seq<nat>,
    b: Seq<nat>,
    hd: int,
    ids: Seq<u16>,
    ts: Seq<nat>,
)
    requires
        a.len() == b.len(),
        ids.len() <= ts.len(),
    ensures
        gen_pow(
            weighted_scalar_sum(shares_at(a, ids), ts) + hd * weighted_scalar_sum(shares_at(b, ids), ts),
        ) == gen_pow(weighted_int_sum(evals_at(pedersen_dlogs(a, b, hd), ids), ts)),
{
    let n = group_order() as int;
    let pa = Seq::new(ids.len(), |i: int| poly_value(as_ints(a), ids[i] as int));
    let pb = Seq::new(ids.len(), |i: int| poly_value(as_ints(b), ids[i] as int));
    let pd = Seq::new(ids.len(), |i: int| poly_value(pedersen_dlogs(a, b, hd), ids[i] as int));
    assert forall|i: int| 0 <= i < ids.len() implies #[trigger] pd[i] == combo(pa, pb, hd)[i] by {
        lemma_pedersen_linear(a, b, hd, ids[i] as int);
    }
    assert(pd =~= combo(pa, pb, hd));
    assert(pd =~= evals_at(pedersen_dlogs(a, b, hd), ids));
    lemma_weighted_combo(pa, pb, hd, ts);
    assert(shares_at(a, ids).map_values(|v: nat| v as int) =~= reduced_ints(pa));
    assert(shares_at(b, ids).map_values(|v: nat| v as int) =~= reduced_ints(pb));
    lemma_weighted_mod(pa, ts);
    lemma_weighted_mod(pb, ts);
    let wa = weighted_int_sum(pa, ts);
    let wb = weighted_int_sum(pb, ts);
    let st = weighted_scalar_sum(shares_at(a, ids), ts);
    let rt = weighted_scalar_sum(shares_at(b, ids), ts);
    assert(st == wa % n);
    assert(rt == wb % n);
    lemma_add_mod_noop(st as int, hd * rt, n);
    lemma_add_mod_noop(wa, hd * wb, n);
    lemma_mul_mod_noop_right(hd, rt as int, n);
    lemma_mul_mod_noop_right(hd, wb, n);
    lemma_mod_twice(wb, n);
    lemma_mod_twice(wa, n);
}

/// An honest dealer's phase-four proof is accepted up to the challenge: when its Pedersen
/// commitments have the logarithms `a_j + hd * b_j` and its Feldman commitments `a_j`, the
/// weighted sums `pc` and `dl` (weights `ts`) differ by `H * bt`, `bt` the weighted blinding
/// sum; so for the proof `z = s + e * bt` with the reduced challenge `e`, the commitment that
/// verification recomputes, `z * H - (pc - dl) * e`, is the prover's `s * H`.
pub proof fn law_slog_complete(a: Seq<nat>, b: Seq<nat>, hd: int, ts: Seq<nat>, s: nat, e: nat)
    requires
        a.len() == b.len(),
        a.len() <= ts.len(),
        e < group_order(),
    ensures
        gen_pow(
            hd * ((s + e * weighted_scalar_sum(b, ts)) % group_order()) - (weighted_int_sum(
                pedersen_dlogs(a, b, hd),
                ts,
            ) - weighted_int_sum(as_ints(a), ts)) * e,
        ) == gen_pow(hd * s),
{
    let n = group_order() as int;
    assert(pedersen_dlogs(a, b, hd) =~= combo(as_ints(a), as_ints(b), hd));
    lemma_weighted_combo(as_ints(a), as_ints(b), hd, ts);
    let p = weighted_int_sum(pedersen_dlogs(a, b, hd), ts);
    let q = weighted_int_sum(as_ints(a), ts);
    let wb = weighted_int_sum(as_ints(b), ts);
    assert(b.map_values(|v: nat| v as int) =~= as_ints(b));
    let bt = weighted_scalar_sum(b, ts);
    assert(bt == wb % n);
    assert(p - q == hd * wb);
    lemma_mul_mod_noop_right(hd, wb, n);
    lemma_mod_twice(wb, n);
    crate::kjg::zkp::law_dl_pc_complete(hd, s, bt, e, p, q);
}

/// The nonce `s` of a phase-four proof for the commitments `cs`, `ss` and blinding
/// coefficients `b` gives a challenge below the group order.
pub open spec fn challenge_in_range(
    p: crate::kjg::zkp::DlPcProof,
    cs: Seq<Seq<u8>>,
    ss: Seq<Seq<u8>>,
    b: Seq<nat>,
) -> bool {
    forall|s: nat|
        #[trigger] crate::kjg::zkp::made_with(
            p,
            crate::kjg::combine::slog_pc(cs, ss),
            crate::kjg::combine::slog_dl(cs, ss),
            crate::kjg::node::slog_blind(b, cs, ss),
            s,
        ) ==> crate::kjg::zkp::challenge_value(
            crate::kjg::combine::slog_pc(cs, ss),
            crate::kjg::combine::slog_dl(cs, ss),
            crate::group::spec_point_mul(crate::group::base_point2_encoding(), s),
        ) < group_order()
}

/// Phase five accepts honest dealers and sums their coefficients in the exponent: when every
/// message is one that phase four made (`phase_four_complete`, Feldman commitments `G * a_j`)
/// for the Pedersen commitments `cs[k]` that the proxy stored for its sender, those are
/// `G * a_j + H * b_j` with `H = hd * G`, and the challenge under the proof's nonce lies below
/// the group order, then every proof passes the check of phase five, and the messages'
/// Feldman vectors have the logarithms `a[k]`, so that the sums phase five returns are
/// `G * sum_k a[k][j]`.
pub proof fn law_phase_five_accepts(
    msgs: Seq<crate::kjg::message::NodeToProxyKeyGenPhaseFourP2PMsg>,
    cs: Seq<Seq<Seq<u8>>>,
    a: Seq<Seq<nat>>,
    b: Seq<Seq<nat>>,
    hd: int,
)
    requires
        cs.len() == msgs.len(),
        a.len() == msgs.len(),
        b.len() == msgs.len(),
        crate::group::base_point2_encoding() == gen_pow(hd),
        forall|k: int, j: int| 0 <= k < a.len() && 0 <= j < a[k].len() ==> #[trigger] a[k][j] < group_order(),
        forall|k: int|
            0 <= k < msgs.len() ==> {
                let ss = crate::poly::point_encodings((#[trigger] msgs[k]).s_coefficients_log@);
                &&& ss == crate::kjg::node::g_muls(a[k])
                &&& crate::kjg::node::phase_four_complete(msgs[k].dlog_proof, cs[k], ss, a[k], b[k])
                &&& a[k].len() == b[k].len()
                &&& crate::poly::dlogs_of(cs[k], pedersen_dlogs(a[k], b[k], hd))
                &&& challenge_in_range(msgs[k].dlog_proof, cs[k], ss, b[k])
            },
    ensures
        forall|k: int| 0 <= k < msgs.len() ==> crate::kjg::proxy::slog_ok(cs[k], #[trigger] msgs[k]),
        crate::kjg::combine::all_dlogs(
            crate::kjg::combine::encodings_2(crate::kjg::proxy::slog_vectors(msgs)),
            Seq::new(a.len(), |k: int| as_ints(a[k])),
        ),
{
    let vs = crate::kjg::combine::encodings_2(crate::kjg::proxy::slog_vectors(msgs));
    let ds = Seq::new(a.len(), |k: int| as_ints(a[k]));
    assert forall|k: int| 0 <= k < msgs.len() implies crate::kjg::proxy::slog_ok(cs[k], #[trigger] msgs[k])
        && crate::poly::dlogs_of(vs[k], ds[k]) by {
        let ss = crate::poly::point_encodings(msgs[k].s_coefficients_log@);
        let s = choose|s: nat|
            #[trigger] crate::kjg::zkp::made_with(
                msgs[k].dlog_proof,
                crate::kjg::combine::slog_pc(cs[k], ss),
                crate::kjg::combine::slog_dl(cs[k], ss),
                crate::kjg::node::slog_blind(b[k], cs[k], ss),
                s,
            ) && forall|h: int|
                #![trigger gen_pow(h)]
                crate::group::base_point2_encoding() == gen_pow(h) && a[k].len() == b[k].len()
                    && crate::poly::dlogs_of(cs[k], pedersen_dlogs(a[k], b[k], h)) ==> (
                crate::kjg::zkp::proof_accepts(
                    msgs[k].dlog_proof,
                    crate::kjg::combine::slog_pc(cs[k], ss),
                    crate::kjg::combine::slog_dl(cs[k], ss),
                ) <==> crate::kjg::zkp::challenge_value(
                    crate::kjg::combine::slog_pc(cs[k], ss),
                    crate::kjg::combine::slog_dl(cs[k], ss),
                    crate::group::spec_point_mul(crate::group::base_point2_encoding(), s),
                ) < group_order());
        assert(gen_pow(hd) == crate::group::base_point2_encoding());
        assert(vs[k] == ss);
        assert forall|j: int| 0 <= j < vs[k].len() implies vs[k][j] == gen_pow(ds[k][j]) by {
            assert(a[k][j] < group_order());
            lemma_small_mod(a[k][j], group_order());
        }
    }
}

} // verus!
