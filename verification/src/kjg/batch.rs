//! Public inputs of the batch proof that a dealer's CL ciphertexts encrypt the shares it
//! committed to. The dealer and the proxy derive them alike from the ciphertexts.

use vstd::prelude::*;
use vstd::string::*;
use crate::digest::{hash_to_bignum, text_digest};
use crate::field::{group_order, Scalar};
use crate::group::{base_point2_encoding, Point};
use crate::hex::upper_hex;
use crate::lagrange::values;
use crate::numbers::{be_value, decimal_repr, BigNum};
use crate::poly::scalar_values;
use crate::text::push_char;

verus! {

/// The weight of one receiver's ciphertext pair: the SHA-256 digest of the share ciphertext
/// followed by the blinding ciphertext, read as an integer.
pub open spec fn enc_tag(share_enc: Seq<char>, random_enc: Seq<char>) -> nat {
    be_value(text_digest(share_enc + random_enc))
}

/// The characters of each string.
pub open spec fn texts(v: Seq<String>) -> Seq<Seq<char>> {
    v.map_values(|s: String| s@)
}

/// The parts separated by `sep` (empty for no parts).
pub open spec fn joined(parts: Seq<Seq<char>>, sep: char) -> Seq<char>
    decreases parts.len(),
{
    if parts.len() == 0 {
        Seq::empty()
    } else if parts.len() == 1 {
        parts[0]
    } else {
        joined(parts.drop_last(), sep).push(sep) + parts.last()
    }
}

/// The sum of the numbers.
pub open spec fn nat_sum(ts: Seq<nat>) -> nat
    decreases ts.len(),
{
    if ts.len() == 0 {
        0
    } else {
        nat_sum(ts.drop_last()) + ts.last()
    }
}

/// The decimal texts of the numbers.
pub open spec fn decimals(ts: Seq<nat>) -> Seq<Seq<char>> {
    ts.map_values(|t: nat| decimal_repr(t))
}

/// The numbers reduced modulo the group order.
pub open spec fn reduced(ts: Seq<nat>) -> Seq<nat> {
    ts.map_values(|t: nat| t % group_order())
}

/// The weight of a ciphertext pair.
pub fn enc_tag_of(share_enc: &String, random_enc: &String) -> (t: BigNum)
    ensures
        t@ == enc_tag(share_enc@, random_enc@),
{
    let mut text = share_enc.clone();
    text.append(random_enc.as_str());
    hash_to_bignum(text.as_str())
}

/// The strings joined by `sep`.
pub fn join_texts(parts: &Vec<String>, sep: char) -> (r: String)
    ensures
        r@ == joined(texts(parts@), sep),
{
    let ghost ps = texts(parts@);
    let mut r = String::new();
    let mut i: usize = 0;
    while i < parts.len()
        invariant
            ps == texts(parts@),
            i <= parts@.len(),
            r@ == joined(ps.take(i as int), sep),
        decreases parts@.len() - i,
    {
        if i > 0 {
            push_char(&mut r, sep);
        }
        r.append(parts[i].as_str());
        proof {
            assert(ps.take(i + 1).drop_last() =~= ps.take(i as int));
            if i == 0 {
                assert(r@ =~= ps.take(1)[0]);
            }
        }
        i += 1;
    }
    assert(ps.take(parts@.len() as int) =~= ps);
    r
}

/// The sum of the integers.
pub fn sum_all(ts: &Vec<BigNum>) -> (r: BigNum)
    ensures
        r@ == nat_sum(values(ts@)),
{
    let ghost vs = values(ts@);
    let mut acc = BigNum::zero();
    let mut i: usize = 0;
    while i < ts.len()
        invariant
            vs == values(ts@),
            i <= ts@.len(),
            acc@ == nat_sum(vs.take(i as int)),
        decreases ts@.len() - i,
    {
        acc = acc.add(&ts[i]);
        assert(vs.take(i + 1).drop_last() =~= vs.take(i as int));
        i += 1;
    }
    assert(vs.take(ts@.len() as int) =~= vs);
    acc
}

/// The decimal text of each integer.
pub fn decimal_texts(ts: &Vec<BigNum>) -> (r: Vec<String>)
    ensures
        r@.len() == ts@.len(),
        texts(r@) == decimals(values(ts@)),
{
    let mut r: Vec<String> = Vec::new();
    let mut i: usize = 0;
    while i < ts.len()
        invariant
            i <= ts@.len(),
            r@.len() == i,
            forall|k: int| 0 <= k < i ==> (#[trigger] r@[k])@ == decimal_repr(ts@[k]@),
        decreases ts@.len() - i,
    {
        r.push(ts[i].to_decimal());
        i += 1;
    }
    assert(texts(r@) =~= decimals(values(ts@)));
    r
}

/// Each integer reduced modulo the group order.
pub fn scalars_of(ts: &Vec<BigNum>) -> (r: Vec<Scalar>)
    ensures
        r@.len() == ts@.len(),
        scalar_values(r@) == reduced(values(ts@)),
{
    let mut r: Vec<Scalar> = Vec::new();
    let mut i: usize = 0;
    while i < ts.len()
        invariant
            i <= ts@.len(),
            r@.len() == i,
            forall|k: int| 0 <= k < i ==> (#[trigger] r@[k])@ == ts@[k]@ % group_order(),
        decreases ts@.len() - i,
    {
        r.push(Scalar::from_bignum(&ts[i]));
        i += 1;
    }
    assert(scalar_values(r@) =~= reduced(values(ts@)));
    r
}

/// The public inputs of the batch proof, as the CL library takes them.
#[derive(Clone, Debug)]
pub struct BatchStatement {
    /// Upper-case hex of the batch commitment.
    pub pc: String,
    /// Upper-case hex of the second generator `H`.
    pub h: String,
    /// Decimal sum of the weights.
    pub t_total: String,
    /// Decimal weights joined by `:`.
    pub t_vec: String,
    /// Receivers' CL public keys joined by `;`.
    pub pk_vec: String,
    /// Decimal weights, one per receiver (to scale the ciphertexts by).
    pub t_values: Vec<String>,
}

/// `st` states the batch commitment `pc`, the weights `ts` and the public keys `pks`.
pub open spec fn states(st: BatchStatement, pc: Seq<u8>, ts: Seq<nat>, pks: Seq<Seq<char>>) -> bool {
    &&& st.pc@ == upper_hex(pc)
    &&& st.h@ == upper_hex(base_point2_encoding())
    &&& st.t_total@ == decimal_repr(nat_sum(ts))
    &&& st.t_vec@ == joined(decimals(ts), ':')
    &&& st.pk_vec@ == joined(pks, ';')
    &&& texts(st.t_values@) == decimals(ts)
}

/// Writes out the public inputs for the batch commitment `pc`, the weights `ts` and the
/// public keys `pks`.
pub fn batch_statement(pc: &Point, ts: &Vec<BigNum>, pks: &Vec<String>) -> (r: BatchStatement)
    ensures
        states(r, pc@, values(ts@), texts(pks@)),
{
    let pcb = pc.to_bytes();
    let h = Point::base_point2();
    let hb = h.to_bytes();
    let t_values = decimal_texts(ts);
    let total = sum_all(ts);
    BatchStatement {
        pc: crate::hex::encode_upper(&pcb),
        h: crate::hex::encode_upper(&hb),
        t_total: total.to_decimal(),
        t_vec: join_texts(&t_values, ':'),
        pk_vec: join_texts(pks, ';'),
        t_values,
    }
}

/// The sum of a single number is that number.
pub proof fn law_nat_sum_single(t: nat)
    ensures
        nat_sum(seq![t]) == t,
{
    assert(seq![t].drop_last() =~= Seq::<nat>::empty());
    assert(nat_sum(Seq::<nat>::empty()) == 0);
    assert(seq![t].last() == t);
}

/// The sum is additive: the sum of `a` followed by `b` is the sum of `a` plus the sum of `b`.
/// With the single-number law this makes it the ordinary sum of every number, in any split.
pub proof fn law_nat_sum_concat(a: Seq<nat>, b: Seq<nat>)
    ensures
        nat_sum(a + b) == nat_sum(a) + nat_sum(b),
    decreases b.len(),
{
    if b.len() == 0 {
        assert(a + b =~= a);
    } else {
        law_nat_sum_concat(a, b.drop_last());
        assert((a + b).drop_last() =~= a + b.drop_last());
        assert((a + b).last() == b.last());
    }
}

/// Every number counts in the sum: each is at most the sum, and adding one to a number adds
/// one to the sum.
pub proof fn law_nat_sum_each(ts: Seq<nat>, i: int)
    requires
        0 <= i < ts.len(),
    ensures
        ts[i] <= nat_sum(ts),
        nat_sum(ts.update(i, ts[i] + 1)) == nat_sum(ts) + 1,
{
    let a = ts.take(i);
    let b = ts.skip(i + 1);
    assert(ts =~= a + seq![ts[i]] + b);
    assert(ts.update(i, ts[i] + 1) =~= a + seq![(ts[i] + 1) as nat] + b);
    law_nat_sum_concat(a + seq![ts[i]], b);
    law_nat_sum_concat(a, seq![ts[i]]);
    law_nat_sum_concat(a + seq![(ts[i] + 1) as nat], b);
    law_nat_sum_concat(a, seq![(ts[i] + 1) as nat]);
    law_nat_sum_single(ts[i]);
    law_nat_sum_single((ts[i] + 1) as nat);
}

/// The batch statement's total is the decimal text of the ordinary sum of the weights: split
/// the weights anywhere into `a` and `b`, and it is the decimal of `sum(a) + sum(b)`; over a
/// single weight `t` it is the decimal of `t`.
pub proof fn law_batch_total(
    st: BatchStatement,
    pc: Seq<u8>,
    ts: Seq<nat>,
    pks: Seq<Seq<char>>,
    a: Seq<nat>,
    b: Seq<nat>,
)
    requires
        states(st, pc, ts, pks),
        ts == a + b,
    ensures
        st.t_total@ == decimal_repr(nat_sum(a) + nat_sum(b)),
        ts.len() == 1 ==> st.t_total@ == decimal_repr(ts[0]),
{
    law_nat_sum_concat(a, b);
    if ts.len() == 1 {
        assert(ts =~= seq![ts[0]]);
        law_nat_sum_single(ts[0]);
    }
}

/// The weight of a ciphertext pair is the SHA-256 digest of the share ciphertext followed by
/// the blinding ciphertext, read as an integer; so it depends on the two texts only through
/// their concatenation, share first.
pub proof fn law_enc_tag_digest(share_enc: Seq<char>, random_enc: Seq<char>)
    ensures
        enc_tag(share_enc, random_enc) == be_value(text_digest(share_enc + random_enc)),
        enc_tag(share_enc, random_enc) == enc_tag(share_enc + random_enc, Seq::empty()),
        enc_tag(share_enc, random_enc) == enc_tag(Seq::empty(), share_enc + random_enc),
{
    assert(share_enc + random_enc + Seq::<char>::empty() =~= share_enc + random_enc);
    assert(Seq::<char>::empty() + (share_enc + random_enc) =~= share_enc + random_enc);
}

} // verus!
