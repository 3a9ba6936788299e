use vstd::prelude::*;
use vstd::arithmetic::div_mod::*;
use vstd::arithmetic::mul::*;
use vstd::string::*;
use crate::digest::{hash_to_bignum, text_digest};
use crate::field::{group_order, Scalar};
use crate::group::{base_point2_encoding, gen_pow, spec_point_mul, spec_point_sub, Point};
use crate::hex::upper_hex;
use crate::numbers::{be_value, BigNum};

verus! {

/// A proof that `pc - dl` is a known multiple `bt` of the second generator `H`
/// (Schnorr-style, made non-interactive by hashing).
#[derive(Clone, Debug)]
pub struct DlPcProof {
    pub z: BigNum,
    pub e: BigNum,
}

/// The text that is hashed for the challenge: upper-case hex of `pc`, `dl` and `s_h`.
pub open spec fn challenge_text(pc: Seq<u8>, dl: Seq<u8>, s_h: Seq<u8>) -> Seq<char> {
    upper_hex(pc) + upper_hex(dl) + upper_hex(s_h)
}

/// The challenge integer (the SHA-256 digest of the challenge text, below 2^256).
pub open spec fn challenge_value(pc: Seq<u8>, dl: Seq<u8>, s_h: Seq<u8>) -> nat {
    be_value(text_digest(challenge_text(pc, dl, s_h)))
}

/// The commitment that verification recomputes: `z * H - (pc - dl) * e`.
pub open spec fn recomputed_commitment(pc: Seq<u8>, dl: Seq<u8>, z: nat, e: nat) -> Seq<u8> {
    spec_point_sub(
        spec_point_mul(base_point2_encoding(), z % group_order()),
        spec_point_mul(spec_point_sub(pc, dl), e % group_order()),
    )
}

/// `p` is the proof for `pc`, `dl` and `bt` with the non-zero nonce `s`:
/// `e` is the reduced challenge of `pc`, `dl` and `s * H`, and `z = s + e * bt`.
pub open spec fn made_with(p: DlPcProof, pc: Seq<u8>, dl: Seq<u8>, bt: nat, s: nat) -> bool {
    &&& 0 < s < group_order()
    &&& p.e@ == challenge_value(pc, dl, spec_point_mul(base_point2_encoding(), s)) % group_order()
    &&& p.z@ == (s + p.e@ * bt) % group_order()
}

/// `p` is the proof for `pc`, `dl` and `bt` with some non-zero nonce.
pub open spec fn proof_for(p: DlPcProof, pc: Seq<u8>, dl: Seq<u8>, bt: nat) -> bool {
    exists|s: nat| #[trigger] made_with(p, pc, dl, bt, s)
}

/// `s * H` is `(hd * s) * G` whenever `H = hd * G`.
pub open spec fn nonce_point_dlog(s: nat) -> bool {
    forall|hd: int|
        #![trigger gen_pow(hd)]
        base_point2_encoding() == gen_pow(hd) ==> spec_point_mul(base_point2_encoding(), s)
            == gen_pow(hd * s)
}

/// Whether `p` is accepted as a proof that `pc - dl` is a known multiple of `H`.
pub open spec fn proof_accepts(p: DlPcProof, pc: Seq<u8>, dl: Seq<u8>) -> bool {
    p.e@ == challenge_value(pc, dl, recomputed_commitment(pc, dl, p.z@, p.e@))
}

fn challenge_of(pc: &Point, dl: &Point, s_h: &Point) -> (e: BigNum)
    ensures
        e@ == challenge_value(pc@, dl@, s_h@),
{
    let a = pc.to_bytes();
    let b = dl.to_bytes();
    let c = s_h.to_bytes();
    let mut text = crate::hex::encode_upper(&a);
    let hb = crate::hex::encode_upper(&b);
    let hc = crate::hex::encode_upper(&c);
    text.append(hb.as_str());
    text.append(hc.as_str());
    hash_to_bignum(text.as_str())
}

impl DlPcProof {
    /// The proof for `pc`, `dl` and `bt` with the nonce `s`: `e` is the challenge of
    /// `pc`, `dl` and `s * H` reduced modulo the group order, and `z = s + e * bt`.
    pub fn dl_pc_proof_with_nonce(pc: Point, dl: Point, bt: Scalar, s: Scalar) -> (r: DlPcProof)
        ensures
            r.e@ == challenge_value(pc@, dl@, spec_point_mul(base_point2_encoding(), s@))
                % group_order(),
            r.z@ == (s@ + r.e@ * bt@) % group_order(),
            forall|hd: int|
                #![trigger gen_pow(hd)]
                base_point2_encoding() == gen_pow(hd) ==> spec_point_mul(
                    base_point2_encoding(),
                    s@,
                ) == gen_pow(hd * s@),
    {
        let h = Point::base_point2();
        let s_h = h.mul(&s);
        let e_bn = challenge_of(&pc, &dl, &s_h);
        let e = Scalar::from_bignum(&e_bn);
        let eb = e.mul(&bt);
        let z = s.add(&eb);
        proof {
            let n = group_order() as int;
            use_type_invariant(&s);
            lemma_add_mod_noop(s@ as int, (e@ * bt@) as int, n);
            lemma_small_mod(s@, n as nat);
            lemma_mod_twice((e@ * bt@) as int, n);
            lemma_add_mod_noop(s@ as int, eb@ as int, n);
        }
        DlPcProof { z: z.to_bignum(), e: e.to_bignum() }
    }

    /// A proof for `pc`, `dl` and `bt` with a fresh random nonce.
    pub fn dl_pc_proof(pc: Point, dl: Point, bt: Scalar) -> (r: DlPcProof)
        ensures
            proof_for(r, pc@, dl@, bt@),
            exists|s: nat| #[trigger] made_with(r, pc@, dl@, bt@, s) && nonce_point_dlog(s),
    {
        let s = Scalar::random();
        let r = DlPcProof::dl_pc_proof_with_nonce(pc, dl, bt, s);
        assert(made_with(r, pc@, dl@, bt@, s@));
        r
    }

    /// Checks the proof against `pc` and `dl`: the challenge of `pc`, `dl` and
    /// `z * H - (pc - dl) * e` must equal `e` (as integers, without reduction).
    pub fn dl_pc_verify(&self, pc: Point, dl: Point) -> (ok: bool)
        ensures
            ok == (self.e@ == challenge_value(
                pc@,
                dl@,
                recomputed_commitment(pc@, dl@, self.z@, self.e@),
            )),
            forall|p: int, q: int, hd: int|
                #![trigger gen_pow(p), gen_pow(q), gen_pow(hd)]
                pc@ == gen_pow(p) && dl@ == gen_pow(q) && base_point2_encoding() == gen_pow(hd)
                    ==> recomputed_commitment(pc@, dl@, self.z@, self.e@) == gen_pow(
                    hd * (self.z@ % group_order()) - (p - q) * (self.e@ % group_order()),
                ),
    {
        let r = pc.sub(&dl);
        let h = Point::base_point2();
        let z = Scalar::from_bignum(&self.z);
        let e = Scalar::from_bignum(&self.e);
        let zh = h.mul(&z);
        let re = r.mul(&e);
        let s_h = zh.sub(&re);
        proof {
            assert forall|p: int, q: int, hd: int|
                #![trigger gen_pow(p), gen_pow(q), gen_pow(hd)]
                pc@ == gen_pow(p) && dl@ == gen_pow(q) && base_point2_encoding() == gen_pow(hd)
                    implies s_h@ == gen_pow(
                    hd * (self.z@ % group_order()) - (p - q) * (self.e@ % group_order()),
                ) by {
                assert(r@ == gen_pow(p - q));
                assert(zh@ == gen_pow(hd * z@));
                assert(re@ == gen_pow((p - q) * e@));
            }
        }
        let e_bn = challenge_of(&pc, &dl, &s_h);
        self.e.equals(&e_bn)
    }
}

/// Completeness of the proof: when `pc - dl = bt * H` (in discrete logarithms,
/// `p - q = hd * bt` modulo the group order, `H = hd * G`), the commitment that verification
/// recomputes from the proof `z = s + e * bt` is the prover's `s * H`. So the challenge text is
/// the same, and verification accepts exactly when the digest is below the group order (the
/// proof carries the reduced digest; verification compares it with the unreduced one).
pub proof fn law_dl_pc_complete(hd: int, s: nat, bt: nat, e: nat, p: int, q: int)
    requires
        (p - q) % (group_order() as int) == (hd * bt) % (group_order() as int),
        e < group_order(),
    ensures
        gen_pow(hd * ((s + e * bt) % group_order()) - (p - q) * e) == gen_pow(hd * s),
{
    let n = group_order() as int;
    let z = (s + e * bt) % (n as nat);
    let lhs = hd * z - (p - q) * e;
    // hd * z ≡ hd * s + hd * e * bt and (p - q) * e ≡ hd * bt * e
    lemma_mul_mod_noop_right(hd, (s + e * bt) as int, n);
    lemma_mul_mod_noop_left(p - q, e as int, n);
    lemma_mul_mod_noop_left(hd * bt, e as int, n);
    lemma_sub_mod_noop(hd * z, (p - q) * e, n);
    lemma_sub_mod_noop(hd * (s + e * bt), (hd * bt) * e, n);
    assert(hd * (s + e * bt) - (hd * bt) * e == hd * s) by (nonlinear_arith);
}

/// The challenge is the SHA-256 digest of the upper-case hex of the bytes of `pc`, `dl` and
/// `s_h` in this order, read as an integer; so it depends on the three points only through
/// those bytes.
pub proof fn law_challenge_digest(pc: Seq<u8>, dl: Seq<u8>, s_h: Seq<u8>)
    ensures
        challenge_value(pc, dl, s_h) == be_value(text_digest(upper_hex(pc + dl + s_h))),
        challenge_value(pc, dl, s_h) == challenge_value(pc + dl + s_h, Seq::empty(), Seq::empty()),
{
    crate::hex::law_upper_hex_concat(pc, dl);
    crate::hex::law_upper_hex_concat(pc + dl, s_h);
    crate::hex::law_upper_hex_concat(pc + dl + s_h, Seq::empty());
    crate::hex::law_upper_hex_concat(Seq::empty(), Seq::empty());
    assert(pc + dl + s_h + Seq::<u8>::empty() + Seq::<u8>::empty() =~= pc + dl + s_h);
    assert(upper_hex(pc + dl + s_h) + upper_hex(Seq::empty()) + upper_hex(Seq::empty())
        =~= upper_hex(pc + dl + s_h + Seq::<u8>::empty() + Seq::<u8>::empty()));
}

/// The hashed text binds all three points: for points of the same encoding lengths, equal
/// challenge texts come only from equal `pc`, equal `dl` and equal `s_h`.
pub proof fn law_challenge_text_binds(
    pc: Seq<u8>,
    dl: Seq<u8>,
    s_h: Seq<u8>,
    pc2: Seq<u8>,
    dl2: Seq<u8>,
    s_h2: Seq<u8>,
)
    requires
        pc.len() == pc2.len(),
        dl.len() == dl2.len(),
        s_h.len() == s_h2.len(),
        challenge_text(pc, dl, s_h) == challenge_text(pc2, dl2, s_h2),
    ensures
        pc == pc2,
        dl == dl2,
        s_h == s_h2,
{
    crate::hex::law_upper_hex_concat(pc, dl);
    crate::hex::law_upper_hex_concat(pc + dl, s_h);
    crate::hex::law_upper_hex_concat(pc2, dl2);
    crate::hex::law_upper_hex_concat(pc2 + dl2, s_h2);
    crate::hex::law_upper_hex_injective(pc + dl + s_h, pc2 + dl2 + s_h2);
    let all = pc + dl + s_h;
    assert(pc =~= all.subrange(0, pc.len() as int));
    assert(pc2 =~= (pc2 + dl2 + s_h2).subrange(0, pc.len() as int));
    assert(dl =~= all.subrange(pc.len() as int, (pc.len() + dl.len()) as int));
    assert(dl2 =~= (pc2 + dl2 + s_h2).subrange(pc.len() as int, (pc.len() + dl.len()) as int));
    assert(s_h =~= all.subrange((pc.len() + dl.len()) as int, all.len() as int));
    assert(s_h2 =~= (pc2 + dl2 + s_h2).subrange((pc.len() + dl.len()) as int, all.len() as int));
}

} // verus!
