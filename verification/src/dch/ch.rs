use vstd::prelude::*;
use vstd::string::*;
use crate::digest::{text_digest, hash_to_bignum};
use crate::field::{group_order, Scalar};
use crate::group::{gen_pow, generator_encoding, spec_point_add, spec_point_mul, spec_point_sub, Point};
use crate::hex::upper_hex;
use crate::numbers::be_value;

verus! {

/// Upper-case hex encoding of `data`.
pub fn to_hex(data: &[u8]) -> (res: String)
    ensures
        res@ == upper_hex(data@),
{
    crate::hex::encode_upper(data)
}

/// SHA-256 of the UTF-8 bytes of `input` as 64 lower-case hex digits.
pub fn sha256(input: &str) -> (res: String)
    ensures
        res@ == crate::hex::lower_hex(text_digest(input@)),
{
    crate::digest::sha256_hex(input)
}

/// The challenge of the chameleon hash: SHA-256 of the message followed by the upper-case hex
/// of the point `r`, read as an integer and reduced modulo the group order.
pub open spec fn challenge(message: Seq<char>, r: Seq<u8>) -> nat {
    be_value(text_digest(message + upper_hex(r))) % group_order()
}

/// The chameleon hash of `message` under public key `pk` with randomness `(r, s)`:
/// `R - (c * pk + s * G)` with `c` the challenge of the message and `R`.
pub open spec fn ch_hash(pk: Seq<u8>, r: Seq<u8>, s: nat, message: Seq<char>) -> Seq<u8> {
    spec_point_sub(
        r,
        spec_point_add(
            spec_point_mul(pk, challenge(message, r)),
            spec_point_mul(generator_encoding(), s),
        ),
    )
}

/// `(r, s)` opens the hash `h` of `message` under `pk`.
pub open spec fn opens(pk: Seq<u8>, r: Seq<u8>, s: nat, message: Seq<char>, h: Seq<u8>) -> bool {
    h == ch_hash(pk, r, s, message)
}

/// The discrete logarithm of the chameleon hash when `pk = pk_d * G` and `R = r_d * G`.
pub open spec fn ch_hash_dlog(pk_d: int, r_d: int, s: nat, c: nat) -> int {
    r_d - (pk_d * c + s)
}

/// Challenge scalar for `message` and the point `r`.
pub(crate) fn challenge_of(message: &String, r: &Point) -> (c: Scalar)
    ensures
        c@ == challenge(message@, r@),
{
    let mut text = message.clone();
    let rb = r.to_bytes();
    let h = to_hex(&rb);
    text.append(h.as_str());
    let e = hash_to_bignum(text.as_str());
    Scalar::from_bignum(&e)
}

/// The chameleon hash `R - (c * pk + s * G)` of `message` under `pk` with randomness `(R, s)`.
pub fn generate_hash(pk: Point, r: Point, s: Scalar, message: String) -> (h: Point)
    ensures
        h@ == ch_hash(pk@, r@, s@, message@),
        forall|pk_d: int, r_d: int|
            #![trigger gen_pow(pk_d), gen_pow(r_d)]
            pk@ == gen_pow(pk_d) && r@ == gen_pow(r_d) ==> h@ == gen_pow(
                ch_hash_dlog(pk_d, r_d, s@, challenge(message@, r@)),
            ),
{
    let g = Point::generator();
    let c = challenge_of(&message, &r);
    let c_pk = pk.mul(&c);
    let s_g = g.mul(&s);
    let sum = c_pk.add(&s_g);
    let h = r.sub(&sum);
    proof {
        assert forall|pk_d: int, r_d: int|
            #![trigger gen_pow(pk_d), gen_pow(r_d)]
            pk@ == gen_pow(pk_d) && r@ == gen_pow(r_d) implies h@ == gen_pow(
            ch_hash_dlog(pk_d, r_d, s@, challenge(message@, r@)),
        ) by {
            assert(c_pk@ == gen_pow(pk_d * c@));
            assert(s_g@ == gen_pow(1int * s@));
            assert(sum@ == gen_pow(pk_d * c@ + 1int * s@));
            assert(h@ == gen_pow(r_d - (pk_d * c@ + 1int * s@)));
        }
    }
    h
}

/// New randomness for `hash` under `new_message` with the trapdoor `sk` and nonce `k`:
/// `R = hash + k * G` and `s = k - c * sk` with `c` the challenge of the new message and `R`.
pub fn adapt_with_nonce(sk: Scalar, new_message: String, hash: Point, k: Scalar) -> (res: (
    Point,
    Scalar,
))
    ensures
        res.0@ == spec_point_add(hash@, spec_point_mul(generator_encoding(), k@)),
        res.1@ == (k@ - challenge(new_message@, res.0@) * sk@) % (group_order() as int),
        forall|h_d: int|
            #![trigger gen_pow(h_d)]
            hash@ == gen_pow(h_d) ==> res.0@ == gen_pow(h_d + k@),
{
    let g = Point::generator();
    let k_g = g.mul(&k);
    let r = hash.add(&k_g);
    let c = challenge_of(&new_message, &r);
    let c_sk = c.mul(&sk);
    let s = k.sub(&c_sk);
    proof {
        use_type_invariant(&k);
        use_type_invariant(&c_sk);
        let n = group_order() as int;
        assert forall|h_d: int| #![trigger gen_pow(h_d)] hash@ == gen_pow(h_d) implies r@
            == gen_pow(h_d + k@) by {
            assert(k_g@ == gen_pow(1int * k@));
        }
        vstd::arithmetic::div_mod::lemma_sub_mod_noop(k@ as int, (c@ * sk@) as int, n);
        vstd::arithmetic::div_mod::lemma_mod_twice(k@ - c@ * sk@, n);
        vstd::arithmetic::div_mod::lemma_small_mod(k@, n as nat);
        assert(c_sk@ == (c@ * sk@) % (n as nat));
        assert(s@ == (k@ - c_sk@) % n);
        assert((k@ - c_sk@) % n == (k@ - c@ * sk@) % n) by {
            vstd::arithmetic::div_mod::lemma_sub_mod_noop(k@ as int, c_sk@ as int, n);
            vstd::arithmetic::div_mod::lemma_small_mod(c_sk@, n as nat);
        }
    }
    (r, s)
}

/// Adapts `hash` to `new_message` with the trapdoor `sk` and a fresh random nonce.
pub fn adapt(sk: Scalar, new_message: String, hash: Point) -> (res: (Point, Scalar))
    ensures
        exists|k: nat|
            0 < k < group_order() && res.0@ == spec_point_add(
                hash@,
                spec_point_mul(generator_encoding(), k),
            ) && res.1@ == (k - challenge(new_message@, res.0@) * sk@) % (group_order() as int)
                && forall|h_d: int|
                #![trigger gen_pow(h_d)]
                hash@ == gen_pow(h_d) ==> res.0@ == gen_pow(h_d + k),
{
    let k = Scalar::random();
    adapt_with_nonce(sk, new_message, hash, k)
}

/// Whether `(r, s)` opens `h` for `message` under `pk`: `h == R - (c * pk + s * G)`.
pub fn verify(pk: Point, r: Point, s: Scalar, message: String, h: Point) -> (ok: bool)
    ensures
        ok == opens(pk@, r@, s@, message@, h@),
        forall|pk_d: int, r_d: int|
            #![trigger gen_pow(pk_d), gen_pow(r_d)]
            pk@ == gen_pow(pk_d) && r@ == gen_pow(r_d) ==> (ok <==> h@ == gen_pow(
                ch_hash_dlog(pk_d, r_d, s@, challenge(message@, r@)),
            )),
{
    let recomputed = generate_hash(pk, r, s, message);
    h.equals(&recomputed)
}

/// A chameleon hash is opened by the randomness it was made with: what `generate_hash`
/// returns, `verify` accepts with the same key, randomness and message.
pub proof fn law_hash_verifies(pk: Seq<u8>, r: Seq<u8>, s: nat, message: Seq<char>)
    ensures
        opens(pk, r, s, message, ch_hash(pk, r, s, message)),
{
}

/// Adapting with the trapdoor gives a collision: if `pk = sk * G` and `hash = h_d * G`, then the
/// point that verification recomputes from the adapted randomness `(R, s)` of any message
/// (`R = (h_d + k) * G`, `s = k - c * sk`, `c` its challenge) is `hash` itself.
pub proof fn law_adapt_collision(sk: nat, h_d: int, k: nat, c: nat, s: int)
    requires
        s == (k - c * sk) % (group_order() as int),
    ensures
        gen_pow(ch_hash_dlog(sk as int, h_d + k, s as nat, c)) == gen_pow(h_d),
{
    let n = group_order() as int;
    let x = ch_hash_dlog(sk as int, h_d + k, s as nat, c);
    vstd::arithmetic::div_mod::lemma_fundamental_div_mod(k - c * sk, n);
    vstd::arithmetic::div_mod::lemma_mod_bound(k - c * sk, n);
    vstd::arithmetic::mul::lemma_mul_is_commutative(sk as int, c as int);
    assert(x == h_d + (k - c * sk) - s);
    assert(x == h_d + n * ((k - c * sk) / n)) by (nonlinear_arith)
        requires
            x == h_d + (k - c * sk) - s,
            k - c * sk == n * ((k - c * sk) / n) + (k - c * sk) % n,
            s == (k - c * sk) % n,
    ;
    vstd::arithmetic::div_mod::lemma_mod_multiples_vanish((k - c * sk) / n, h_d, n);
    vstd::arithmetic::mul::lemma_mul_is_commutative(n, (k - c * sk) / n);
}

} // verus!
