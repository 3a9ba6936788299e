use vstd::prelude::*;
use vstd::arithmetic::div_mod::*;
use vstd::arithmetic::mul::*;
use curv::elliptic::curves::Secp256k1;
use crate::field::{group_order, to_array32, Scalar};
use crate::group::{base_point2_encoding, gen_pow, generator_encoding, spec_point_add, spec_point_mul, Point};
use crate::lagrange::{lagrange_coefficient, lagrange_den, lagrange_value, values};
use crate::numbers::{be_value, BigNum};
use crate::hex::{hex_value, is_hex_text};
use crate::poly::{as_ints, commit_eval, dlogs_of, evaluate, evaluate_commitments, point_encodings, poly_eval, poly_value, scalar_values};

verus! {

/// Threshold `t` and number of shares `n` of a secret sharing.
#[derive(Clone, Copy, Debug, PartialEq, Eq)]
pub struct ShamirSecretSharing {
    pub threshold: u16,
    pub share_count: u16,
}

/// Why a share was refused.
#[derive(Clone, Copy, Debug, PartialEq, Eq)]
pub enum ErrorSS {
    VerifyShareError,
}

/// Parameters and coefficient commitments of a verifiable secret sharing.
#[derive(Clone, Debug)]
pub struct Vss {
    pub parameters: ShamirSecretSharing,
    pub commitments: Vec<Point>,
}

/// The secret shares and the blinding shares of a Pedersen sharing, for indices `1..=n`.
#[derive(Clone, Debug)]
pub struct PedersenSecretShares {
    pub secret_shares: Vec<Scalar>,
    pub random_shares: Vec<Scalar>,
}

/// The coefficients of the two polynomials of a Pedersen sharing.
#[derive(Clone, Debug)]
pub struct Coefficients {
    pub secret_coefficients: Vec<Scalar>,
    pub random_coefficients: Vec<Scalar>,
}

/// `G * s`.
pub open spec fn g_mul(s: nat) -> Seq<u8> {
    spec_point_mul(generator_encoding(), s)
}

/// `G * s + H * r`.
pub open spec fn pedersen_point(s: nat, r: nat) -> Seq<u8> {
    spec_point_add(
        spec_point_mul(generator_encoding(), s),
        spec_point_mul(base_point2_encoding(), r),
    )
}

/// Discrete logarithms of Pedersen commitments `G * a_j + H * b_j` when `H = hd * G`.
pub open spec fn pedersen_dlogs(a: Seq<nat>, b: Seq<nat>, hd: int) -> Seq<int> {
    Seq::new(a.len(), |j: int| a[j] + hd * b[j])
}

/// `Polynomial::<Secp256k1>::sample_exact_with_fixed_const_term(t, c).coefficients()`.
/// Trusted, as curv's source shows: `t + 1` coefficients, the first is `c`, the others are
/// random non-zero scalars (which ones is left open).
#[verifier::external_body]
fn curv_sample_poly(t: u16, c: &[u8; 32]) -> (r: Vec<[u8; 32]>)
    requires
        be_value(c@) < group_order(),
    ensures
        r@.len() == t + 1,
        r@[0]@ == c@,
        forall|j: int| 0 <= j < r@.len() ==> be_value(#[trigger] r@[j]@) < group_order(),
{
    let c0 = curv::elliptic::curves::Scalar::<Secp256k1>::from_bytes(c).unwrap();
    let p = curv::cryptographic_primitives::secret_sharing::Polynomial::<Secp256k1>::sample_exact_with_fixed_const_term(t, c0);
    p.coefficients().iter().map(|s| to_array32(&s.to_bytes())).collect()
}

/// Random polynomial coefficients of degree `t` with the given constant term.
pub fn sample_coefficients(t: u16, const_term: &Scalar) -> (r: Vec<Scalar>)
    ensures
        r@.len() == t + 1,
        r@[0] == *const_term,
{
    proof {
        use_type_invariant(const_term);
    }
    let cb = const_term.to_bytes();
    let raw = curv_sample_poly(t, &cb);
    let mut out: Vec<Scalar> = Vec::new();
    let mut i: usize = 0;
    while i < raw.len()
        invariant
            i <= raw@.len(),
            out@.len() == i,
            forall|j: int| 0 <= j < raw@.len() ==> be_value(#[trigger] raw@[j]@) < group_order(),
            forall|j: int| 0 <= j < i ==> (#[trigger] out@[j])@ == be_value(raw@[j]@),
        decreases raw@.len() - i,
    {
        let b = raw[i];
        assert(be_value(raw@[i as int]@) < group_order());
        out.push(Scalar::from_raw(b));
        i += 1;
    }
    assert(out@[0]@ == const_term@);
    proof {
        crate::field::lemma_scalar_view_injective(out@[0], *const_term);
    }
    out
}

impl Vss {
    /// Horner evaluation of the commitments at `index` (curv's `get_point_commitment`):
    /// the point that a share for `index` must match.
    pub fn get_point_commitment(&self, index: u16) -> (r: Point)
        requires
            self.commitments@.len() > 0,
        ensures
            r@ == commit_eval(point_encodings(self.commitments@), index as nat),
            forall|d: Seq<int>|
                #[trigger] dlogs_of(point_encodings(self.commitments@), d) ==> r@ == gen_pow(
                    poly_value(d, index as int),
                ),
    {
        let x = Scalar::from_u16(index);
        evaluate_commitments(&self.commitments, &x)
    }

    /// Whether `ss_point` is the commitment evaluation at `index`.
    pub fn validate_share_public(&self, ss_point: &Point, index: u16) -> (r: Result<(), ErrorSS>)
        requires
            self.commitments@.len() > 0,
        ensures
            r is Ok <==> ss_point@ == commit_eval(point_encodings(self.commitments@), index as nat),
            forall|d: Seq<int>|
                #[trigger] dlogs_of(point_encodings(self.commitments@), d) ==> (r is Ok <==> ss_point@
                    == gen_pow(poly_value(d, index as int))),
            r is Err ==> r == Err::<(), ErrorSS>(ErrorSS::VerifyShareError),
    {
        let comm_to_point = self.get_point_commitment(index);
        if ss_point.equals(&comm_to_point) {
            Ok(())
        } else {
            Err(ErrorSS::VerifyShareError)
        }
    }

    /// Feldman check of a secret share: `G * share` must be the commitment evaluation at `index`.
    pub fn validate_share(&self, secret_share: &Scalar, index: u16) -> (r: Result<(), ErrorSS>)
        requires
            self.commitments@.len() > 0,
        ensures
            r is Ok <==> g_mul(secret_share@) == commit_eval(
                point_encodings(self.commitments@),
                index as nat,
            ),
            forall|d: Seq<int>|
                #[trigger] dlogs_of(point_encodings(self.commitments@), d) ==> (r is Ok <==> gen_pow(
                    secret_share@ as int,
                ) == gen_pow(poly_value(d, index as int))),
            forall|d: Seq<int>|
                #[trigger] dlogs_of(point_encodings(self.commitments@), d) ==> (r is Ok
                    <==> secret_share@ == poly_value(d, index as int) % (group_order() as int)),
            r is Err ==> r == Err::<(), ErrorSS>(ErrorSS::VerifyShareError),
    {
        let g = Point::generator();
        let ss_point = g.mul(secret_share);
        proof {
            use_type_invariant(secret_share);
            assert(ss_point@ == gen_pow(1int * secret_share@));
            lemma_small_mod(secret_share@, group_order());
        }
        self.validate_share_public(&ss_point, index)
    }

    /// The Pedersen commitment evaluation at `index` (same Horner rule as
    /// `get_point_commitment`).
    pub fn pedersen_get_point_commitment(&self, index: u16) -> (r: Point)
        requires
            self.commitments@.len() > 0,
        ensures
            r@ == commit_eval(point_encodings(self.commitments@), index as nat),
            forall|d: Seq<int>|
                #[trigger] dlogs_of(point_encodings(self.commitments@), d) ==> r@ == gen_pow(
                    poly_value(d, index as int),
                ),
    {
        let index_fe = Scalar::from_u16(index);
        evaluate_commitments(&self.commitments, &index_fe)
    }

    /// Whether `ss_point` is the Pedersen commitment evaluation at `index`.
    pub fn pedersen_validate_share_public(&self, ss_point: &Point, index: u16) -> (r: Result<
        (),
        ErrorSS,
    >)
        requires
            self.commitments@.len() > 0,
        ensures
            r is Ok <==> ss_point@ == commit_eval(point_encodings(self.commitments@), index as nat),
            forall|d: Seq<int>|
                #[trigger] dlogs_of(point_encodings(self.commitments@), d) ==> (r is Ok <==> ss_point@
                    == gen_pow(poly_value(d, index as int))),
            r is Err ==> r == Err::<(), ErrorSS>(ErrorSS::VerifyShareError),
    {
        let comm_to_point = self.pedersen_get_point_commitment(index);
        if ss_point.equals(&comm_to_point) {
            Ok(())
        } else {
            Err(ErrorSS::VerifyShareError)
        }
    }

    /// Pedersen check of a share pair: `G * share + H * random` must be the commitment
    /// evaluation at `index`.
    pub fn pedersen_validate_share(&self, secret_share: &Scalar, random: &Scalar, index: u16) -> (r:
        Result<(), ErrorSS>)
        requires
            self.commitments@.len() > 0,
        ensures
            r is Ok <==> pedersen_point(secret_share@, random@) == commit_eval(
                point_encodings(self.commitments@),
                index as nat,
            ),
            forall|d: Seq<int>, hd: int|
                #![trigger dlogs_of(point_encodings(self.commitments@), d), gen_pow(hd)]
                dlogs_of(point_encodings(self.commitments@), d) && base_point2_encoding() == gen_pow(
                    hd,
                ) ==> (r is Ok <==> gen_pow(secret_share@ + hd * random@) == gen_pow(
                    poly_value(d, index as int),
                )),
            forall|d: Seq<int>, hd: int|
                #![trigger dlogs_of(point_encodings(self.commitments@), d), gen_pow(hd)]
                dlogs_of(point_encodings(self.commitments@), d) && base_point2_encoding() == gen_pow(
                    hd,
                ) ==> (r is Ok <==> (secret_share@ + hd * random@) % (group_order() as int)
                    == poly_value(d, index as int) % (group_order() as int)),
            r is Err ==> r == Err::<(), ErrorSS>(ErrorSS::VerifyShareError),
    {
        let g = Point::generator();
        let h = Point::base_point2();
        let gs = g.mul(secret_share);
        let hr = h.mul(random);
        let ss_point = gs.add(&hr);
        proof {
            assert forall|hd: int| #![trigger gen_pow(hd)] base_point2_encoding() == gen_pow(hd) implies ss_point@
                == gen_pow(secret_share@ + hd * random@) by {
                assert(gs@ == gen_pow(1int * secret_share@));
                assert(hr@ == gen_pow(hd * random@));
            }
        }
        self.pedersen_validate_share_public(&ss_point, index)
    }
}


/// Deals a Pedersen sharing from given coefficients: commitments `G * fx_j + H * gx_j`, and the
/// evaluations of both polynomials at `1..=n`.
pub fn pedersen_share_with_coefficients(t: u16, n: u16, fx: Vec<Scalar>, gx: Vec<Scalar>) -> (r: (
    Vss,
    PedersenSecretShares,
    Coefficients,
))
    requires
        fx@.len() > 0,
        gx@.len() >= fx@.len(),
    ensures
        r.0.parameters == (ShamirSecretSharing { threshold: t, share_count: n }),
        point_encodings(r.0.commitments@) == Seq::new(
            fx@.len(),
            |j: int| pedersen_point(fx@[j]@, gx@[j]@),
        ),
        forall|hd: int|
            #![trigger gen_pow(hd)]
            base_point2_encoding() == gen_pow(hd) ==> dlogs_of(
                point_encodings(r.0.commitments@),
                pedersen_dlogs(scalar_values(fx@), scalar_values(gx@), hd),
            ),
        r.1.secret_shares@.len() == n,
        r.1.random_shares@.len() == n,
        forall|i: int|
            0 <= i < n ==> (#[trigger] r.1.secret_shares@[i])@ == poly_eval(
                scalar_values(fx@),
                (i + 1) as nat,
            ),
        forall|i: int|
            0 <= i < n ==> (#[trigger] r.1.random_shares@[i])@ == poly_eval(
                scalar_values(gx@),
                (i + 1) as nat,
            ),
        r.2.secret_coefficients@ == fx@,
        r.2.random_coefficients@ == gx@,
{
    let mut secret_shares: Vec<Scalar> = Vec::new();
    let mut random_shares: Vec<Scalar> = Vec::new();
    let mut i: u16 = 0;
    while i < n
        invariant
            fx@.len() > 0,
            gx@.len() >= fx@.len(),
            i <= n,
            secret_shares@.len() == i,
            random_shares@.len() == i,
            forall|k: int|
                0 <= k < i ==> (#[trigger] secret_shares@[k])@ == poly_eval(
                    scalar_values(fx@),
                    (k + 1) as nat,
                ),
            forall|k: int|
                0 <= k < i ==> (#[trigger] random_shares@[k])@ == poly_eval(
                    scalar_values(gx@),
                    (k + 1) as nat,
                ),
        decreases n - i,
    {
        let x = Scalar::from_u16(i + 1);
        secret_shares.push(evaluate(&fx, &x));
        random_shares.push(evaluate(&gx, &x));
        i += 1;
    }
    let g = Point::generator();
    let h = Point::base_point2();
    let mut commitments: Vec<Point> = Vec::new();
    let mut j: usize = 0;
    while j < fx.len()
        invariant
            gx@.len() >= fx@.len(),
            j <= fx@.len(),
            g@ == gen_pow(1),
            g@ == generator_encoding(),
            h@ == base_point2_encoding(),
            commitments@.len() == j,
            forall|k: int|
                0 <= k < j ==> (#[trigger] commitments@[k])@ == pedersen_point(
                    fx@[k]@,
                    gx@[k]@,
                ),
            forall|k: int, hd: int|
                #![trigger commitments@[k], gen_pow(hd)]
                0 <= k < j && base_point2_encoding() == gen_pow(hd) ==> commitments@[k]@
                    == gen_pow(fx@[k]@ + hd * gx@[k]@),
        decreases fx@.len() - j,
    {
        let a = g.mul(&fx[j]);
        let b = h.mul(&gx[j]);
        let c = a.add(&b);
        proof {
            assert forall|hd: int| #![trigger gen_pow(hd)] base_point2_encoding() == gen_pow(hd)
                implies c@ == gen_pow(fx@[j as int]@ + hd * gx@[j as int]@) by {
                assert(a@ == gen_pow(1int * fx@[j as int]@));
                assert(b@ == gen_pow(hd * gx@[j as int]@));
            }
        }
        commitments.push(c);
        j += 1;
    }
    proof {
        assert(point_encodings(commitments@) =~= Seq::new(
            fx@.len(),
            |j: int| pedersen_point(fx@[j]@, gx@[j]@),
        ));
        assert forall|hd: int| #![trigger gen_pow(hd)] base_point2_encoding() == gen_pow(hd) implies dlogs_of(
            point_encodings(commitments@),
            pedersen_dlogs(scalar_values(fx@), scalar_values(gx@), hd),
        ) by {
            assert forall|k: int| 0 <= k < commitments@.len() implies point_encodings(
                commitments@,
            )[k] == gen_pow(pedersen_dlogs(scalar_values(fx@), scalar_values(gx@), hd)[k]) by {
                assert(commitments@[k]@ == gen_pow(fx@[k]@ + hd * gx@[k]@));
            }
        }
    }
    (
        Vss { parameters: ShamirSecretSharing { threshold: t, share_count: n }, commitments },
        PedersenSecretShares { secret_shares, random_shares },
        Coefficients { secret_coefficients: fx, random_coefficients: gx },
    )
}

/// Deals a Pedersen sharing of `secret` blinded by `random`: two random polynomials of degree
/// `t` with these constant terms, evaluated at `1..=n`, with their commitments.
pub fn pedersen_share(t: u16, n: u16, secret: &Scalar, random: &Scalar) -> (r: (
    Vss,
    PedersenSecretShares,
    Coefficients,
))
    ensures
        r.0.parameters == (ShamirSecretSharing { threshold: t, share_count: n }),
        r.2.secret_coefficients@.len() == t + 1,
        r.2.random_coefficients@.len() == t + 1,
        r.2.secret_coefficients@[0] == *secret,
        r.2.random_coefficients@[0] == *random,
        point_encodings(r.0.commitments@) == Seq::new(
            (t + 1) as nat,
            |j: int|
                pedersen_point(r.2.secret_coefficients@[j]@, r.2.random_coefficients@[j]@),
        ),
        forall|hd: int|
            #![trigger gen_pow(hd)]
            base_point2_encoding() == gen_pow(hd) ==> dlogs_of(
                point_encodings(r.0.commitments@),
                pedersen_dlogs(
                    scalar_values(r.2.secret_coefficients@),
                    scalar_values(r.2.random_coefficients@),
                    hd,
                ),
            ),
        r.1.secret_shares@.len() == n,
        r.1.random_shares@.len() == n,
        forall|i: int|
            0 <= i < n ==> (#[trigger] r.1.secret_shares@[i])@ == poly_eval(
                scalar_values(r.2.secret_coefficients@),
                (i + 1) as nat,
            ),
        forall|i: int|
            0 <= i < n ==> (#[trigger] r.1.random_shares@[i])@ == poly_eval(
                scalar_values(r.2.random_coefficients@),
                (i + 1) as nat,
            ),
{
    let fx = sample_coefficients(t, secret);
    let gx = sample_coefficients(t, random);
    pedersen_share_with_coefficients(t, n, fx, gx)
}

/// The Lagrange coefficient at zero of the point `index` over the points `s`
/// (see `lagrange_coefficient`).
pub fn map_share_to_new_params(index: BigNum, s: &[BigNum]) -> (r: Scalar)
    requires
        lagrange_den(index@, values(s@)) != 0,
    ensures
        r@ == lagrange_value(index@, values(s@)),
{
    lagrange_coefficient(&index, s)
}

pub(crate) proof fn lemma_pedersen_linear(a: Seq<nat>, b: Seq<nat>, hd: int, x: int)
    requires
        a.len() == b.len(),
    ensures
        poly_value(pedersen_dlogs(a, b, hd), x) == poly_value(as_ints(a), x) + hd * poly_value(
            as_ints(b),
            x,
        ),
    decreases a.len(),
{
    if a.len() > 0 {
        let a1 = a.drop_first();
        let b1 = b.drop_first();
        lemma_pedersen_linear(a1, b1, hd, x);
        assert(pedersen_dlogs(a, b, hd).drop_first() =~= pedersen_dlogs(a1, b1, hd));
        assert(as_ints(a).drop_first() =~= as_ints(a1));
        assert(as_ints(b).drop_first() =~= as_ints(b1));
        let p = poly_value(as_ints(a1), x);
        let q = poly_value(as_ints(b1), x);
        assert(a[0] + hd * b[0] + x * (p + hd * q) == (a[0] + x * p) + hd * (b[0] + x * q))
            by (nonlinear_arith);
    }
}

/// Every share pair dealt by a Pedersen sharing passes the Pedersen check: when `H = hd * G`
/// and the coefficients are `a` and `b`, `G * f(x) + H * g(x)` (with `f(x)`, `g(x)` the shares
/// at `x`) has the discrete logarithm of the commitment evaluation at `x`.
pub proof fn law_pedersen_shares_validate(a: Seq<nat>, b: Seq<nat>, hd: int, x: nat)
    requires
        a.len() == b.len(),
    ensures
        gen_pow(poly_eval(a, x) + hd * poly_eval(b, x)) == gen_pow(
            poly_value(pedersen_dlogs(a, b, hd), x as int),
        ),
{
    let n = group_order() as int;
    let pa = poly_value(as_ints(a), x as int);
    let pb = poly_value(as_ints(b), x as int);
    lemma_pedersen_linear(a, b, hd, x as int);
    lemma_mod_bound(pa, n);
    lemma_mod_bound(pb, n);
    lemma_add_mod_noop(pa % n, hd * (pb % n), n);
    lemma_mul_mod_noop_right(hd, pb, n);
    lemma_add_mod_noop(pa, hd * pb, n);
    lemma_mod_twice(pa, n);
}

proof fn lemma_add_mod_cancel(u: int, v: int, c: int, n: int)
    requires
        n > 0,
    ensures
        (u + c) % n == (v + c) % n <==> u % n == v % n,
{
    lemma_add_mod_noop(u, c, n);
    lemma_add_mod_noop(v, c, n);
    lemma_add_mod_noop(u + c, -c, n);
    lemma_add_mod_noop(v + c, -c, n);
    assert(u + c + -c == u);
    assert(v + c + -c == v);
}

/// With the blinding share dealt for `x`, the Pedersen check (in the form that
/// `Vss::pedersen_validate_share` states it when `H = hd * G`) accepts exactly one scalar as the
/// share: the one dealt, `f(x)`. Any other share with the right blinding is refused.
pub proof fn law_pedersen_other_share_refused(a: Seq<nat>, b: Seq<nat>, hd: int, x: nat, s: nat)
    requires
        a.len() == b.len(),
        s < group_order(),
    ensures
        (s + hd * poly_eval(b, x)) % (group_order() as int) == poly_value(
            pedersen_dlogs(a, b, hd),
            x as int,
        ) % (group_order() as int) <==> s == poly_eval(a, x),
{
    let n = group_order() as int;
    let pa = poly_value(as_ints(a), x as int);
    let pb = poly_value(as_ints(b), x as int);
    lemma_pedersen_linear(a, b, hd, x as int);
    lemma_mul_mod_noop_right(hd, pb, n);
    lemma_add_mod_noop(s as int, hd * (pb % n), n);
    lemma_add_mod_noop(s as int, hd * pb, n);
    lemma_add_mod_cancel(s as int, pa, hd * pb, n);
    lemma_small_mod(s, n as nat);
    lemma_mod_bound(pa, n);
}

/// Any `t + 1` shares of a sharing reconstruct what was shared: for distinct indices `xs` whose
/// differences are invertible modulo the group order, the shares `f(x_i)` (modulo the group
/// order) of a polynomial with as many coefficients as there are indices, weighted by the
/// Lagrange coefficients of the indices (`map_share_to_new_params`), add up to the constant
/// term modulo the group order. This holds of the secret shares and of the blinding shares.
pub proof fn law_pedersen_reconstruct(c: Seq<nat>, xs: Seq<nat>)
    requires
        xs.len() >= 1,
        c.len() == xs.len(),
        crate::interpolation::distinct(as_ints(xs)),
        crate::interpolation::pairwise_invertible(as_ints(xs)),
    ensures
        crate::kjg::combine::weighted_scalar_sum(
            Seq::new(xs.len(), |i: int| poly_eval(c, xs[i])),
            Seq::new(xs.len(), |i: int| lagrange_value(xs[i], xs)),
        ) == c[0] % group_order(),
{
    let n = group_order() as int;
    let ys = Seq::new(xs.len(), |i: int| poly_value(as_ints(c), xs[i] as int));
    let ls = Seq::new(xs.len(), |i: int| lagrange_value(xs[i], xs));
    crate::interpolation::law_lagrange_interpolation(as_ints(c), xs);
    assert(Seq::new(xs.len(), |i: int| poly_eval(c, xs[i])).map_values(|v: nat| v as int)
        =~= crate::kjg::laws::reduced_ints(ys));
    crate::kjg::laws::lemma_weighted_mod(ys, ls);
}

/// Every share dealt by a Feldman sharing passes the Feldman check: `G * f(x)` has the
/// discrete logarithm of the evaluation at `x` of the commitments `G * c_j`.
pub proof fn law_feldman_shares_validate(c: Seq<nat>, x: nat)
    ensures
        gen_pow(poly_eval(c, x) as int) == gen_pow(poly_value(as_ints(c), x as int)),
{
    let n = group_order() as int;
    lemma_mod_bound(poly_value(as_ints(c), x as int), n);
    lemma_mod_twice(poly_value(as_ints(c), x as int), n);
}


/// Evaluates the polynomial at each index given as hex text, keyed by that text; an index that
/// appears twice is kept once (a map from index to share).
fn evaluate_polynomial(coeffs: &Vec<Scalar>, index_vec_string: &Vec<String>) -> (r: Vec<
    (String, Scalar),
>)
    requires
        coeffs@.len() > 0,
        forall|i: int|
            0 <= i < index_vec_string@.len() ==> (#[trigger] index_vec_string@[i])@.len() > 0
                && is_hex_text(index_vec_string@[i]@),
    ensures
        share_map_of(r@, scalar_values(coeffs@), index_vec_string@),
{
    let mut share_map: Vec<(String, Scalar)> = Vec::new();
    let mut i: usize = 0;
    while i < index_vec_string.len()
        invariant
            coeffs@.len() > 0,
            forall|k: int|
                0 <= k < index_vec_string@.len() ==> (#[trigger] index_vec_string@[k])@.len() > 0
                    && is_hex_text(index_vec_string@[k]@),
            i <= index_vec_string@.len(),
            share_map_of(share_map@, scalar_values(coeffs@), index_vec_string@.take(i as int)),
        decreases index_vec_string@.len() - i,
    {
        let key = &index_vec_string[i];
        let x = Scalar::from_bignum(&BigNum::from_hex(key.as_str()));
        let value = evaluate(coeffs, &x);
        let mut found = false;
        let mut j: usize = 0;
        while j < share_map.len()
            invariant
                j <= share_map@.len(),
                found <==> exists|k: int| 0 <= k < j && (#[trigger] share_map@[k]).0@ == key@,
            decreases share_map@.len() - j,
        {
            if share_map[j].0 == *key {
                found = true;
            }
            j += 1;
        }
        let ghost old_map = share_map@;
        if !found {
            share_map.push((key.clone(), value));
        }
        proof {
            let keys = index_vec_string@.take(i + 1);
            assert(index_vec_string@.take(i as int) =~= keys.drop_last());
            assert(keys.last() == index_vec_string@[i as int]);
            if !found {
                assert forall|k: int| 0 <= k < keys.len() implies exists|m: int|
                    0 <= m < share_map@.len() && (#[trigger] share_map@[m]).0@ == (
                    #[trigger] keys[k])@ by {
                    if k < i {
                        assert(keys[k] == keys.drop_last()[k]);
                        let m = choose|m: int|
                            0 <= m < old_map.len() && (#[trigger] old_map[m]).0@ == keys.drop_last()[k]@;
                        assert(share_map@[m] == old_map[m]);
                    } else {
                        assert(share_map@[old_map.len() as int].0@ == keys[k]@);
                    }
                }
            } else {
                assert forall|k: int| 0 <= k < keys.len() implies exists|m: int|
                    0 <= m < share_map@.len() && (#[trigger] share_map@[m]).0@ == (
                    #[trigger] keys[k])@ by {
                    if k < i {
                        assert(keys[k] == keys.drop_last()[k]);
                    }
                }
            }
        }
        i += 1;
    }
    assert(index_vec_string@.take(index_vec_string@.len() as int) =~= index_vec_string@);
    share_map
}

/// `m` maps each index text of `keys` (and nothing else), once, to the polynomial with
/// coefficients `c` evaluated at the index the text denotes (reduced modulo the group order).
pub open spec fn share_map_of(m: Seq<(String, Scalar)>, c: Seq<nat>, keys: Seq<String>) -> bool {
    &&& forall|a: int, b: int| 0 <= a < b < m.len() ==> (#[trigger] m[a]).0@ != (#[trigger] m[b]).0@
    &&& forall|a: int|
        0 <= a < m.len() ==> (exists|k: int| 0 <= k < keys.len() && (#[trigger] keys[k])@ == (
        #[trigger] m[a]).0@) && (m[a].1)@ == poly_eval(c, hex_value(m[a].0@) % group_order())
    &&& forall|k: int|
        0 <= k < keys.len() ==> exists|a: int| 0 <= a < m.len() && (#[trigger] m[a]).0@ == (
        #[trigger] keys[k])@
}

/// Deals a Feldman sharing of `secret` with a random polynomial of degree `t` (truncated to
/// 16 bits), at the indices given as hex texts: commitments `G * c_j` and the share of each
/// index.
pub fn share_at_indices(t: usize, n: usize, secret: &Scalar, index_vec: &Vec<String>) -> (r: (
    Vss,
    Vec<(String, Scalar)>,
))
    requires
        n == index_vec@.len(),
        forall|i: int|
            0 <= i < index_vec@.len() ==> (#[trigger] index_vec@[i])@.len() > 0 && is_hex_text(
                index_vec@[i]@,
            ),
    ensures
        r.0.parameters == (ShamirSecretSharing {
            threshold: t as u16,
            share_count: n as u16,
        }),
        exists|c: Seq<nat>|
            #![trigger share_map_of(r.1@, c, index_vec@)]
            c.len() == (t as u16) + 1 && c[0] == secret@ && point_encodings(r.0.commitments@)
                == Seq::new(c.len(), |j: int| g_mul(c[j])) && dlogs_of(
                point_encodings(r.0.commitments@),
                as_ints(c),
            ) && share_map_of(r.1@, c, index_vec@),
{
    let coeffs = sample_coefficients(t as u16, secret);
    let secret_shares = evaluate_polynomial(&coeffs, index_vec);
    let g = Point::generator();
    let mut commitments: Vec<Point> = Vec::new();
    let mut j: usize = 0;
    while j < coeffs.len()
        invariant
            j <= coeffs@.len(),
            g@ == gen_pow(1),
            g@ == generator_encoding(),
            commitments@.len() == j,
            forall|k: int| 0 <= k < j ==> (#[trigger] commitments@[k])@ == g_mul(coeffs@[k]@),
            forall|k: int|
                0 <= k < j ==> (#[trigger] commitments@[k])@ == gen_pow(coeffs@[k]@ as int),
        decreases coeffs@.len() - j,
    {
        let c = g.mul(&coeffs[j]);
        assert(c@ == gen_pow(1int * coeffs@[j as int]@));
        commitments.push(c);
        j += 1;
    }
    let ghost cv = scalar_values(coeffs@);
    proof {
        assert(point_encodings(commitments@) =~= Seq::new(cv.len(), |j: int| g_mul(cv[j])));
        assert forall|k: int| 0 <= k < commitments@.len() implies point_encodings(commitments@)[k]
            == gen_pow(as_ints(cv)[k]) by {
            assert(commitments@[k]@ == gen_pow(coeffs@[k]@ as int));
        }
        assert(share_map_of(secret_shares@, cv, index_vec@));
        assert(cv.len() == (t as u16) + 1);
        assert(cv[0] == secret@);
        assert(dlogs_of(point_encodings(commitments@), as_ints(cv)));
        assert(exists|c: Seq<nat>|
            #![trigger share_map_of(secret_shares@, c, index_vec@)]
            c.len() == (t as u16) + 1 && c[0] == secret@ && point_encodings(commitments@)
                == Seq::new(c.len(), |j: int| g_mul(c[j])) && dlogs_of(
                point_encodings(commitments@),
                as_ints(c),
            ) && share_map_of(secret_shares@, c, index_vec@));
    }
    let vss = Vss {
        parameters: ShamirSecretSharing { threshold: t as u16, share_count: n as u16 },
        commitments,
    };
    let r = (vss, secret_shares);
    assert(share_map_of(r.1@, cv, index_vec@));
    r
}

} // verus!
