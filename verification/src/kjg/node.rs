//! A node of the key generation: it deals a Pedersen sharing of its secret, proves that its
//! Feldman commitments match, and checks the joint share it receives.

use vstd::prelude::*;
use std::collections::HashMap;
use crate::error::Error;
use crate::field::{group_order, Scalar};
use crate::group::{base_point2_encoding, gen_pow, generator_encoding, Point};
use crate::kjg::batch::{
    batch_statement, enc_tag, enc_tag_of, reduced, scalars_of, states, texts, BatchStatement,
};
use crate::lagrange::values;
use crate::kjg::combine::{
    slog_dl, slog_pc, tags, tags_of, weighted_int_sum, weighted_scalar, weighted_scalar_sum,
    weighted_sum,
};
use crate::kjg::message::{
    NodeInfo, NodeKeyGenPhaseOneBroadcastMsg, NodeToProxyKeyGenPhaseFourP2PMsg,
    NodeToProxyKeyGenPhaseTwoP2PMsg, ProxyToNodeKeyGenPhaseFiveP2PMsg,
    ProxyToNodeKeyGenPhaseThreeP2PMsg,
};
use crate::kjg::params::{CLKeypair, ThreasholdParam};
use crate::kjg::vss::{g_mul, pedersen_dlogs, pedersen_point, pedersen_share, ShamirSecretSharing, Vss};
use crate::kjg::zkp::{
    challenge_value, made_with, nonce_point_dlog, proof_accepts, proof_for, recomputed_commitment,
    DlPcProof,
};
use crate::kjg::laws::law_slog_complete;
use crate::group::spec_point_mul;
use vstd::arithmetic::div_mod::{lemma_mod_bound, lemma_small_mod};
use crate::numbers::{decimal_repr, decimal_text_value, is_decimal_text, BigNum};
use crate::poly::{
    as_ints, commit_eval, copy_points, dlogs_of, evaluate, point_encodings, poly_eval,
    scalar_values,
};

verus! {

broadcast use vstd::std_specs::hash::group_hash_axioms;

/// A node's state.
#[derive(Clone, Debug)]
pub struct Node {
    pub id: Option<u16>,
    pub role: String,
    pub address: String,
    pub listen_addr: String,
    pub proxy_address: String,
    pub threashold_param: ThreasholdParam,
    pub cl_keypair: CLKeypair,
    pub secret: Scalar,
    pub random: Scalar,
    pub commit: Point,
    pub commit_map: HashMap<u16, Point>,
    pub commitments: Vec<Point>,
    pub secret_coefficients: Vec<Scalar>,
    pub random_coefficients: Vec<Scalar>,
    pub sk: Scalar,
    pub node_info_vec: Option<Vec<NodeInfo>>,
}

/// One receiver's share pair, as decimal texts to be CL-encrypted under its key.
#[derive(Clone, Debug)]
pub struct ShareForNode {
    pub id: u16,
    pub cl_pk: String,
    pub share: String,
    pub random: String,
}

/// What a dealer hands out to be encrypted in phase two: a share pair per receiver, and the
/// two encryption nonces (decimal texts of random scalars).
#[derive(Clone, Debug)]
pub struct PhaseTwoDeal {
    pub shares: Vec<ShareForNode>,
    pub share_nonce: String,
    pub random_nonce: String,
}

/// What a node keeps when the key generation succeeds: the joint public key, its key share
/// and the public key shares of all ids.
#[derive(Clone, Debug)]
pub struct KeyShare {
    pub pk: Point,
    pub sk: Scalar,
    pub pk_shares: Vec<Point>,
}

/// `G * a` for each `a`.
pub open spec fn g_muls(a: Seq<nat>) -> Seq<Seq<u8>> {
    a.map_values(|v: nat| g_mul(v))
}

/// The weighted sum of the blinding coefficients `b` with the tags of the commitment pairs:
/// the discrete logarithm, base `H`, of `slog_pc(cs, ss) - slog_dl(cs, ss)` for an honest
/// dealer.
pub open spec fn slog_blind(b: Seq<nat>, cs: Seq<Seq<u8>>, ss: Seq<Seq<u8>>) -> nat {
    weighted_scalar_sum(b.take(cs.len() as int), tags(cs, ss))
}

/// The commitments of the phase-one messages by sender; a later message replaces an earlier
/// one of the same sender.
pub open spec fn commit_map_of(msgs: Seq<NodeKeyGenPhaseOneBroadcastMsg>) -> Map<u16, Point>
    decreases msgs.len(),
{
    if msgs.len() == 0 {
        Map::empty()
    } else {
        commit_map_of(msgs.drop_last()).insert(msgs.last().sender, msgs.last().commit)
    }
}

/// `vs[i]` keyed by `ids[i]`; a later entry replaces an earlier one with the same id.
pub open spec fn keyed_map(ids: Seq<u16>, vs: Seq<String>) -> Map<u16, String>
    decreases ids.len(),
{
    if ids.len() == 0 {
        Map::empty()
    } else {
        keyed_map(ids.drop_last(), vs).insert(ids.last(), vs[ids.len() - 1])
    }
}

/// The ids of the registered nodes.
pub open spec fn info_ids(infos: Seq<NodeInfo>) -> Seq<u16> {
    infos.map_values(|i: NodeInfo| i.id)
}

/// The CL public keys of the registered nodes.
pub open spec fn info_pks(infos: Seq<NodeInfo>) -> Seq<Seq<char>> {
    infos.map_values(|i: NodeInfo| i.cl_pk@)
}

/// Every registered id is one of `1..=n`.
pub open spec fn ids_in_range(infos: Seq<NodeInfo>, n: u16) -> bool {
    forall|i: int| 0 <= i < infos.len() ==> 1 <= (#[trigger] infos[i]).id <= n
}

/// The weights of the receivers' ciphertext pairs.
pub open spec fn enc_tags(encs: Seq<(String, String)>) -> Seq<nat> {
    Seq::new(encs.len(), |i: int| enc_tag(encs[i].0@, encs[i].1@))
}

/// The shares of the polynomial with coefficients `c` at the ids.
pub open spec fn shares_at(c: Seq<nat>, ids: Seq<u16>) -> Seq<nat> {
    Seq::new(ids.len(), |i: int| poly_eval(c, ids[i] as nat))
}

/// `sum_i share_i * t_i` modulo the group order, for the shares of `c` at the ids and the
/// weights of the ciphertext pairs.
pub open spec fn batch_sum(c: Seq<nat>, ids: Seq<u16>, encs: Seq<(String, String)>) -> nat {
    weighted_scalar_sum(shares_at(c, ids), reduced(enc_tags(encs)))
}

/// The phase-four proof `p` of a dealer with Pedersen commitments `cs`, Feldman commitments
/// `ss` and coefficients `a` (secret) and `b` (blinding) was made with a nonce `s` such that,
/// whenever `H = hd * G` and `cs` are `G * a_j + H * b_j`, the proof is accepted exactly when
/// the challenge of `pc`, `dl` and `s * H` lies below the group order (the reduced challenge
/// that the proof carries is then the challenge itself).
pub open spec fn phase_four_complete(
    p: DlPcProof,
    cs: Seq<Seq<u8>>,
    ss: Seq<Seq<u8>>,
    a: Seq<nat>,
    b: Seq<nat>,
) -> bool {
    exists|s: nat|
        #[trigger] made_with(p, slog_pc(cs, ss), slog_dl(cs, ss), slog_blind(b, cs, ss), s)
            && forall|hd: int|
            #![trigger gen_pow(hd)]
            base_point2_encoding() == gen_pow(hd) && a.len() == b.len() && dlogs_of(
                cs,
                pedersen_dlogs(a, b, hd),
            ) ==> (proof_accepts(p, slog_pc(cs, ss), slog_dl(cs, ss)) <==> challenge_value(
                slog_pc(cs, ss),
                slog_dl(cs, ss),
                spec_point_mul(base_point2_encoding(), s),
            ) < group_order())
}

impl Node {
    /// Phase one: draws the secret and its blinding value and commits to them
    /// (`G * secret + H * random`).
    pub fn keygen_phase_one(&mut self) -> (m: NodeKeyGenPhaseOneBroadcastMsg)
        requires
            old(self).id is Some,
        ensures
            0 < final(self).secret@ < group_order(),
            0 < final(self).random@ < group_order(),
            final(self).commit@ == pedersen_point(final(self).secret@, final(self).random@),
            *final(self) == (Node {
                secret: final(self).secret,
                random: final(self).random,
                commit: final(self).commit,
                ..*old(self)
            }),
            m.sender == old(self).id->0,
            m.role@ == old(self).role@,
            m.commit == final(self).commit,
    {
        let secret = Scalar::random();
        let random = Scalar::random();
        let g = Point::generator();
        let h = Point::base_point2();
        let commit = g.mul(&secret).add(&h.mul(&random));
        self.secret = secret;
        self.random = random;
        self.commit = commit;
        let sender = match self.id {
            Some(i) => i,
            None => 0,
        };
        NodeKeyGenPhaseOneBroadcastMsg { sender, role: self.role.clone(), commit }
    }

    /// Phase two, first step: records the others' commitments by sender, deals a Pedersen
    /// sharing of the secret blinded by the random value (degree `t`, shares for `1..=n`) and
    /// keeps its commitments and coefficients. Hands out each registered receiver's share
    /// pair for encryption, with two fresh encryption nonces.
    pub fn keygen_phase_two(&mut self, msg_vec: &Vec<NodeKeyGenPhaseOneBroadcastMsg>) -> (r:
        PhaseTwoDeal)
        requires
            msg_vec@.len() == old(self).threashold_param.share_counts,
            old(self).node_info_vec is Some,
            ids_in_range(old(self).node_info_vec->0@, old(self).threashold_param.share_counts),
        ensures
            final(self).commit_map@ == commit_map_of(msg_vec@),
            final(self).secret_coefficients@.len() == old(self).threashold_param.threshold + 1,
            final(self).random_coefficients@.len() == old(self).threashold_param.threshold + 1,
            final(self).secret_coefficients@[0] == old(self).secret,
            final(self).random_coefficients@[0] == old(self).random,
            point_encodings(final(self).commitments@) == Seq::new(
                (old(self).threashold_param.threshold + 1) as nat,
                |j: int|
                    pedersen_point(
                        final(self).secret_coefficients@[j]@,
                        final(self).random_coefficients@[j]@,
                    ),
            ),
            forall|hd: int|
                #![trigger gen_pow(hd)]
                base_point2_encoding() == gen_pow(hd) ==> dlogs_of(
                    point_encodings(final(self).commitments@),
                    pedersen_dlogs(
                        scalar_values(final(self).secret_coefficients@),
                        scalar_values(final(self).random_coefficients@),
                        hd,
                    ),
                ),
            *final(self) == (Node {
                commit_map: final(self).commit_map,
                commitments: final(self).commitments,
                secret_coefficients: final(self).secret_coefficients,
                random_coefficients: final(self).random_coefficients,
                ..*old(self)
            }),
            r.shares@.len() == old(self).node_info_vec->0@.len(),
            forall|i: int|
                0 <= i < r.shares@.len() ==> {
                    let info = old(self).node_info_vec->0@[i];
                    &&& (#[trigger] r.shares@[i]).id == info.id
                    &&& r.shares@[i].cl_pk@ == info.cl_pk@
                    &&& r.shares@[i].share@ == decimal_repr(
                        poly_eval(scalar_values(final(self).secret_coefficients@), info.id as nat),
                    )
                    &&& r.shares@[i].random@ == decimal_repr(
                        poly_eval(scalar_values(final(self).random_coefficients@), info.id as nat),
                    )
                },
            exists|v: nat| 0 < v < group_order() && r.share_nonce@ == decimal_repr(v),
            exists|v: nat| 0 < v < group_order() && r.random_nonce@ == decimal_repr(v),
    {
        let mut commit_map: HashMap<u16, Point> = HashMap::new();
        let mut k: usize = 0;
        while k < msg_vec.len()
            invariant
                k <= msg_vec@.len(),
                commit_map@ == commit_map_of(msg_vec@.take(k as int)),
            decreases msg_vec@.len() - k,
        {
            commit_map.insert(msg_vec[k].sender, msg_vec[k].commit);
            assert(msg_vec@.take(k + 1).drop_last() =~= msg_vec@.take(k as int));
            k += 1;
        }
        assert(msg_vec@.take(msg_vec@.len() as int) =~= msg_vec@);
        self.commit_map = commit_map;
        let t = self.threashold_param.threshold;
        let n = self.threashold_param.share_counts;
        let (vss, shares, coefficients) = pedersen_share(t, n, &self.secret, &self.random);
        self.commitments = vss.commitments;
        self.secret_coefficients = coefficients.secret_coefficients;
        self.random_coefficients = coefficients.random_coefficients;
        let share_nonce = Scalar::random().to_bignum().to_decimal();
        let random_nonce = Scalar::random().to_bignum().to_decimal();
        let infos = match &self.node_info_vec {
            Some(v) => v,
            None => {
                return PhaseTwoDeal { shares: Vec::new(), share_nonce, random_nonce };
            },
        };
        let mut out: Vec<ShareForNode> = Vec::new();
        let mut i: usize = 0;
        while i < infos.len()
            invariant
                ids_in_range(infos@, n),
                shares.secret_shares@.len() == n,
                shares.random_shares@.len() == n,
                forall|j: int|
                    0 <= j < n ==> (#[trigger] shares.secret_shares@[j])@ == poly_eval(
                        scalar_values(coefficients.secret_coefficients@),
                        (j + 1) as nat,
                    ),
                forall|j: int|
                    0 <= j < n ==> (#[trigger] shares.random_shares@[j])@ == poly_eval(
                        scalar_values(coefficients.random_coefficients@),
                        (j + 1) as nat,
                    ),
                i <= infos@.len(),
                out@.len() == i,
                forall|j: int|
                    0 <= j < i ==> {
                        let info = infos@[j];
                        &&& (#[trigger] out@[j]).id == info.id
                        &&& out@[j].cl_pk@ == info.cl_pk@
                        &&& out@[j].share@ == decimal_repr(
                            poly_eval(scalar_values(coefficients.secret_coefficients@), info.id as nat),
                        )
                        &&& out@[j].random@ == decimal_repr(
                            poly_eval(scalar_values(coefficients.random_coefficients@), info.id as nat),
                        )
                    },
            decreases infos@.len() - i,
        {
            let id = infos[i].id;
            assert(1 <= infos@[i as int].id <= n);
            let idx = (id - 1) as usize;
            let share = shares.secret_shares[idx].to_bignum().to_decimal();
            let random = shares.random_shares[idx].to_bignum().to_decimal();
            out.push(ShareForNode { id, cl_pk: infos[i].cl_pk.clone(), share, random });
            i += 1;
        }
        PhaseTwoDeal { shares: out, share_nonce, random_nonce }
    }

    /// Phase two, second step: the public inputs of the batch proof over the receivers'
    /// ciphertext pairs `encs` (in the order of the registered nodes), and the two witnesses
    /// `st = sum_i f(id_i) * t_i` and `rt = sum_i g(id_i) * t_i` as decimal texts, where `t_i`
    /// is the weight of the `i`-th pair and `f`, `g` are the dealt polynomials. The batch
    /// commitment is `G * st + H * rt`.
    pub fn keygen_phase_two_statement(&self, encs: &Vec<(String, String)>) -> (r: (
        BatchStatement,
        String,
        String,
    ))
        requires
            self.node_info_vec is Some,
            encs@.len() == self.node_info_vec->0@.len(),
            self.secret_coefficients@.len() > 0,
            self.random_coefficients@.len() > 0,
        ensures
            states(
                r.0,
                pedersen_point(
                    batch_sum(
                        scalar_values(self.secret_coefficients@),
                        info_ids(self.node_info_vec->0@),
                        encs@,
                    ),
                    batch_sum(
                        scalar_values(self.random_coefficients@),
                        info_ids(self.node_info_vec->0@),
                        encs@,
                    ),
                ),
                enc_tags(encs@),
                info_pks(self.node_info_vec->0@),
            ),
            r.1@ == decimal_repr(
                batch_sum(
                    scalar_values(self.secret_coefficients@),
                    info_ids(self.node_info_vec->0@),
                    encs@,
                ),
            ),
            r.2@ == decimal_repr(
                batch_sum(
                    scalar_values(self.random_coefficients@),
                    info_ids(self.node_info_vec->0@),
                    encs@,
                ),
            ),
            forall|hd: int|
                #![trigger gen_pow(hd)]
                base_point2_encoding() == gen_pow(hd) ==> pedersen_point(
                    batch_sum(
                        scalar_values(self.secret_coefficients@),
                        info_ids(self.node_info_vec->0@),
                        encs@,
                    ),
                    batch_sum(
                        scalar_values(self.random_coefficients@),
                        info_ids(self.node_info_vec->0@),
                        encs@,
                    ),
                ) == gen_pow(
                    batch_sum(
                        scalar_values(self.secret_coefficients@),
                        info_ids(self.node_info_vec->0@),
                        encs@,
                    ) + hd * batch_sum(
                        scalar_values(self.random_coefficients@),
                        info_ids(self.node_info_vec->0@),
                        encs@,
                    ),
                ),
    {
        let infos = match &self.node_info_vec {
            Some(v) => v,
            None => {
                assert(false);
                return (
                    BatchStatement {
                        pc: String::new(),
                        h: String::new(),
                        t_total: String::new(),
                        t_vec: String::new(),
                        pk_vec: String::new(),
                        t_values: Vec::new(),
                    },
                    String::new(),
                    String::new(),
                );
            },
        };
        let ghost ids = info_ids(infos@);
        let mut ts: Vec<BigNum> = Vec::new();
        let mut sh: Vec<Scalar> = Vec::new();
        let mut rh: Vec<Scalar> = Vec::new();
        let mut pks: Vec<String> = Vec::new();
        let mut i: usize = 0;
        while i < infos.len()
            invariant
                ids == info_ids(infos@),
                encs@.len() == infos@.len(),
                self.secret_coefficients@.len() > 0,
                self.random_coefficients@.len() > 0,
                i <= infos@.len(),
                ts@.len() == i,
                sh@.len() == i,
                rh@.len() == i,
                pks@.len() == i,
                forall|j: int|
                    0 <= j < i ==> (#[trigger] ts@[j])@ == enc_tag(encs@[j].0@, encs@[j].1@),
                forall|j: int|
                    0 <= j < i ==> (#[trigger] sh@[j])@ == poly_eval(
                        scalar_values(self.secret_coefficients@),
                        ids[j] as nat,
                    ),
                forall|j: int|
                    0 <= j < i ==> (#[trigger] rh@[j])@ == poly_eval(
                        scalar_values(self.random_coefficients@),
                        ids[j] as nat,
                    ),
                forall|j: int| 0 <= j < i ==> (#[trigger] pks@[j])@ == infos@[j].cl_pk@,
            decreases infos@.len() - i,
        {
            let x = Scalar::from_u16(infos[i].id);
            sh.push(evaluate(&self.secret_coefficients, &x));
            rh.push(evaluate(&self.random_coefficients, &x));
            ts.push(enc_tag_of(&encs[i].0, &encs[i].1));
            pks.push(infos[i].cl_pk.clone());
            i += 1;
        }
        let tsc = scalars_of(&ts);
        let st = weighted_scalar(&sh, &tsc);
        let rt = weighted_scalar(&rh, &tsc);
        proof {
            assert(values(ts@) =~= enc_tags(encs@));
            assert(scalar_values(sh@).take(tsc@.len() as int) =~= shares_at(
                scalar_values(self.secret_coefficients@),
                ids,
            ));
            assert(scalar_values(rh@).take(tsc@.len() as int) =~= shares_at(
                scalar_values(self.random_coefficients@),
                ids,
            ));
            assert(texts(pks@) =~= info_pks(infos@));
        }
        let g = Point::generator();
        let h = Point::base_point2();
        let gs = g.mul(&st);
        let hr = h.mul(&rt);
        let pc = gs.add(&hr);
        proof {
            assert forall|hd: int| #![trigger gen_pow(hd)] base_point2_encoding() == gen_pow(hd) implies pc@
                == gen_pow(st@ + hd * rt@) by {
                assert(gs@ == gen_pow(1int * st@));
                assert(hr@ == gen_pow(hd * rt@));
            }
        }
        let statement = batch_statement(&pc, &ts, &pks);
        (statement, st.to_bignum().to_decimal(), rt.to_bignum().to_decimal())
    }

    /// Phase two, last step: the message to the proxy, with the receivers' ciphertexts keyed
    /// by id, the batch proof `enc_proof` and the dealt commitments.
    pub fn keygen_phase_two_msg(&self, encs: &Vec<(String, String)>, enc_proof: String) -> (r:
        Result<NodeToProxyKeyGenPhaseTwoP2PMsg, Error>)
        requires
            self.id is Some,
            self.node_info_vec is Some,
            encs@.len() == self.node_info_vec->0@.len(),
        ensures
            r matches Ok(m) && {
                &&& m.sender == self.id->0
                &&& m.role@ == self.role@
                &&& m.enc_proof == enc_proof
                &&& m.share_enc_map@ == keyed_map(
                    info_ids(self.node_info_vec->0@),
                    encs@.map_values(|e: (String, String)| e.0),
                )
                &&& m.random_enc_map@ == keyed_map(
                    info_ids(self.node_info_vec->0@),
                    encs@.map_values(|e: (String, String)| e.1),
                )
                &&& m.vss.parameters == (ShamirSecretSharing {
                    threshold: self.threashold_param.threshold,
                    share_count: self.threashold_param.share_counts,
                })
                &&& m.vss.commitments@ == self.commitments@
            },
    {
        let infos = match &self.node_info_vec {
            Some(v) => v,
            None => {
                assert(false);
                return Err(Error::InvalidZkp);
            },
        };
        let ghost ids = info_ids(infos@);
        let ghost firsts = encs@.map_values(|e: (String, String)| e.0);
        let ghost seconds = encs@.map_values(|e: (String, String)| e.1);
        let mut share_enc_map: HashMap<u16, String> = HashMap::new();
        let mut random_enc_map: HashMap<u16, String> = HashMap::new();
        let mut i: usize = 0;
        while i < infos.len()
            invariant
                ids == info_ids(infos@),
                firsts == encs@.map_values(|e: (String, String)| e.0),
                seconds == encs@.map_values(|e: (String, String)| e.1),
                encs@.len() == infos@.len(),
                i <= infos@.len(),
                share_enc_map@ == keyed_map(ids.take(i as int), firsts),
                random_enc_map@ == keyed_map(ids.take(i as int), seconds),
            decreases infos@.len() - i,
        {
            let id = infos[i].id;
            share_enc_map.insert(id, encs[i].0.clone());
            random_enc_map.insert(id, encs[i].1.clone());
            proof {
                assert(ids.take(i + 1).drop_last() =~= ids.take(i as int));
                assert(firsts[i as int] == encs@[i as int].0);
            }
            i += 1;
        }
        assert(ids.take(infos@.len() as int) =~= ids);
        let sender = match self.id {
            Some(v) => v,
            None => 0,
        };
        Ok(
            NodeToProxyKeyGenPhaseTwoP2PMsg {
                sender,
                role: self.role.clone(),
                share_enc_map,
                random_enc_map,
                enc_proof,
                vss: Vss {
                    parameters: ShamirSecretSharing {
                        threshold: self.threashold_param.threshold,
                        share_count: self.threashold_param.share_counts,
                    },
                    commitments: copy_points(&self.commitments),
                },
            },
        )
    }

    /// Phase four: reads the decrypted sums of the shares dealt to this node (decimal texts)
    /// and checks them against the summed Pedersen commitments at the node's id. If they
    /// match, keeps the share as the node's key share and proves that the Feldman commitments
    /// `G * a_j` of its own secret coefficients match its Pedersen commitments; else refuses
    /// with `InvalidSS`.
    pub fn keygen_phase_four(
        &mut self,
        msg: ProxyToNodeKeyGenPhaseThreeP2PMsg,
        share: String,
        random: String,
    ) -> (r: Result<NodeToProxyKeyGenPhaseFourP2PMsg, Error>)
        requires
            old(self).id is Some,
            is_decimal_text(share@),
            is_decimal_text(random@),
            msg.vss_scheme_sum.commitments@.len() > 0,
            old(self).commitments@.len() <= old(self).secret_coefficients@.len(),
            old(self).commitments@.len() <= old(self).random_coefficients@.len(),
        ensures
            r is Ok <==> pedersen_point(
                decimal_text_value(share@) % group_order(),
                decimal_text_value(random@) % group_order(),
            ) == commit_eval(
                point_encodings(msg.vss_scheme_sum.commitments@),
                old(self).id->0 as nat,
            ),
            r is Err ==> r == Err::<NodeToProxyKeyGenPhaseFourP2PMsg, Error>(Error::InvalidSS)
                && *final(self) == *old(self),
            r matches Ok(m) ==> {
                let cs = point_encodings(old(self).commitments@);
                let ss = point_encodings(m.s_coefficients_log@);
                &&& final(self).sk@ == decimal_text_value(share@) % group_order()
                &&& *final(self) == (Node { sk: final(self).sk, ..*old(self) })
                &&& m.sender == old(self).id->0
                &&& m.role@ == old(self).role@
                &&& ss == g_muls(scalar_values(old(self).secret_coefficients@))
                &&& proof_for(
                    m.dlog_proof,
                    slog_pc(cs, ss),
                    slog_dl(cs, ss),
                    slog_blind(scalar_values(old(self).random_coefficients@), cs, ss),
                )
                &&& phase_four_complete(
                    m.dlog_proof,
                    cs,
                    ss,
                    scalar_values(old(self).secret_coefficients@),
                    scalar_values(old(self).random_coefficients@),
                )
            },
    {
        let share_bn = match BigNum::parse_decimal(share.as_str()) {
            Some(v) => v,
            None => {
                assert(false);
                return Err(Error::InvalidSS);
            },
        };
        let random_bn = match BigNum::parse_decimal(random.as_str()) {
            Some(v) => v,
            None => {
                assert(false);
                return Err(Error::InvalidSS);
            },
        };
        let share_fe = Scalar::from_bignum(&share_bn);
        let random_fe = Scalar::from_bignum(&random_bn);
        let id = match self.id {
            Some(v) => v,
            None => 0,
        };
        match msg.vss_scheme_sum.pedersen_validate_share(&share_fe, &random_fe, id) {
            Ok(()) => {},
            Err(_) => {
                return Err(Error::InvalidSS);
            },
        }
        self.sk = share_fe;
        let g = Point::generator();
        let mut s_co_g: Vec<Point> = Vec::new();
        let mut i: usize = 0;
        while i < self.secret_coefficients.len()
            invariant
                g@ == generator_encoding(),
                g@ == gen_pow(1),
                i <= self.secret_coefficients@.len(),
                s_co_g@.len() == i,
                forall|j: int|
                    0 <= j < i ==> (#[trigger] s_co_g@[j])@ == g_mul(
                        self.secret_coefficients@[j]@,
                    ),
                forall|j: int|
                    0 <= j < i ==> (#[trigger] s_co_g@[j])@ == gen_pow(
                        self.secret_coefficients@[j]@ as int,
                    ),
            decreases self.secret_coefficients@.len() - i,
        {
            let p = g.mul(&self.secret_coefficients[i]);
            assert(p@ == gen_pow(1int * self.secret_coefficients@[i as int]@));
            s_co_g.push(p);
            i += 1;
        }
        assert(point_encodings(s_co_g@) =~= g_muls(scalar_values(self.secret_coefficients@)));
        let ts = tags_of(&self.commitments, &s_co_g);
        let pc = weighted_sum(&self.commitments, &ts);
        let dl = weighted_sum(&s_co_g, &ts);
        let bt = weighted_scalar(&self.random_coefficients, &ts);
        assert(point_encodings(self.commitments@).take(ts@.len() as int) =~= point_encodings(
            self.commitments@,
        ));
        let dlog_proof = DlPcProof::dl_pc_proof(pc, dl, bt);
        let _ = dlog_proof.dl_pc_verify(pc, dl);
        proof {
            let cs = point_encodings(self.commitments@);
            let ss = point_encodings(s_co_g@);
            let a = scalar_values(self.secret_coefficients@);
            let b = scalar_values(self.random_coefficients@);
            let tv = scalar_values(ts@);
            let n = group_order() as int;
            let s = choose|s: nat| #[trigger] made_with(dlog_proof, pc@, dl@, bt@, s)
                && nonce_point_dlog(s);
            assert forall|hd: int|
                #![trigger gen_pow(hd)]
                base_point2_encoding() == gen_pow(hd) && a.len() == b.len() && dlogs_of(
                    cs,
                    pedersen_dlogs(a, b, hd),
                ) implies (proof_accepts(dlog_proof, pc@, dl@) <==> challenge_value(
                pc@,
                dl@,
                spec_point_mul(base_point2_encoding(), s),
            ) < group_order()) by {
                let d = pedersen_dlogs(a, b, hd);
                let p = weighted_int_sum(d, tv);
                let q = weighted_int_sum(as_ints(a), tv);
                let e = dlog_proof.e@;
                assert(pc@ == gen_pow(p));
                assert(ss.take(ts@.len() as int) =~= ss);
                assert(dlogs_of(ss.take(ts@.len() as int), as_ints(a)));
                assert(dl@ == gen_pow(q));
                assert(b.take(ts@.len() as int) =~= b);
                law_slog_complete(a, b, hd, tv, s, e);
                lemma_mod_bound(dlog_proof.z@ as int, n);
                lemma_small_mod(dlog_proof.z@, n as nat);
                lemma_small_mod(e, n as nat);
                assert(recomputed_commitment(pc@, dl@, dlog_proof.z@, e) == gen_pow(hd * s));
                let cv = challenge_value(pc@, dl@, spec_point_mul(base_point2_encoding(), s));
                if cv < group_order() {
                    lemma_small_mod(cv, n as nat);
                }
            }
            assert(made_with(dlog_proof, pc@, dl@, bt@, s));
        }
        Ok(
            NodeToProxyKeyGenPhaseFourP2PMsg {
                sender: id,
                role: self.role.clone(),
                s_coefficients_log: s_co_g,
                dlog_proof,
            },
        )
    }

    /// Phase six: checks the node's key share against the joint Feldman commitments at its id.
    /// If it matches, gives the joint public key (the first commitment), the key share and
    /// the public key shares of all ids `1..=n`; else refuses with `InvalidSS`.
    pub fn keygen_phase_six(&mut self, msg: ProxyToNodeKeyGenPhaseFiveP2PMsg) -> (r: Result<
        KeyShare,
        Error,
    >)
        requires
            old(self).id is Some,
            msg.total_s_coefficients_log@.len() > 0,
        ensures
            *final(self) == *old(self),
            r is Ok <==> g_mul(old(self).sk@) == commit_eval(
                point_encodings(msg.total_s_coefficients_log@),
                old(self).id->0 as nat,
            ),
            r is Err ==> r == Err::<KeyShare, Error>(Error::InvalidSS),
            r matches Ok(k) ==> {
                &&& k.pk == msg.total_s_coefficients_log@[0]
                &&& k.sk == old(self).sk
                &&& k.pk_shares@.len() == old(self).threashold_param.share_counts
                &&& forall|i: int|
                    0 <= i < k.pk_shares@.len() ==> (#[trigger] k.pk_shares@[i])@ == commit_eval(
                        point_encodings(msg.total_s_coefficients_log@),
                        (i + 1) as nat,
                    )
            },
    {
        let vss_scheme = Vss {
            parameters: ShamirSecretSharing {
                threshold: self.threashold_param.threshold,
                share_count: self.threashold_param.share_counts,
            },
            commitments: msg.total_s_coefficients_log,
        };
        let id = match self.id {
            Some(v) => v,
            None => 0,
        };
        match vss_scheme.validate_share(&self.sk, id) {
            Ok(()) => {},
            Err(_) => {
                return Err(Error::InvalidSS);
            },
        }
        let n = self.threashold_param.share_counts;
        let mut pk_shares: Vec<Point> = Vec::new();
        let mut k: u16 = 0;
        while k < n
            invariant
                vss_scheme.commitments@.len() > 0,
                k <= n,
                pk_shares@.len() == k,
                forall|i: int|
                    0 <= i < k ==> (#[trigger] pk_shares@[i])@ == commit_eval(
                        point_encodings(vss_scheme.commitments@),
                        (i + 1) as nat,
                    ),
            decreases n - k,
        {
            pk_shares.push(vss_scheme.get_point_commitment(k + 1));
            k += 1;
        }
        Ok(KeyShare { pk: vss_scheme.commitments[0], sk: self.sk, pk_shares })
    }
}

} // verus!
