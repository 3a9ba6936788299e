//! The proxy of the key generation: it checks and combines what the nodes send.

use vstd::prelude::*;
use std::collections::HashMap;
use crate::error::Error;
use crate::group::{gen_pow, zero_encoding, Point};
use crate::kjg::combine::{
    all_dlogs, column_int_sum, column_sums, encodings_2, slog_dl, slog_pc, sum_columns, tags_of,
    weighted_int_sum, weighted_point_sum, weighted_sum,
};
use crate::kjg::batch::{
    batch_statement, enc_tag, enc_tag_of, reduced, scalars_of, states, texts, BatchStatement,
};
use crate::kjg::message::{
    NodeInfo, NodeToProxyKeyGenPhaseFourP2PMsg, NodeToProxyKeyGenPhaseTwoP2PMsg,
    ProxyToNodeKeyGenPhaseFiveP2PMsg, ProxyToNodeKeyGenPhaseThreeP2PMsg,
};
use crate::kjg::node::{info_ids, info_pks};
use crate::kjg::vss::{ShamirSecretSharing, Vss};
use crate::lagrange::values;
use crate::numbers::BigNum;
use crate::kjg::params::{Gpk, ThreasholdParam};
use crate::kjg::zkp::proof_accepts;
use crate::poly::{commit_eval, copy_points, dlogs_of, point_encodings, poly_value};

verus! {

broadcast use vstd::std_specs::hash::group_hash_axioms;

/// The proxy's state.
#[derive(Clone, Debug)]
pub struct Proxy {
    pub id: u16,
    pub role: String,
    pub address: String,
    pub threashold_param: ThreasholdParam,
    pub gpk: Option<Gpk>,
    pub node_info_vec: Option<Vec<NodeInfo>>,
    pub participants: Option<Vec<u16>>,
    pub commitments_map: Option<HashMap<u16, Vec<Point>>>,
}

/// The senders of the messages.
pub open spec fn senders(msgs: Seq<NodeToProxyKeyGenPhaseTwoP2PMsg>) -> Seq<u16> {
    msgs.map_values(|m: NodeToProxyKeyGenPhaseTwoP2PMsg| m.sender)
}

/// The weights of a dealer's ciphertext pairs for the given receiver ids, looked up by id.
pub open spec fn dealt_tags(msg: NodeToProxyKeyGenPhaseTwoP2PMsg, ids: Seq<u16>) -> Seq<nat> {
    Seq::new(
        ids.len(),
        |i: int| enc_tag(msg.share_enc_map@[ids[i]]@, msg.random_enc_map@[ids[i]]@),
    )
}

/// The evaluations of the commitments `cs` at the ids.
pub open spec fn commit_evals(cs: Seq<Seq<u8>>, ids: Seq<u16>) -> Seq<Seq<u8>> {
    Seq::new(ids.len(), |i: int| commit_eval(cs, ids[i] as nat))
}

/// The values at the ids of the polynomial with integer coefficients `d`.
pub open spec fn evals_at(d: Seq<int>, ids: Seq<u16>) -> Seq<int> {
    Seq::new(ids.len(), |i: int| poly_value(d, ids[i] as int))
}

/// The batch commitment that the proxy recomputes for a dealer from its commitments:
/// `sum_i C(id_i) * t_i`.
pub open spec fn dealt_commitment(msg: NodeToProxyKeyGenPhaseTwoP2PMsg, ids: Seq<u16>) -> Seq<u8> {
    weighted_point_sum(
        commit_evals(point_encodings(msg.vss.commitments@), ids),
        reduced(dealt_tags(msg, ids)),
    )
}

/// Every message carries a ciphertext pair for every id.
pub open spec fn covers(msg: NodeToProxyKeyGenPhaseTwoP2PMsg, ids: Seq<u16>) -> bool {
    forall|i: int|
        0 <= i < ids.len() ==> msg.share_enc_map@.contains_key(#[trigger] ids[i])
            && msg.random_enc_map@.contains_key(ids[i])
}

/// No later entry has the same id as entry `i`.
pub open spec fn last_with_id(ids: Seq<u16>, i: int) -> bool {
    forall|j: int| i < j < ids.len() ==> #[trigger] ids[j] != ids[i]
}

/// The summed commitment vectors of the phase-two messages (the commitments of the joint
/// sharing).
pub open spec fn summed_commitments(msgs: Seq<NodeToProxyKeyGenPhaseTwoP2PMsg>) -> Seq<Seq<u8>> {
    column_sums(
        Seq::new(msgs.len(), |j: int| zero_encoding()),
        msgs.map_values(|m: NodeToProxyKeyGenPhaseTwoP2PMsg| point_encodings(m.vss.commitments@)),
    )
}

/// The phase-three message to receiver `i` carries that receiver's summed ciphertexts and the
/// summed commitments.
pub open spec fn phase_three_entry(
    p: Proxy,
    e: ProxyToNodeKeyGenPhaseThreeP2PMsg,
    sums: (String, String),
    msgs: Seq<NodeToProxyKeyGenPhaseTwoP2PMsg>,
) -> bool {
    &&& e.sender == p.id
    &&& e.role@ == p.role@
    &&& e.share_enc_sum == sums.0
    &&& e.random_enc_sum == sums.1
    &&& e.vss_scheme_sum.parameters == (ShamirSecretSharing {
        threshold: p.threashold_param.threshold,
        share_count: p.threashold_param.share_counts,
    })
    &&& point_encodings(e.vss_scheme_sum.commitments@) == summed_commitments(msgs)
}

/// `cm` holds each message's commitments under its sender (a later message replacing an
/// earlier one of the same sender), and nothing else.
pub open spec fn records(cm: HashMap<u16, Vec<Point>>, msgs: Seq<NodeToProxyKeyGenPhaseTwoP2PMsg>) -> bool {
    &&& cm@.dom() == senders(msgs).to_set()
    &&& forall|k: int| 0 <= k < msgs.len() ==> cm@.contains_key((#[trigger] msgs[k]).sender)
    &&& forall|k: int|
        0 <= k < msgs.len() && last_with_id(senders(msgs), k) ==> cm@[(#[trigger] msgs[k]).sender]@
            == msgs[k].vss.commitments@
}

/// `m` addresses a phase-three message to each id, with the summed ciphertexts of the last
/// entry of that id.
pub open spec fn addresses(
    p: Proxy,
    m: HashMap<u16, ProxyToNodeKeyGenPhaseThreeP2PMsg>,
    ids: Seq<u16>,
    sums: Seq<(String, String)>,
    msgs: Seq<NodeToProxyKeyGenPhaseTwoP2PMsg>,
) -> bool {
    &&& m@.dom() == ids.to_set()
    &&& forall|i: int|
        0 <= i < ids.len() && last_with_id(ids, i) ==> phase_three_entry(
            p,
            #[trigger] m@[ids[i]],
            sums[i],
            msgs,
        )
}

proof fn lemma_take_push_to_set<A>(s: Seq<A>, k: int)
    requires
        0 <= k < s.len(),
    ensures
        s.take(k + 1).to_set() == s.take(k).to_set().insert(s[k]),
{
    assert forall|a: A| s.take(k + 1).to_set().contains(a) <==> s.take(k).to_set().insert(
        s[k],
    ).contains(a) by {
        if s.take(k + 1).contains(a) {
            let i = choose|i: int| 0 <= i < k + 1 && #[trigger] s.take(k + 1)[i] == a;
            if i < k {
                assert(s.take(k)[i] == a);
            }
        }
        if s.take(k).contains(a) {
            let i = choose|i: int| 0 <= i < k && #[trigger] s.take(k)[i] == a;
            assert(s.take(k + 1)[i] == a);
        }
        if a == s[k] {
            assert(s.take(k + 1)[k] == a);
        }
    }
    assert(s.take(k + 1).to_set() =~= s.take(k).to_set().insert(s[k]));
}

proof fn lemma_last_with_id_take(ids: Seq<u16>, k: int, j: int)
    requires
        0 <= j < k < ids.len(),
        last_with_id(ids.take(k + 1), j),
    ensures
        ids[k] != ids[j],
        last_with_id(ids.take(k), j),
{
    assert(ids.take(k + 1)[k] == ids[k]);
    assert(ids.take(k + 1)[j] == ids[j]);
    assert forall|l: int| j < l < ids.take(k).len() implies #[trigger] ids.take(k)[l] != ids.take(
        k,
    )[j] by {
        assert(ids.take(k + 1)[l] == ids.take(k)[l]);
    }
}

/// Whether the proof in a phase-four message is accepted against the sender's Pedersen
/// commitments `cs`.
pub open spec fn slog_ok(cs: Seq<Seq<u8>>, msg: NodeToProxyKeyGenPhaseFourP2PMsg) -> bool {
    proof_accepts(
        msg.dlog_proof,
        slog_pc(cs, point_encodings(msg.s_coefficients_log@)),
        slog_dl(cs, point_encodings(msg.s_coefficients_log@)),
    )
}

/// The Pedersen commitments that the proxy stored for `sender`.
pub open spec fn stored_commitments(m: HashMap<u16, Vec<Point>>, sender: u16) -> Seq<Seq<u8>> {
    point_encodings(m@[sender]@)
}

/// The Feldman commitment vectors of the messages.
pub open spec fn slog_vectors(msgs: Seq<NodeToProxyKeyGenPhaseFourP2PMsg>) -> Seq<Vec<Point>> {
    msgs.map_values(|m: NodeToProxyKeyGenPhaseFourP2PMsg| m.s_coefficients_log)
}

impl Proxy {
    /// Phase three, first step: the public inputs of the batch proof of one dealer's
    /// message, recomputed from its ciphertexts and commitments: the weights of the ciphertext
    /// pairs of the registered nodes (looked up by id) and the batch commitment
    /// `sum_i C(id_i) * t_i`, where `C(x)` is the dealer's commitment evaluation at `x`.
    pub fn keygen_phase_three_statement(&self, msg: &NodeToProxyKeyGenPhaseTwoP2PMsg) -> (r:
        BatchStatement)
        requires
            self.node_info_vec is Some,
            msg.vss.commitments@.len() > 0,
            covers(*msg, info_ids(self.node_info_vec->0@)),
        ensures
            states(
                r,
                dealt_commitment(*msg, info_ids(self.node_info_vec->0@)),
                dealt_tags(*msg, info_ids(self.node_info_vec->0@)),
                info_pks(self.node_info_vec->0@),
            ),
            forall|d: Seq<int>|
                #[trigger] dlogs_of(point_encodings(msg.vss.commitments@), d) ==> dealt_commitment(
                    *msg,
                    info_ids(self.node_info_vec->0@),
                ) == gen_pow(
                    weighted_int_sum(
                        evals_at(d, info_ids(self.node_info_vec->0@)),
                        reduced(dealt_tags(*msg, info_ids(self.node_info_vec->0@))),
                    ),
                ),
    {
        let infos = match &self.node_info_vec {
            Some(v) => v,
            None => {
                assert(false);
                return BatchStatement {
                    pc: String::new(),
                    h: String::new(),
                    t_total: String::new(),
                    t_vec: String::new(),
                    pk_vec: String::new(),
                    t_values: Vec::new(),
                };
            },
        };
        let ghost ids = info_ids(infos@);
        let ghost cs = point_encodings(msg.vss.commitments@);
        let mut ts: Vec<BigNum> = Vec::new();
        let mut ps: Vec<Point> = Vec::new();
        let mut pks: Vec<String> = Vec::new();
        let mut i: usize = 0;
        while i < infos.len()
            invariant
                ids == info_ids(infos@),
                cs == point_encodings(msg.vss.commitments@),
                msg.vss.commitments@.len() > 0,
                covers(*msg, ids),
                i <= infos@.len(),
                ts@.len() == i,
                ps@.len() == i,
                pks@.len() == i,
                forall|j: int|
                    0 <= j < i ==> (#[trigger] ts@[j])@ == dealt_tags(*msg, ids)[j],
                forall|j: int|
                    0 <= j < i ==> (#[trigger] ps@[j])@ == commit_eval(cs, ids[j] as nat),
                forall|d: Seq<int>, j: int|
                    #![trigger dlogs_of(cs, d), ps@[j]]
                    dlogs_of(cs, d) && 0 <= j < i ==> ps@[j]@ == gen_pow(
                        poly_value(d, ids[j] as int),
                    ),
                forall|j: int| 0 <= j < i ==> (#[trigger] pks@[j])@ == infos@[j].cl_pk@,
            decreases infos@.len() - i,
        {
            let id = infos[i].id;
            assert(ids[i as int] == id);
            let share_enc = match msg.share_enc_map.get(&id) {
                Some(v) => v,
                None => {
                    assert(false);
                    return BatchStatement {
                        pc: String::new(),
                        h: String::new(),
                        t_total: String::new(),
                        t_vec: String::new(),
                        pk_vec: String::new(),
                        t_values: Vec::new(),
                    };
                },
            };
            let random_enc = match msg.random_enc_map.get(&id) {
                Some(v) => v,
                None => {
                    assert(false);
                    return BatchStatement {
                        pc: String::new(),
                        h: String::new(),
                        t_total: String::new(),
                        t_vec: String::new(),
                        pk_vec: String::new(),
                        t_values: Vec::new(),
                    };
                },
            };
            ts.push(enc_tag_of(share_enc, random_enc));
            ps.push(msg.vss.pedersen_get_point_commitment(id));
            pks.push(infos[i].cl_pk.clone());
            i += 1;
        }
        let tsc = scalars_of(&ts);
        let pc = weighted_sum(&ps, &tsc);
        proof {
            assert(values(ts@) =~= dealt_tags(*msg, ids));
            assert(point_encodings(ps@).take(tsc@.len() as int) =~= commit_evals(cs, ids));
            assert(texts(pks@) =~= info_pks(infos@));
            assert forall|d: Seq<int>| #[trigger] dlogs_of(cs, d) implies pc@ == gen_pow(
                weighted_int_sum(evals_at(d, ids), reduced(dealt_tags(*msg, ids))),
            ) by {
                assert(dlogs_of(point_encodings(ps@).take(tsc@.len() as int), evals_at(d, ids))) by {
                    assert forall|j: int| 0 <= j < ids.len() implies point_encodings(ps@).take(
                        tsc@.len() as int,
                    )[j] == gen_pow(evals_at(d, ids)[j]) by {
                        assert(ps@[j]@ == gen_pow(poly_value(d, ids[j] as int)));
                    }
                }
            }
        }
        batch_statement(&pc, &ts, &pks)
    }

    /// Phase three, last step: records each dealer's commitments by sender. When every batch
    /// proof was accepted (`verified[k]` for the `k`-th message), sums the dealers'
    /// commitment vectors position-wise and addresses to each registered node its summed
    /// ciphertexts `enc_sums[i]` (share, blinding) with the summed commitments; else refuses
    /// with `InvalidZkp`.
    pub fn keygen_phase_three(
        &mut self,
        msg_vec: Vec<NodeToProxyKeyGenPhaseTwoP2PMsg>,
        verified: &Vec<bool>,
        enc_sums: &Vec<(String, String)>,
    ) -> (r: Result<HashMap<u16, ProxyToNodeKeyGenPhaseThreeP2PMsg>, Error>)
        requires
            msg_vec@.len() == old(self).threashold_param.share_counts,
            verified@.len() == msg_vec@.len(),
            old(self).node_info_vec is Some,
            enc_sums@.len() == old(self).node_info_vec->0@.len(),
        ensures
            final(self).commitments_map matches Some(cm) && records(cm, msg_vec@),
            *final(self) == (Proxy { commitments_map: final(self).commitments_map, ..*old(self) }),
            r is Ok <==> forall|k: int| 0 <= k < verified@.len() ==> #[trigger] verified@[k],
            r is Err ==> r == Err::<HashMap<u16, ProxyToNodeKeyGenPhaseThreeP2PMsg>, Error>(
                Error::InvalidZkp,
            ),
            r matches Ok(m) ==> addresses(
                *old(self),
                m,
                info_ids(old(self).node_info_vec->0@),
                enc_sums@,
                msg_vec@,
            ),
    {
        let commitments_map = Proxy::record_commitments(&msg_vec);
        self.commitments_map = Some(commitments_map);
        let mut all_verify_flag = true;
        let mut v: usize = 0;
        while v < verified.len()
            invariant
                v <= verified@.len(),
                all_verify_flag <==> forall|j: int| 0 <= j < v ==> #[trigger] verified@[j],
            decreases verified@.len() - v,
        {
            all_verify_flag = all_verify_flag && verified[v];
            v += 1;
        }
        if !all_verify_flag {
            return Err(Error::InvalidZkp);
        }
        let mut vss_commitments_vec: Vec<Vec<Point>> = Vec::new();
        let mut c: usize = 0;
        while c < msg_vec.len()
            invariant
                c <= msg_vec@.len(),
                vss_commitments_vec@.len() == c,
                forall|j: int|
                    0 <= j < c ==> (#[trigger] vss_commitments_vec@[j])@
                        == msg_vec@[j].vss.commitments@,
            decreases msg_vec@.len() - c,
        {
            vss_commitments_vec.push(copy_points(&msg_vec[c].vss.commitments));
            c += 1;
        }
        let total = sum_columns(&vss_commitments_vec);
        proof {
            assert(encodings_2(vss_commitments_vec@) =~= msg_vec@.map_values(
                |m: NodeToProxyKeyGenPhaseTwoP2PMsg| point_encodings(m.vss.commitments@),
            ));
        }
        Ok(self.phase_three_msgs(&total, enc_sums, Ghost(msg_vec@)))
    }

    /// The dealers' commitments by sender (a later message replaces an earlier one).
    fn record_commitments(msg_vec: &Vec<NodeToProxyKeyGenPhaseTwoP2PMsg>) -> (r: HashMap<
        u16,
        Vec<Point>,
    >)
        ensures
            records(r, msg_vec@),
    {
        let ghost snd = senders(msg_vec@);
        let mut commitments_map: HashMap<u16, Vec<Point>> = HashMap::new();
        let mut k: usize = 0;
        while k < msg_vec.len()
            invariant
                snd == senders(msg_vec@),
                k <= msg_vec@.len(),
                commitments_map@.dom() == snd.take(k as int).to_set(),
                forall|j: int|
                    0 <= j < k && last_with_id(snd.take(k as int), j) ==> commitments_map@[#[trigger] snd[j]]@
                        == msg_vec@[j].vss.commitments@,
            decreases msg_vec@.len() - k,
        {
            commitments_map.insert(msg_vec[k].sender, copy_points(&msg_vec[k].vss.commitments));
            proof {
                assert(snd[k as int] == msg_vec@[k as int].sender);
                lemma_take_push_to_set(snd, k as int);
                assert forall|j: int|
                    0 <= j < k + 1 && last_with_id(snd.take(k + 1), j) implies commitments_map@[#[trigger] snd[j]]@
                    == msg_vec@[j].vss.commitments@ by {
                    if j < k {
                        lemma_last_with_id_take(snd, k as int, j);
                    }
                }
            }
            k += 1;
        }
        proof {
            assert(snd.take(msg_vec@.len() as int) =~= snd);
            assert forall|j: int|
                0 <= j < msg_vec@.len() && last_with_id(snd, j) implies commitments_map@[(
                #[trigger] msg_vec@[j]).sender]@ == msg_vec@[j].vss.commitments@ by {
                assert(snd[j] == msg_vec@[j].sender);
            }
            assert forall|j: int| 0 <= j < msg_vec@.len() implies commitments_map@.contains_key(
                (#[trigger] msg_vec@[j]).sender,
            ) by {
                assert(snd[j] == msg_vec@[j].sender);
                assert(snd.contains(snd[j]));
            }
        }
        commitments_map
    }

    /// The phase-three message to each registered node: its summed ciphertexts and the
    /// summed commitments `total`.
    fn phase_three_msgs(
        &self,
        total: &Vec<Point>,
        enc_sums: &Vec<(String, String)>,
        Ghost(msgs): Ghost<Seq<NodeToProxyKeyGenPhaseTwoP2PMsg>>,
    ) -> (r: HashMap<u16, ProxyToNodeKeyGenPhaseThreeP2PMsg>)
        requires
            self.node_info_vec is Some,
            enc_sums@.len() == self.node_info_vec->0@.len(),
            point_encodings(total@) == summed_commitments(msgs),
        ensures
            addresses(*self, r, info_ids(self.node_info_vec->0@), enc_sums@, msgs),
    {
        let infos = match &self.node_info_vec {
            Some(v) => v,
            None => {
                assert(false);
                return HashMap::new();
            },
        };
        let ghost ids = info_ids(infos@);
        let mut msg_map: HashMap<u16, ProxyToNodeKeyGenPhaseThreeP2PMsg> = HashMap::new();
        let mut i: usize = 0;
        while i < infos.len()
            invariant
                ids == info_ids(infos@),
                infos@ == self.node_info_vec->0@,
                enc_sums@.len() == infos@.len(),
                point_encodings(total@) == summed_commitments(msgs),
                i <= infos@.len(),
                msg_map@.dom() == ids.take(i as int).to_set(),
                forall|j: int|
                    0 <= j < i && last_with_id(ids.take(i as int), j) ==> phase_three_entry(
                        *self,
                        #[trigger] msg_map@[ids[j]],
                        enc_sums@[j],
                        msgs,
                    ),
            decreases infos@.len() - i,
        {
            let entry = ProxyToNodeKeyGenPhaseThreeP2PMsg {
                sender: self.id,
                role: self.role.clone(),
                share_enc_sum: enc_sums[i].0.clone(),
                random_enc_sum: enc_sums[i].1.clone(),
                vss_scheme_sum: Vss {
                    parameters: ShamirSecretSharing {
                        threshold: self.threashold_param.threshold,
                        share_count: self.threashold_param.share_counts,
                    },
                    commitments: copy_points(total),
                },
            };
            msg_map.insert(infos[i].id, entry);
            proof {
                lemma_take_push_to_set(ids, i as int);
                assert forall|j: int|
                    0 <= j < i + 1 && last_with_id(ids.take(i + 1), j) implies phase_three_entry(
                    *self,
                    #[trigger] msg_map@[ids[j]],
                    enc_sums@[j],
                    msgs,
                ) by {
                    if j < i {
                        lemma_last_with_id_take(ids, i as int, j);
                    }
                }
            }
            i += 1;
        }
        assert(ids.take(infos@.len() as int) =~= ids);
        msg_map
    }

    /// Checks a phase-four message: weighs the sender's stored Pedersen commitments and its
    /// Feldman commitments by their tags and verifies the proof on the two sums.
    pub fn check_slog_msg(cs: &Vec<Point>, msg: &NodeToProxyKeyGenPhaseFourP2PMsg) -> (ok: bool)
        requires
            cs@.len() <= msg.s_coefficients_log@.len(),
        ensures
            ok == slog_ok(point_encodings(cs@), *msg),
    {
        let ts = tags_of(cs, &msg.s_coefficients_log);
        let pc = weighted_sum(cs, &ts);
        let dl = weighted_sum(&msg.s_coefficients_log, &ts);
        assert(point_encodings(cs@).take(cs@.len() as int) =~= point_encodings(cs@));
        msg.dlog_proof.dl_pc_verify(pc, dl)
    }

    /// Phase five: checks every node's proof that its Feldman commitments match the Pedersen
    /// commitments it dealt with; if all pass, sums the Feldman commitment vectors
    /// position-wise (the commitments of the joint polynomial), else refuses with
    /// `InvalidSlog`.
    pub fn keygen_phase_five(&self, msg_vec: Vec<NodeToProxyKeyGenPhaseFourP2PMsg>) -> (r: Result<
        ProxyToNodeKeyGenPhaseFiveP2PMsg,
        Error,
    >)
        requires
            self.commitments_map is Some,
            forall|k: int|
                0 <= k < msg_vec@.len() ==> self.commitments_map->0@.contains_key(
                    (#[trigger] msg_vec@[k]).sender,
                ) && self.commitments_map->0@[msg_vec@[k].sender]@.len()
                    <= msg_vec@[k].s_coefficients_log@.len(),
        ensures
            r is Ok <==> forall|k: int|
                0 <= k < msg_vec@.len() ==> slog_ok(
                    stored_commitments(self.commitments_map->0, (#[trigger] msg_vec@[k]).sender),
                    msg_vec@[k],
                ),
            r is Err ==> r == Err::<ProxyToNodeKeyGenPhaseFiveP2PMsg, Error>(Error::InvalidSlog),
            r matches Ok(m) ==> point_encodings(m.total_s_coefficients_log@) == column_sums(
                Seq::new(msg_vec@.len(), |j: int| zero_encoding()),
                encodings_2(slog_vectors(msg_vec@)),
            ),
            r matches Ok(m) ==> forall|ds: Seq<Seq<int>>|
                #[trigger] all_dlogs(encodings_2(slog_vectors(msg_vec@)), ds) ==> forall|j: int|
                    0 <= j < m.total_s_coefficients_log@.len() ==> (
                    #[trigger] m.total_s_coefficients_log@[j])@ == gen_pow(
                        column_int_sum(ds, j),
                    ),
    {
        let mut all_verify_flag = true;
        let commitments_map = match &self.commitments_map {
            Some(m) => m,
            None => {
                assert(false);
                return Err(Error::InvalidSlog);
            },
        };
        let mut k: usize = 0;
        while k < msg_vec.len()
            invariant
                self.commitments_map == Some(*commitments_map),
                forall|i: int|
                    0 <= i < msg_vec@.len() ==> commitments_map@.contains_key(
                        (#[trigger] msg_vec@[i]).sender,
                    ) && commitments_map@[msg_vec@[i].sender]@.len()
                        <= msg_vec@[i].s_coefficients_log@.len(),
                k <= msg_vec@.len(),
                all_verify_flag <==> forall|i: int|
                    0 <= i < k ==> slog_ok(
                        stored_commitments(*commitments_map, (#[trigger] msg_vec@[i]).sender),
                        msg_vec@[i],
                    ),
            decreases msg_vec@.len() - k,
        {
            let msg = &msg_vec[k];
            let commitments = match commitments_map.get(&msg.sender) {
                Some(c) => c,
                None => {
                    assert(false);
                    return Err(Error::InvalidSlog);
                },
            };
            let res = Proxy::check_slog_msg(commitments, msg);
            all_verify_flag = all_verify_flag && res;
            k += 1;
        }
        if all_verify_flag {
            let mut s_coefficients_log_vec: Vec<Vec<Point>> = Vec::new();
            let mut i: usize = 0;
            while i < msg_vec.len()
                invariant
                    i <= msg_vec@.len(),
                    s_coefficients_log_vec@.len() == i,
                    forall|j: int|
                        0 <= j < i ==> (#[trigger] s_coefficients_log_vec@[j])@
                            == msg_vec@[j].s_coefficients_log@,
                decreases msg_vec@.len() - i,
            {
                s_coefficients_log_vec.push(copy_points(&msg_vec[i].s_coefficients_log));
                i += 1;
            }
            assert(encodings_2(s_coefficients_log_vec@) =~= encodings_2(slog_vectors(msg_vec@)));
            let total_s_coefficients_log = sum_columns(&s_coefficients_log_vec);
            Ok(ProxyToNodeKeyGenPhaseFiveP2PMsg { total_s_coefficients_log })
        } else {
            Err(Error::InvalidSlog)
        }
    }
}

} // verus!
