//! The proxy of the distributed chameleon hash: it registers the nodes and combines their
//! shares of the adapted randomness.

use vstd::prelude::*;
use vstd::string::*;
use crate::config::Config;
use crate::dch::message::{
    NodeInfo, NodeKeyGenPhaseOneBroadcastMsg, NodeSetupPhaseFinishFlag,
    NodeToProxySetupPhaseP2PMsg, ProxySetupPhaseBroadcastMsg, ProxySetupPhaseFinishFlag,
    ProxyToNodeGetSTotal,
};
use crate::digest::text_digest;
use vstd::arithmetic::div_mod::*;
use crate::dch::ch::ch_hash_dlog;
use crate::error::Error;
use crate::field::{group_order, Scalar};
use crate::group::{gen_pow, generator_encoding, spec_point_mul, spec_point_sub, Point};
use crate::kjg::combine::{weighted_int_sum, weighted_scalar, weighted_scalar_sum};
use crate::kjg::laws::{combo, lemma_weighted_combo, lemma_weighted_mod, reduced_ints};
use crate::interpolation::{distinct, law_lagrange_interpolation, pairwise_invertible};
use crate::poly::{as_ints, dlogs_of, point_encodings, poly_value, scalar_values};
use crate::hex::{lower_hex, upper_hex};
use crate::kjg::params::{Gpk, ThreasholdParam};
use crate::lagrange::{lagrange_den, lagrange_value, values};
use crate::numbers::BigNum;

verus! {

/// The proxy's state.
#[derive(Clone, Debug)]
pub struct Proxy {
    pub id: u16,
    pub role: String,
    pub address: String,
    pub threashold_param: ThreasholdParam,
    pub gpk: Option<Gpk>,
    pub node_info_vec: Option<Vec<NodeInfo>>,
    pub participants: Option<Vec<u16>>,
}

/// The node list that gives the `k`-th registration the id `k + 1`.
pub open spec fn numbered(msgs: Seq<NodeToProxySetupPhaseP2PMsg>, infos: Seq<NodeInfo>) -> bool {
    &&& infos.len() == msgs.len()
    &&& forall|k: int|
        0 <= k < msgs.len() ==> (#[trigger] infos[k]).id == k + 1 && infos[k].address@
            == msgs[k].address@
}

/// The proxy's check of a node's share: `R_i - c * PK_i == s * G`, where `PK_i` and `R_i` are
/// the entries `sender - 1` of the public key shares and of the nonce commitments, and `c`,
/// `s` the challenge and share that the node sent.
pub open spec fn share_checks(
    keys: Seq<Seq<u8>>,
    randoms: Seq<Seq<u8>>,
    msg: NodeKeyGenPhaseOneBroadcastMsg,
) -> bool {
    spec_point_sub(
        randoms[msg.sender - 1],
        spec_point_mul(keys[msg.sender - 1], msg.h_new@ % group_order()),
    ) == spec_point_mul(generator_encoding(), msg.s_new@ % group_order())
}

/// Every message passes the check.
pub open spec fn all_share_checks(
    keys: Seq<Seq<u8>>,
    randoms: Seq<Seq<u8>>,
    msgs: Seq<NodeKeyGenPhaseOneBroadcastMsg>,
) -> bool {
    forall|k: int| 0 <= k < msgs.len() ==> #[trigger] share_checks(keys, randoms, msgs[k])
}

/// The check of a message in discrete logarithms, when the public key shares have the
/// logarithms `pk_d` and the nonce commitments `r_d`: `r_d - c * pk_d == s` modulo the group
/// order at the sender's entry.
pub open spec fn dlog_check(
    pk_d: Seq<int>,
    r_d: Seq<int>,
    msg: NodeKeyGenPhaseOneBroadcastMsg,
) -> bool {
    gen_pow(r_d[msg.sender - 1] - pk_d[msg.sender - 1] * (msg.h_new@ % group_order())) == gen_pow(
        (msg.s_new@ % group_order()) as int,
    )
}

/// Every message passes the check in discrete logarithms.
pub open spec fn dlog_checks(
    pk_d: Seq<int>,
    r_d: Seq<int>,
    msgs: Seq<NodeKeyGenPhaseOneBroadcastMsg>,
) -> bool {
    forall|k: int| 0 <= k < msgs.len() ==> #[trigger] dlog_check(pk_d, r_d, msgs[k])
}

proof fn lemma_dlog_checks_take(
    pk_d: Seq<int>,
    r_d: Seq<int>,
    msgs: Seq<NodeKeyGenPhaseOneBroadcastMsg>,
    k: int,
)
    requires
        0 <= k < msgs.len(),
    ensures
        dlog_checks(pk_d, r_d, msgs.take(k + 1)) <==> dlog_checks(pk_d, r_d, msgs.take(k))
            && dlog_check(pk_d, r_d, msgs[k]),
{
    let m1 = msgs.take(k + 1);
    let m0 = msgs.take(k);
    assert(m1[k] == msgs[k]);
    if dlog_checks(pk_d, r_d, m1) {
        assert forall|j: int| 0 <= j < k implies #[trigger] dlog_check(pk_d, r_d, m0[j]) by {
            assert(m1[j] == m0[j]);
        }
    }
    if dlog_checks(pk_d, r_d, m0) && dlog_check(pk_d, r_d, msgs[k]) {
        assert forall|j: int| 0 <= j < k + 1 implies #[trigger] dlog_check(pk_d, r_d, m1[j]) by {
            if j < k {
                assert(m1[j] == m0[j]);
            }
        }
    }
}

/// Every sender names an entry of both commitment vectors.
pub open spec fn senders_in_range(
    msgs: Seq<NodeKeyGenPhaseOneBroadcastMsg>,
    keys_len: nat,
    randoms_len: nat,
) -> bool {
    forall|k: int|
        0 <= k < msgs.len() ==> 1 <= (#[trigger] msgs[k]).sender <= keys_len
            && msgs[k].sender <= randoms_len
}

/// The senders of the first `t + 1` messages, the interpolation points.
pub open spec fn first_senders(msgs: Seq<NodeKeyGenPhaseOneBroadcastMsg>, t: nat) -> Seq<nat> {
    Seq::new(t + 1, |i: int| msgs[i].sender as nat)
}

/// The Lagrange denominators at the first `t + 1` senders do not vanish.
pub open spec fn interpolable(msgs: Seq<NodeKeyGenPhaseOneBroadcastMsg>, t: nat) -> bool {
    forall|i: int|
        0 <= i <= t ==> lagrange_den(
            #[trigger] first_senders(msgs, t)[i],
            first_senders(msgs, t),
        ) != 0
}

/// `sum_{i <= t} s_i * l_i` modulo the group order over the first `t + 1` messages, where
/// `l_i` is the Lagrange coefficient at zero of sender `i` over the first `t + 1` senders.
pub open spec fn combined_s(msgs: Seq<NodeKeyGenPhaseOneBroadcastMsg>, t: nat) -> nat {
    weighted_scalar_sum(
        Seq::new(t + 1, |i: int| msgs[i].s_new@ % group_order()),
        Seq::new(t + 1, |i: int| lagrange_value(msgs[i].sender as nat, first_senders(msgs, t))),
    )
}

impl Proxy {
    /// The proxy from its configuration: id 0, listening on the configured address, with no
    /// nodes registered yet.
    pub fn init(gs_tbk_config: Config) -> (r: Proxy)
        ensures
            r.id == 0,
            r.role@ == "Proxy"@,
            r.address == gs_tbk_config.listen_addr,
            r.threashold_param == gs_tbk_config.threshold_params,
            r.gpk is None,
            r.node_info_vec is None,
            r.participants is None,
    {
        Proxy {
            id: 0,
            role: String::from_str("Proxy"),
            address: gs_tbk_config.listen_addr,
            threashold_param: gs_tbk_config.threshold_params,
            gpk: None,
            node_info_vec: None,
            participants: None,
        }
    }

    /// Setup, first step: numbers the registered nodes `1, 2, ...` in the order of their
    /// messages, keeps the list and broadcasts it. The broadcast is the node list alone: no
    /// tree over the nodes is built or sent, the setup messages of this scheme having none.
    pub fn setup_phase_one(&mut self, node_setup_p2pmsg_vec: Vec<NodeToProxySetupPhaseP2PMsg>) -> (r:
        ProxySetupPhaseBroadcastMsg)
        requires
            node_setup_p2pmsg_vec@.len() < 65535,
        ensures
            numbered(node_setup_p2pmsg_vec@, r.node_info_vec@),
            final(self).node_info_vec matches Some(v) && numbered(node_setup_p2pmsg_vec@, v@),
            *final(self) == (Proxy { node_info_vec: final(self).node_info_vec, ..*old(self) }),
    {
        let mut node_info_vec: Vec<NodeInfo> = Vec::new();
        let mut copy: Vec<NodeInfo> = Vec::new();
        let mut i: u16 = 1;
        let mut k: usize = 0;
        while k < node_setup_p2pmsg_vec.len()
            invariant
                node_setup_p2pmsg_vec@.len() < 65535,
                k <= node_setup_p2pmsg_vec@.len(),
                i == k + 1,
                numbered(node_setup_p2pmsg_vec@.take(k as int), node_info_vec@),
                numbered(node_setup_p2pmsg_vec@.take(k as int), copy@),
            decreases node_setup_p2pmsg_vec@.len() - k,
        {
            let address = node_setup_p2pmsg_vec[k].address.clone();
            node_info_vec.push(NodeInfo { id: i, address: address.clone() });
            copy.push(NodeInfo { id: i, address });
            i = i + 1;
            k += 1;
        }
        assert(node_setup_p2pmsg_vec@.take(node_setup_p2pmsg_vec@.len() as int)
            =~= node_setup_p2pmsg_vec@);
        self.node_info_vec = Some(copy);
        ProxySetupPhaseBroadcastMsg { node_info_vec }
    }

    /// Setup, last step: once every registered node has confirmed, the proxy's finish flag.
    pub fn setup_phase_two(&self, setup_finish_flag_vec: Vec<NodeSetupPhaseFinishFlag>) -> (r:
        ProxySetupPhaseFinishFlag)
        requires
            self.node_info_vec is Some,
            setup_finish_flag_vec@.len() == self.node_info_vec->0@.len(),
        ensures
            r.sender == self.id,
            r.role@ == self.role@,
    {
        ProxySetupPhaseFinishFlag { sender: self.id, role: self.role.clone() }
    }

    /// Upper-case hex encoding of `data`.
    pub fn to_hex(data: &[u8]) -> (res: String)
        ensures
            res@ == upper_hex(data@),
    {
        crate::dch::ch::to_hex(data)
    }

    /// SHA-256 of the UTF-8 bytes of `input` as 64 lower-case hex digits.
    pub fn sha256(input: &str) -> (res: String)
        ensures
            res@ == lower_hex(text_digest(input@)),
    {
        crate::dch::ch::sha256(input)
    }

    /// The Lagrange coefficient at zero of the point `index` over the points `s`.
    pub fn map_share_to_new_params(index: BigNum, s: &[BigNum]) -> (r: Scalar)
        requires
            crate::lagrange::lagrange_den(index@, values(s@)) != 0,
        ensures
            r@ == lagrange_value(index@, values(s@)),
    {
        crate::lagrange::lagrange_coefficient(&index, s)
    }

    /// Whether every node's share passes the check against its public key share and nonce
    /// commitment.
    pub fn check_shares(
        msg_vec: &Vec<NodeKeyGenPhaseOneBroadcastMsg>,
        key_commitment_vec: &Vec<Point>,
        random_commitment_vec: &Vec<Point>,
    ) -> (ok: bool)
        requires
            senders_in_range(
                msg_vec@,
                key_commitment_vec@.len(),
                random_commitment_vec@.len(),
            ),
        ensures
            ok == all_share_checks(
                point_encodings(key_commitment_vec@),
                point_encodings(random_commitment_vec@),
                msg_vec@,
            ),
            forall|pk_d: Seq<int>, r_d: Seq<int>|
                #![trigger dlogs_of(point_encodings(key_commitment_vec@), pk_d), dlogs_of(point_encodings(random_commitment_vec@), r_d)]
                dlogs_of(point_encodings(key_commitment_vec@), pk_d) && dlogs_of(
                    point_encodings(random_commitment_vec@),
                    r_d,
                ) ==> (ok <==> dlog_checks(pk_d, r_d, msg_vec@)),
    {
        let ghost keys = point_encodings(key_commitment_vec@);
        let ghost randoms = point_encodings(random_commitment_vec@);
        let g = Point::generator();
        assert(msg_vec@.take(0) =~= Seq::<NodeKeyGenPhaseOneBroadcastMsg>::empty());
        let mut flag = true;
        let mut k: usize = 0;
        while k < msg_vec.len()
            invariant
                keys == point_encodings(key_commitment_vec@),
                randoms == point_encodings(random_commitment_vec@),
                g@ == generator_encoding(),
                senders_in_range(
                    msg_vec@,
                    key_commitment_vec@.len(),
                    random_commitment_vec@.len(),
                ),
                k <= msg_vec@.len(),
                flag == forall|j: int|
                    0 <= j < k ==> #[trigger] share_checks(keys, randoms, msg_vec@[j]),
                forall|pk_d: Seq<int>, r_d: Seq<int>|
                    #![trigger dlogs_of(keys, pk_d), dlogs_of(randoms, r_d)]
                    dlogs_of(keys, pk_d) && dlogs_of(randoms, r_d) ==> (flag <==> dlog_checks(
                        pk_d,
                        r_d,
                        msg_vec@.take(k as int),
                    )),
            decreases msg_vec@.len() - k,
        {
            let msg = &msg_vec[k];
            assert(1 <= msg_vec@[k as int].sender);
            let idx = (msg.sender - 1) as usize;
            let h = Scalar::from_bignum(&msg.h_new);
            let s = Scalar::from_bignum(&msg.s_new);
            let h_pk = key_commitment_vec[idx].mul(&h);
            let s_new_g = random_commitment_vec[idx].sub(&h_pk);
            let s_new_g_ = g.mul(&s);
            let same = s_new_g.equals(&s_new_g_);
            proof {
                assert(keys[idx as int] == key_commitment_vec@[idx as int]@);
                assert(randoms[idx as int] == random_commitment_vec@[idx as int]@);
                assert(same == share_checks(keys, randoms, msg_vec@[k as int]));
                assert forall|pk_d: Seq<int>, r_d: Seq<int>|
                    #![trigger dlogs_of(keys, pk_d), dlogs_of(randoms, r_d)]
                    dlogs_of(keys, pk_d) && dlogs_of(randoms, r_d) implies ((flag && same)
                    <==> dlog_checks(pk_d, r_d, msg_vec@.take(k + 1))) by {
                    assert(key_commitment_vec@[idx as int]@ == gen_pow(pk_d[idx as int]));
                    assert(random_commitment_vec@[idx as int]@ == gen_pow(r_d[idx as int]));
                    assert(h_pk@ == gen_pow(pk_d[idx as int] * h@));
                    assert(s_new_g@ == gen_pow(r_d[idx as int] - pk_d[idx as int] * h@));
                    assert(s_new_g_@ == gen_pow(1int * s@));
                    assert(same == dlog_check(pk_d, r_d, msg_vec@[k as int]));
                    lemma_dlog_checks_take(pk_d, r_d, msg_vec@, k as int);
                }
            }
            flag = flag && same;
            k += 1;
        }
        assert(msg_vec@.take(msg_vec@.len() as int) =~= msg_vec@);
        flag
    }

    /// Combines the nodes' shares of the new randomness: if every share passes the check
    /// against the node's public key share and nonce commitment (entry `sender - 1` of
    /// `key_commitment_vec` and `random_commitment_vec`), interpolates the shares of the first
    /// `t + 1` messages at zero, `s_total = sum_i s_i * l_i`; else refuses with `InvalidCom`.
    pub fn keygen_get_s(
        &mut self,
        msg_vec: &Vec<NodeKeyGenPhaseOneBroadcastMsg>,
        key_commitment_vec: &Vec<Point>,
        random_commitment_vec: &Vec<Point>,
    ) -> (r: Result<ProxyToNodeGetSTotal, Error>)
        requires
            senders_in_range(
                msg_vec@,
                key_commitment_vec@.len(),
                random_commitment_vec@.len(),
            ),
            all_share_checks(
                point_encodings(key_commitment_vec@),
                point_encodings(random_commitment_vec@),
                msg_vec@,
            ) ==> msg_vec@.len() > old(self).threashold_param.threshold && interpolable(
                msg_vec@,
                old(self).threashold_param.threshold as nat,
            ),
        ensures
            *final(self) == *old(self),
            r is Ok <==> all_share_checks(
                point_encodings(key_commitment_vec@),
                point_encodings(random_commitment_vec@),
                msg_vec@,
            ),
            forall|pk_d: Seq<int>, r_d: Seq<int>|
                #![trigger dlogs_of(point_encodings(key_commitment_vec@), pk_d), dlogs_of(point_encodings(random_commitment_vec@), r_d)]
                dlogs_of(point_encodings(key_commitment_vec@), pk_d) && dlogs_of(
                    point_encodings(random_commitment_vec@),
                    r_d,
                ) ==> (r is Ok <==> dlog_checks(pk_d, r_d, msg_vec@)),
            r is Err ==> r == Err::<ProxyToNodeGetSTotal, Error>(Error::InvalidCom),
            r matches Ok(m) ==> m.s_total@ == combined_s(
                msg_vec@,
                old(self).threashold_param.threshold as nat,
            ),
    {
        let flag = Proxy::check_shares(msg_vec, key_commitment_vec, random_commitment_vec);
        if !flag {
            return Err(Error::InvalidCom);
        }
        let t = self.threashold_param.threshold as usize;
        let ghost tn = self.threashold_param.threshold as nat;
        let mut lagrange_vec: Vec<BigNum> = Vec::new();
        let mut i: usize = 0;
        while i <= t
            invariant
                t == tn,
                t <= 65535,
                msg_vec@.len() > t,
                i <= t + 1,
                lagrange_vec@.len() == i,
                forall|j: int| 0 <= j < i ==> (#[trigger] lagrange_vec@[j])@ == first_senders(msg_vec@, tn)[j],
            decreases t + 1 - i,
        {
            lagrange_vec.push(BigNum::from_u16(msg_vec[i].sender));
            i += 1;
        }
        assert(values(lagrange_vec@) =~= first_senders(msg_vec@, tn));
        let mut s_news: Vec<Scalar> = Vec::new();
        let mut lis: Vec<Scalar> = Vec::new();
        let mut j: usize = 0;
        while j <= t
            invariant
                t == tn,
                t <= 65535,
                msg_vec@.len() > t,
                interpolable(msg_vec@, tn),
                values(lagrange_vec@) == first_senders(msg_vec@, tn),
                j <= t + 1,
                s_news@.len() == j,
                lis@.len() == j,
                forall|k: int| 0 <= k < j ==> (#[trigger] s_news@[k])@ == msg_vec@[k].s_new@ % group_order(),
                forall|k: int|
                    0 <= k < j ==> (#[trigger] lis@[k])@ == lagrange_value(
                        msg_vec@[k].sender as nat,
                        first_senders(msg_vec@, tn),
                    ),
            decreases t + 1 - j,
        {
            let msg = &msg_vec[j];
            assert(first_senders(msg_vec@, tn)[j as int] == msg.sender as nat);
            let li = Proxy::map_share_to_new_params(BigNum::from_u16(msg.sender), lagrange_vec.as_slice());
            s_news.push(Scalar::from_bignum(&msg.s_new));
            lis.push(li);
            j += 1;
        }
        let s_new_total = weighted_scalar(&s_news, &lis);
        proof {
            assert(scalar_values(s_news@).take(lis@.len() as int) =~= Seq::new(
                tn + 1,
                |i: int| msg_vec@[i].s_new@ % group_order(),
            ));
            assert(scalar_values(lis@) =~= Seq::new(
                tn + 1,
                |i: int| lagrange_value(msg_vec@[i].sender as nat, first_senders(msg_vec@, tn)),
            ));
        }
        Ok(ProxyToNodeGetSTotal { s_total: s_new_total.to_bignum() })
    }

    /// Whether the Lagrange denominators at the first `t + 1` senders are all non-zero.
    pub fn interpolable_at(msg_vec: &Vec<NodeKeyGenPhaseOneBroadcastMsg>, t: u16) -> (ok: bool)
        requires
            msg_vec@.len() > t,
        ensures
            ok == interpolable(msg_vec@, t as nat),
    {
        let tu = t as usize;
        let ghost tn = t as nat;
        let mut points: Vec<BigNum> = Vec::new();
        let mut i: usize = 0;
        while i <= tu
            invariant
                tu == tn,
                tu <= 65535,
                msg_vec@.len() > tu,
                i <= tu + 1,
                points@.len() == i,
                forall|j: int| 0 <= j < i ==> (#[trigger] points@[j])@ == first_senders(msg_vec@, tn)[j],
            decreases tu + 1 - i,
        {
            points.push(BigNum::from_u16(msg_vec[i].sender));
            i += 1;
        }
        assert(values(points@) =~= first_senders(msg_vec@, tn));
        let mut ok = true;
        let mut j: usize = 0;
        while j <= tu
            invariant
                tu == tn,
                tu <= 65535,
                msg_vec@.len() > tu,
                values(points@) == first_senders(msg_vec@, tn),
                j <= tu + 1,
                ok == forall|k: int|
                    0 <= k < j ==> lagrange_den(
                        #[trigger] first_senders(msg_vec@, tn)[k],
                        first_senders(msg_vec@, tn),
                    ) != 0,
            decreases tu + 1 - j,
        {
            let x = BigNum::from_u16(msg_vec[j].sender);
            assert(first_senders(msg_vec@, tn)[j as int] == x@);
            let den = crate::lagrange::lagrange_denominator(&x, points.as_slice());
            if den.is_zero() {
                ok = false;
            }
            j += 1;
        }
        ok
    }

    /// Combines the nodes' shares as `keygen_get_s` does, when that is defined: `None` when
    /// every share passes the check but there are no more than `t` messages to interpolate,
    /// or the first `t + 1` senders make a Lagrange denominator vanish.
    pub fn try_keygen_get_s(
        &mut self,
        msg_vec: &Vec<NodeKeyGenPhaseOneBroadcastMsg>,
        key_commitment_vec: &Vec<Point>,
        random_commitment_vec: &Vec<Point>,
    ) -> (r: Option<Result<ProxyToNodeGetSTotal, Error>>)
        requires
            senders_in_range(
                msg_vec@,
                key_commitment_vec@.len(),
                random_commitment_vec@.len(),
            ),
        ensures
            *final(self) == *old(self),
            r is None <==> all_share_checks(
                point_encodings(key_commitment_vec@),
                point_encodings(random_commitment_vec@),
                msg_vec@,
            ) && !(msg_vec@.len() > old(self).threashold_param.threshold && interpolable(
                msg_vec@,
                old(self).threashold_param.threshold as nat,
            )),
            r matches Some(res) ==> {
                &&& (res is Ok <==> all_share_checks(
                    point_encodings(key_commitment_vec@),
                    point_encodings(random_commitment_vec@),
                    msg_vec@,
                ))
                &&& (res is Err ==> res == Err::<ProxyToNodeGetSTotal, Error>(Error::InvalidCom))
                &&& (res matches Ok(m) ==> m.s_total@ == combined_s(
                    msg_vec@,
                    old(self).threashold_param.threshold as nat,
                ))
            },
    {
        let ok = Proxy::check_shares(msg_vec, key_commitment_vec, random_commitment_vec);
        if ok {
            if msg_vec.len() <= self.threashold_param.threshold as usize {
                return None;
            }
            if !Proxy::interpolable_at(msg_vec, self.threashold_param.threshold) {
                return None;
            }
        }
        Some(self.keygen_get_s(msg_vec, key_commitment_vec, random_commitment_vec))
    }
}

/// An honest node's share passes the proxy's check: when its public key share has the
/// logarithm `sk`, its nonce commitment the logarithm `k`, and it sends the challenge `c`
/// with the share `s = k - c * sk` modulo the group order, then `R - c * PK` and `s * G` have
/// the same logarithm.
pub proof fn law_share_check_complete(sk: int, k: int, c: nat)
    requires
        c < group_order(),
    ensures
        gen_pow(k - sk * (c % group_order())) == gen_pow(
            ((k - c * sk) % (group_order() as int)) as int,
        ),
{
    let n = group_order() as int;
    vstd::arithmetic::div_mod::lemma_small_mod(c, n as nat);
    vstd::arithmetic::mul::lemma_mul_is_commutative(sk, c as int);
    vstd::arithmetic::div_mod::lemma_mod_twice(k - c * sk, n);
}

/// Combining the nodes' shares is linear: when node `i` sends `s_i = k_i - c * sk_i` (modulo
/// the group order), the combination `sum_i s_i * l_i` is, modulo the group order,
/// `sum_i k_i * l_i - c * sum_i sk_i * l_i`. With Lagrange coefficients `l_i` these sums
/// interpolate the joint nonce and key, so the combined randomness is the adapted randomness
/// of the joint trapdoor.
pub proof fn law_combined_response(k: Seq<nat>, sk: Seq<nat>, c: nat, ls: Seq<nat>)
    requires
        k.len() == sk.len(),
        k.len() <= ls.len(),
    ensures
        weighted_scalar_sum(
            Seq::new(k.len(), |i: int| ((k[i] - c * sk[i]) % (group_order() as int)) as nat),
            ls,
        ) as int == (weighted_int_sum(as_ints(k), ls) - c * weighted_int_sum(as_ints(sk), ls)) % (
        group_order() as int),
{
    let n = group_order() as int;
    let d = combo(as_ints(k), as_ints(sk), -c);
    let sv = Seq::new(k.len(), |i: int| ((k[i] - c * sk[i]) % n) as nat);
    assert forall|i: int| 0 <= i < k.len() implies #[trigger] d[i] == k[i] - c * sk[i] by {
        vstd::arithmetic::mul::lemma_mul_unary_negation(c as int, sk[i] as int);
    }
    assert(sv.map_values(|v: nat| v as int) =~= reduced_ints(d));
    lemma_weighted_mod(d, ls);
    lemma_weighted_combo(as_ints(k), as_ints(sk), -c, ls);
    vstd::arithmetic::mul::lemma_mul_unary_negation(c as int, weighted_int_sum(as_ints(sk), ls));
}

/// Distributed adaptation keeps the hash: when node `i` sends `s_i = k_i - c * sk_i` (modulo
/// the group order), and the weights `ls` combine the nodes' nonces `k_i` and key shares `sk_i`
/// into the joint nonce `k` and joint key `sk` (as Lagrange coefficients do for shares of a
/// polynomial), then the combined `s_total = sum_i s_i * l_i` opens the hash `h_d * G` under
/// `pk = sk * G` with the randomness point `(h_d + k) * G`: the hash recomputed from it is the
/// hash it started from.
pub proof fn law_distributed_adapt(
    k: Seq<nat>,
    sk: Seq<nat>,
    c: nat,
    ls: Seq<nat>,
    h_d: int,
    k_joint: nat,
    sk_joint: nat,
)
    requires
        k.len() == sk.len(),
        k.len() <= ls.len(),
        weighted_int_sum(as_ints(k), ls) % (group_order() as int) == k_joint % group_order(),
        weighted_int_sum(as_ints(sk), ls) % (group_order() as int) == sk_joint % group_order(),
    ensures
        gen_pow(
            ch_hash_dlog(
                sk_joint as int,
                h_d + k_joint,
                weighted_scalar_sum(
                    Seq::new(k.len(), |i: int| ((k[i] - c * sk[i]) % (group_order() as int)) as nat),
                    ls,
                ),
                c,
            ),
        ) == gen_pow(h_d),
{
    let n = group_order() as int;
    let wk = weighted_int_sum(as_ints(k), ls);
    let wsk = weighted_int_sum(as_ints(sk), ls);
    let s_total = weighted_scalar_sum(
        Seq::new(k.len(), |i: int| ((k[i] - c * sk[i]) % n) as nat),
        ls,
    );
    law_combined_response(k, sk, c, ls);
    assert(s_total == (wk - c * wsk) % n);
    assert((wk - c * wsk) % n == (k_joint - c * sk_joint) % n) by {
        lemma_sub_mod_noop(wk, c * wsk, n);
        lemma_sub_mod_noop(k_joint as int, (c * sk_joint) as int, n);
        lemma_mul_mod_noop_right(c as int, wsk, n);
        lemma_mul_mod_noop_right(c as int, sk_joint as int, n);
    }
    crate::dch::ch::law_adapt_collision(sk_joint, h_d, k_joint, c, s_total as int);
}

/// The shares `p(x_i)` of the polynomial `p` at the points, reduced modulo the group order.
pub open spec fn shares_mod(p: Seq<int>, xs: Seq<nat>) -> Seq<nat> {
    Seq::new(xs.len(), |i: int| (poly_value(p, xs[i] as int) % (group_order() as int)) as nat)
}

/// The Lagrange coefficients at zero of the points.
pub open spec fn lagrange_weights(xs: Seq<nat>) -> Seq<nat> {
    Seq::new(xs.len(), |i: int| lagrange_value(xs[i], xs))
}

/// The nodes' responses `k_i - c * sk_i` modulo the group order.
pub open spec fn responses(k: Seq<nat>, sk: Seq<nat>, c: nat) -> Seq<nat> {
    Seq::new(k.len(), |i: int| ((k[i] - c * sk[i]) % (group_order() as int)) as nat)
}

/// Threshold adaptation keeps the hash: when `t + 1` nodes at the distinct points `xs` hold
/// the shares `k_i = g(x_i)` of a nonce polynomial `g` and `sk_i = f(x_i)` of the key polynomial
/// `f` (each with `t + 1` coefficients), and send the responses `k_i - c * sk_i`, the
/// combination with the Lagrange coefficients opens the hash `h_d * G` under the joint key
/// `f(0) * G` with the randomness point `(h_d + g(0)) * G`.
pub proof fn law_threshold_adapt(g: Seq<int>, f: Seq<int>, xs: Seq<nat>, c: nat, h_d: int)
    requires
        xs.len() >= 1,
        g.len() == xs.len(),
        f.len() == xs.len(),
        distinct(as_ints(xs)),
        pairwise_invertible(as_ints(xs)),
    ensures
        gen_pow(
            ch_hash_dlog(
                f[0] % (group_order() as int),
                h_d + g[0] % (group_order() as int),
                weighted_scalar_sum(
                    responses(shares_mod(g, xs), shares_mod(f, xs), c),
                    lagrange_weights(xs),
                ),
                c,
            ),
        ) == gen_pow(h_d),
{
    let n = group_order() as int;
    let k = shares_mod(g, xs);
    let sk = shares_mod(f, xs);
    let ls = lagrange_weights(xs);
    let yg = Seq::new(xs.len(), |i: int| poly_value(g, xs[i] as int));
    let yf = Seq::new(xs.len(), |i: int| poly_value(f, xs[i] as int));
    law_lagrange_interpolation(g, xs);
    law_lagrange_interpolation(f, xs);
    assert(as_ints(k) =~= reduced_ints(yg));
    assert(as_ints(sk) =~= reduced_ints(yf));
    lemma_weighted_mod(yg, ls);
    lemma_weighted_mod(yf, ls);
    let kj = (g[0] % n) as nat;
    let skj = (f[0] % n) as nat;
    lemma_mod_bound(g[0], n);
    lemma_mod_bound(f[0], n);
    lemma_mod_twice(g[0], n);
    lemma_mod_twice(f[0], n);
    assert(responses(k, sk, c) =~= Seq::new(
        k.len(),
        |i: int| ((k[i] - c * sk[i]) % n) as nat,
    ));
    law_distributed_adapt(k, sk, c, ls, h_d, kj, skj);
}

/// The proxy's aggregate is the interpolation at zero: when the shares `s_i` of the first
/// `t + 1` messages lie, modulo the group order, on a polynomial `f` with `t + 1` coefficients
/// at their senders (distinct, with invertible differences), the Lagrange combination
/// `combined_s` that `keygen_get_s` returns is `f(0)` modulo the group order, whatever the
/// order of the messages and whichever consistent shares were chosen.
pub proof fn law_get_s_interpolates(msgs: Seq<NodeKeyGenPhaseOneBroadcastMsg>, t: nat, f: Seq<int>)
    requires
        msgs.len() > t,
        f.len() == t + 1,
        distinct(as_ints(first_senders(msgs, t))),
        pairwise_invertible(as_ints(first_senders(msgs, t))),
        forall|i: int|
            0 <= i <= t ==> (#[trigger] msgs[i]).s_new@ % group_order() == poly_value(
                f,
                msgs[i].sender as int,
            ) % (group_order() as int),
    ensures
        combined_s(msgs, t) == f[0] % (group_order() as int),
{
    let xs = first_senders(msgs, t);
    let ys = Seq::new(xs.len(), |i: int| poly_value(f, xs[i] as int));
    let ls = Seq::new(xs.len(), |i: int| lagrange_value(xs[i], xs));
    law_lagrange_interpolation(f, xs);
    assert(Seq::new(t + 1, |i: int| msgs[i].s_new@ % group_order()).map_values(|v: nat| v as int)
        =~= reduced_ints(ys));
    assert(Seq::new(t + 1, |i: int| lagrange_value(msgs[i].sender as nat, first_senders(msgs, t)))
        =~= ls);
    lemma_weighted_mod(ys, ls);
}

/// The proxy checks every message, whatever its sender: all checks pass exactly when, for each
/// message with sender `i`, `R_i - (h mod n) * PK_i == (s mod n) * G`, where `PK_i` and `R_i`
/// are entry `i - 1` of the key shares and of the nonce commitments.
pub proof fn law_share_checks_every_message(
    keys: Seq<Seq<u8>>,
    randoms: Seq<Seq<u8>>,
    msgs: Seq<NodeKeyGenPhaseOneBroadcastMsg>,
)
    requires
        senders_in_range(msgs, keys.len(), randoms.len()),
    ensures
        all_share_checks(keys, randoms, msgs) <==> forall|k: int|
            0 <= k < msgs.len() ==> spec_point_sub(
                randoms[(#[trigger] msgs[k]).sender - 1],
                spec_point_mul(keys[msgs[k].sender - 1], msgs[k].h_new@ % group_order()),
            ) == spec_point_mul(generator_encoding(), msgs[k].s_new@ % group_order()),
{
    if all_share_checks(keys, randoms, msgs) {
        assert forall|k: int| 0 <= k < msgs.len() implies spec_point_sub(
            randoms[(#[trigger] msgs[k]).sender - 1],
            spec_point_mul(keys[msgs[k].sender - 1], msgs[k].h_new@ % group_order()),
        ) == spec_point_mul(generator_encoding(), msgs[k].s_new@ % group_order()) by {
            assert(share_checks(keys, randoms, msgs[k]));
        }
    }
}

/// The same in discrete logarithms: with key shares `pk_d[i] * G` and nonce commitments
/// `r_d[i] * G`, all checks pass exactly when every message's `s` has the logarithm
/// `r_d - pk_d * (h mod n)` at its sender's entry, the last sender's included.
pub proof fn law_dlog_checks_every_message(
    pk_d: Seq<int>,
    r_d: Seq<int>,
    msgs: Seq<NodeKeyGenPhaseOneBroadcastMsg>,
)
    requires
        senders_in_range(msgs, pk_d.len(), r_d.len()),
    ensures
        dlog_checks(pk_d, r_d, msgs) <==> forall|k: int|
            0 <= k < msgs.len() ==> gen_pow(
                r_d[(#[trigger] msgs[k]).sender - 1] - pk_d[msgs[k].sender - 1] * (msgs[k].h_new@
                    % group_order()),
            ) == gen_pow((msgs[k].s_new@ % group_order()) as int),
{
    if dlog_checks(pk_d, r_d, msgs) {
        assert forall|k: int| 0 <= k < msgs.len() implies gen_pow(
            r_d[(#[trigger] msgs[k]).sender - 1] - pk_d[msgs[k].sender - 1] * (msgs[k].h_new@
                % group_order()),
        ) == gen_pow((msgs[k].s_new@ % group_order()) as int) by {
            assert(dlog_check(pk_d, r_d, msgs[k]));
        }
    }
}

} // verus!
