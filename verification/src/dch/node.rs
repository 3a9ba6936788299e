//! A node of the distributed chameleon hash: it registers with the proxy, contributes its
//! share of the adapted randomness and recomputes the hash from the combined randomness.

use vstd::prelude::*;
use vstd::string::*;
use crate::config::Config;
use crate::dch::ch::{ch_hash, ch_hash_dlog, challenge, challenge_of, generate_hash};
use crate::dch::message::{
    NodeInfo, NodeKeyGenPhaseOneBroadcastMsg, NodeSetupPhaseFinishFlag,
    NodeToProxySetupPhaseP2PMsg, ProxySetupPhaseBroadcastMsg, ProxyToNodeGetSTotal,
};
use crate::digest::text_digest;
use crate::field::{group_order, Scalar};
use crate::group::{gen_pow, spec_point_add, zero_encoding, Point};
use crate::hex::{hex_value, is_hex_text, lower_hex, upper_hex};
use crate::kjg::params::ThreasholdParam;
use crate::lagrange::{lagrange_value, values};
use crate::numbers::BigNum;

verus! {

/// A node's state.
#[derive(Clone, Debug)]
pub struct Node {
    pub id: Option<u16>,
    pub role: String,
    pub address: String,
    pub listen_addr: String,
    pub proxy_address: String,
    pub threashold_param: ThreasholdParam,
    pub pk: Point,
    pub r_new: Point,
    pub h_new: Scalar,
    pub node_info_vec: Option<Vec<NodeInfo>>,
}

/// The id that the node list assigns to `address`: that of the last entry with this address,
/// or `prev` when none has it.
pub open spec fn assigned_id(infos: Seq<NodeInfo>, address: Seq<char>, prev: Option<u16>) -> Option<
    u16,
>
    decreases infos.len(),
{
    if infos.len() == 0 {
        prev
    } else if infos.last().address@ == address {
        Some(infos.last().id)
    } else {
        assigned_id(infos.drop_last(), address, prev)
    }
}

/// The message that the nodes adapt the hash to.
pub open spec fn adapted_message() -> Seq<char> {
    "123"@
}

impl Node {
    /// A node from its configuration, not yet registered: it listens on, and announces, the
    /// configured listening address. No CL key pair is made here: a chameleon-hash node holds
    /// none (its state has no field for one).
    pub fn init(gs_tbk_config: Config) -> (r: Node)
        ensures
            r.id is None,
            r.role@ == "Group Manager Node"@,
            r.address@ == gs_tbk_config.listen_addr@,
            r.listen_addr == gs_tbk_config.listen_addr,
            r.proxy_address == gs_tbk_config.proxy_addr,
            r.threashold_param == gs_tbk_config.threshold_params,
            r.pk@ == zero_encoding(),
            r.r_new@ == zero_encoding(),
            r.h_new@ == 0,
            r.node_info_vec is None,
    {
        Node {
            id: None,
            role: String::from_str("Group Manager Node"),
            address: gs_tbk_config.listen_addr.clone(),
            listen_addr: gs_tbk_config.listen_addr,
            proxy_address: gs_tbk_config.proxy_addr,
            threashold_param: gs_tbk_config.threshold_params,
            pk: Point::zero(),
            r_new: Point::zero(),
            h_new: Scalar::zero(),
            node_info_vec: None,
        }
    }

    /// Setup, first step: the node's role and address for the proxy. The message carries no
    /// public key: the setup message of this scheme has no field for one.
    pub fn setup_phase_one(&self) -> (r: NodeToProxySetupPhaseP2PMsg)
        ensures
            r.role@ == self.role@,
            r.address@ == self.address@,
    {
        NodeToProxySetupPhaseP2PMsg { role: self.role.clone(), address: self.address.clone() }
    }

    /// Setup, second step: takes the id that the node list assigns to the node's address and
    /// stores the list. The list holds each manager's id and address; it holds no public
    /// keys, which the node records of this scheme do not carry.
    pub fn setup_phase_two(&mut self, msg: ProxySetupPhaseBroadcastMsg) -> (r:
        NodeSetupPhaseFinishFlag)
        requires
            assigned_id(msg.node_info_vec@, old(self).address@, old(self).id) is Some,
        ensures
            final(self).id == assigned_id(msg.node_info_vec@, old(self).address@, old(self).id),
            final(self).node_info_vec == Some(msg.node_info_vec),
            *final(self) == (Node {
                id: final(self).id,
                node_info_vec: final(self).node_info_vec,
                ..*old(self)
            }),
            r.sender == final(self).id->0,
            r.role@ == old(self).role@,
    {
        let mut i: usize = 0;
        while i < msg.node_info_vec.len()
            invariant
                i <= msg.node_info_vec@.len(),
                self.address == old(self).address,
                *self == (Node { id: self.id, ..*old(self) }),
                self.id == assigned_id(msg.node_info_vec@.take(i as int), old(self).address@, old(self).id),
            decreases msg.node_info_vec@.len() - i,
        {
            assert(msg.node_info_vec@.take(i + 1).drop_last() =~= msg.node_info_vec@.take(i as int));
            if msg.node_info_vec[i].address == self.address {
                self.id = Some(msg.node_info_vec[i].id);
            }
            i += 1;
        }
        assert(msg.node_info_vec@.take(msg.node_info_vec@.len() as int) =~= msg.node_info_vec@);
        self.node_info_vec = Some(msg.node_info_vec);
        let sender = match self.id {
            Some(v) => v,
            None => 0,
        };
        NodeSetupPhaseFinishFlag { sender, role: self.role.clone() }
    }

    /// Adaptation, node's share: from the key pair `(pk, sk)`, the nonce pair
    /// `(random_point, random)` and the current hash `hash`, sets the new randomness point
    /// `R = hash + random_point` and the challenge `c` of the adapted message and `R`, and
    /// sends the share `s = random - c * sk` of the new randomness with `c`.
    /// `sk_hex` and `random_hex` are the secret values as hex texts.
    pub fn keygen_phase_one(
        &mut self,
        pk: Point,
        random_point: Point,
        sk_hex: &str,
        random_hex: &str,
        hash: Point,
    ) -> (m: NodeKeyGenPhaseOneBroadcastMsg)
        requires
            old(self).id is Some,
            sk_hex@.len() > 0,
            is_hex_text(sk_hex@),
            random_hex@.len() > 0,
            is_hex_text(random_hex@),
        ensures
            final(self).pk == pk,
            final(self).r_new@ == spec_point_add(hash@, random_point@),
            final(self).h_new@ == challenge(adapted_message(), final(self).r_new@),
            *final(self) == (Node {
                pk: final(self).pk,
                r_new: final(self).r_new,
                h_new: final(self).h_new,
                ..*old(self)
            }),
            m.sender == old(self).id->0,
            m.role@ == old(self).role@,
            m.h_new@ == final(self).h_new@,
            m.s_new@ == (hex_value(random_hex@) % group_order() - final(self).h_new@ * (
            hex_value(sk_hex@) % group_order())) % (group_order() as int),
            forall|h_d: int, k_d: int|
                #![trigger gen_pow(h_d), gen_pow(k_d)]
                hash@ == gen_pow(h_d) && random_point@ == gen_pow(k_d) ==> final(self).r_new@
                    == gen_pow(h_d + k_d),
    {
        self.pk = pk;
        let sk = Scalar::from_bignum(&BigNum::from_hex(sk_hex));
        let k = Scalar::from_bignum(&BigNum::from_hex(random_hex));
        let r_new = hash.add(&random_point);
        self.r_new = r_new;
        let message = String::from_str("123");
        let hash_new = challenge_of(&message, &r_new);
        let c_sk = hash_new.mul(&sk);
        let s_new = k.sub(&c_sk);
        proof {
            use_type_invariant(&k);
            use_type_invariant(&c_sk);
            let n = group_order() as int;
            assert((k@ - c_sk@) % n == (k@ - hash_new@ * sk@) % n) by {
                vstd::arithmetic::div_mod::lemma_sub_mod_noop(k@ as int, c_sk@ as int, n);
                vstd::arithmetic::div_mod::lemma_small_mod(c_sk@, n as nat);
                vstd::arithmetic::div_mod::lemma_small_mod(k@, n as nat);
                vstd::arithmetic::div_mod::lemma_sub_mod_noop(k@ as int, (hash_new@ * sk@) as int, n);
                vstd::arithmetic::div_mod::lemma_mod_twice((hash_new@ * sk@) as int, n);
            }
        }
        self.h_new = hash_new;
        let sender = match self.id {
            Some(v) => v,
            None => 0,
        };
        NodeKeyGenPhaseOneBroadcastMsg {
            sender,
            role: self.role.clone(),
            s_new: s_new.to_bignum(),
            h_new: hash_new.to_bignum(),
        }
    }

    /// Adaptation, last step: the hash recomputed from the new randomness `(R, s_total)` for
    /// the adapted message, `R - (c * pk + s_total * G)`; with a correctly combined
    /// `s_total` it is the hash the node started from.
    pub fn keygen_phase_two(&mut self, msg: ProxyToNodeGetSTotal) -> (h: Point)
        ensures
            *final(self) == *old(self),
            h@ == ch_hash(
                old(self).pk@,
                old(self).r_new@,
                msg.s_total@ % group_order(),
                adapted_message(),
            ),
            forall|pk_d: int, r_d: int|
                #![trigger gen_pow(pk_d), gen_pow(r_d)]
                old(self).pk@ == gen_pow(pk_d) && old(self).r_new@ == gen_pow(r_d) ==> h@
                    == gen_pow(
                    ch_hash_dlog(
                        pk_d,
                        r_d,
                        msg.s_total@ % group_order(),
                        challenge(adapted_message(), old(self).r_new@),
                    ),
                ),
    {
        let s_total = Scalar::from_bignum(&msg.s_total);
        generate_hash(self.pk, self.r_new, s_total, String::from_str("123"))
    }

    /// Upper-case hex encoding of `data`.
    pub fn to_hex(data: &[u8]) -> (res: String)
        ensures
            res@ == upper_hex(data@),
    {
        crate::dch::ch::to_hex(data)
    }

    /// SHA-256 of the UTF-8 bytes of `input` as 64 lower-case hex digits.
    pub fn sha256(input: &str) -> (res: String)
        ensures
            res@ == lower_hex(text_digest(input@)),
    {
        crate::dch::ch::sha256(input)
    }

    /// The Lagrange coefficient at zero of the point `index` over the points `s`.
    pub fn map_share_to_new_params(index: BigNum, s: &[BigNum]) -> (r: Scalar)
        requires
            crate::lagrange::lagrange_den(index@, values(s@)) != 0,
        ensures
            r@ == lagrange_value(index@, values(s@)),
    {
        crate::lagrange::lagrange_coefficient(&index, s)
    }
}

} // verus!
