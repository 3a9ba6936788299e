//! Setup of the key generation: the nodes register with the proxy, which numbers them.

use vstd::prelude::*;
use vstd::string::*;
use std::collections::HashMap;
use crate::config::Config;
use crate::field::Scalar;
use crate::group::{zero_encoding, Point};
use crate::kjg::message::{
    NodeInfo, NodeSetupPhaseFinishFlag, NodeToProxySetupPhaseP2PMsg, ProxySetupPhaseBroadcastMsg,
    ProxySetupPhaseFinishFlag,
};
use crate::kjg::node::Node;
use crate::kjg::params::CLKeypair;
use crate::kjg::proxy::Proxy;

verus! {

broadcast use vstd::std_specs::hash::group_hash_axioms;

/// The id that the node list assigns to `address`: that of the last entry with this address,
/// or `prev` when none has it.
pub open spec fn assigned_id(infos: Seq<NodeInfo>, address: Seq<char>, prev: Option<u16>) -> Option<
    u16,
>
    decreases infos.len(),
{
    if infos.len() == 0 {
        prev
    } else if infos.last().address@ == address {
        Some(infos.last().id)
    } else {
        assigned_id(infos.drop_last(), address, prev)
    }
}

/// The node list that gives the `k`-th registration the id `k + 1`, with its address and CL
/// public key.
pub open spec fn numbered(msgs: Seq<NodeToProxySetupPhaseP2PMsg>, infos: Seq<NodeInfo>) -> bool {
    &&& infos.len() == msgs.len()
    &&& forall|k: int|
        0 <= k < msgs.len() ==> (#[trigger] infos[k]).id == k + 1 && infos[k].address@
            == msgs[k].address@ && infos[k].cl_pk@ == msgs[k].cl_pk@
}

impl Node {
    /// A node from its configuration and CL key pair, not yet registered, with no key
    /// material yet.
    pub fn init(gs_tbk_config: Config, cl_keypair: CLKeypair) -> (r: Node)
        ensures
            r.id is None,
            r.role@ == "Group Manager Node"@,
            r.address@ == gs_tbk_config.listen_addr@,
            r.listen_addr == gs_tbk_config.listen_addr,
            r.proxy_address == gs_tbk_config.proxy_addr,
            r.threashold_param == gs_tbk_config.threshold_params,
            r.cl_keypair == cl_keypair,
            r.secret@ == 0,
            r.random@ == 0,
            r.sk@ == 0,
            r.commit@ == zero_encoding(),
            r.commit_map@ == Map::<u16, Point>::empty(),
            r.commitments@.len() == 0,
            r.secret_coefficients@.len() == 0,
            r.random_coefficients@.len() == 0,
            r.node_info_vec is None,
    {
        Node {
            id: None,
            role: String::from_str("Group Manager Node"),
            address: gs_tbk_config.listen_addr.clone(),
            listen_addr: gs_tbk_config.listen_addr,
            proxy_address: gs_tbk_config.proxy_addr,
            threashold_param: gs_tbk_config.threshold_params,
            cl_keypair,
            secret: Scalar::zero(),
            random: Scalar::zero(),
            commit: Point::zero(),
            commit_map: HashMap::new(),
            commitments: Vec::new(),
            secret_coefficients: Vec::new(),
            random_coefficients: Vec::new(),
            sk: Scalar::zero(),
            node_info_vec: None,
        }
    }

    /// Setup, first step: the node's role, CL public key and address for the proxy.
    pub fn setup_phase_one(&self) -> (r: NodeToProxySetupPhaseP2PMsg)
        ensures
            r.role@ == self.role@,
            r.cl_pk@ == self.cl_keypair.pk@,
            r.address@ == self.address@,
    {
        NodeToProxySetupPhaseP2PMsg {
            role: self.role.clone(),
            cl_pk: self.cl_keypair.pk.clone(),
            address: self.address.clone(),
        }
    }

    /// Setup, second step: takes the id that the node list assigns to the node's address and
    /// stores the list.
    pub fn setup_phase_two(&mut self, msg: ProxySetupPhaseBroadcastMsg) -> (r:
        NodeSetupPhaseFinishFlag)
        requires
            assigned_id(msg.node_info_vec@, old(self).address@, old(self).id) is Some,
        ensures
            final(self).id == assigned_id(msg.node_info_vec@, old(self).address@, old(self).id),
            final(self).node_info_vec == Some(msg.node_info_vec),
            *final(self) == (Node {
                id: final(self).id,
                node_info_vec: final(self).node_info_vec,
                ..*old(self)
            }),
            r.sender == final(self).id->0,
            r.role@ == old(self).role@,
    {
        let mut i: usize = 0;
        while i < msg.node_info_vec.len()
            invariant
                i <= msg.node_info_vec@.len(),
                *self == (Node { id: self.id, ..*old(self) }),
                self.id == assigned_id(msg.node_info_vec@.take(i as int), old(self).address@, old(self).id),
            decreases msg.node_info_vec@.len() - i,
        {
            assert(msg.node_info_vec@.take(i + 1).drop_last() =~= msg.node_info_vec@.take(i as int));
            if msg.node_info_vec[i].address == self.address {
                self.id = Some(msg.node_info_vec[i].id);
            }
            i += 1;
        }
        assert(msg.node_info_vec@.take(msg.node_info_vec@.len() as int) =~= msg.node_info_vec@);
        self.node_info_vec = Some(msg.node_info_vec);
        let sender = match self.id {
            Some(v) => v,
            None => 0,
        };
        NodeSetupPhaseFinishFlag { sender, role: self.role.clone() }
    }
}

impl Proxy {
    /// The proxy from its configuration: id 0, listening on the configured address, with no
    /// nodes registered and no commitments recorded yet.
    pub fn init(gs_tbk_config: Config) -> (r: Proxy)
        ensures
            r.id == 0,
            r.role@ == "Proxy"@,
            r.address == gs_tbk_config.listen_addr,
            r.threashold_param == gs_tbk_config.threshold_params,
            r.gpk is None,
            r.node_info_vec is None,
            r.participants is None,
            r.commitments_map is None,
    {
        Proxy {
            id: 0,
            role: String::from_str("Proxy"),
            address: gs_tbk_config.listen_addr,
            threashold_param: gs_tbk_config.threshold_params,
            gpk: None,
            node_info_vec: None,
            participants: None,
            commitments_map: None,
        }
    }

    /// Setup, first step: numbers the registered nodes `1, 2, ...` in the order of their
    /// messages, keeps the list and broadcasts it.
    pub fn setup_phase_one(&mut self, node_setup_p2pmsg_vec: Vec<NodeToProxySetupPhaseP2PMsg>) -> (r:
        ProxySetupPhaseBroadcastMsg)
        requires
            node_setup_p2pmsg_vec@.len() < 65535,
        ensures
            numbered(node_setup_p2pmsg_vec@, r.node_info_vec@),
            final(self).node_info_vec matches Some(v) && numbered(node_setup_p2pmsg_vec@, v@),
            *final(self) == (Proxy { node_info_vec: final(self).node_info_vec, ..*old(self) }),
    {
        let mut node_info_vec: Vec<NodeInfo> = Vec::new();
        let mut copy: Vec<NodeInfo> = Vec::new();
        let mut i: u16 = 1;
        let mut k: usize = 0;
        while k < node_setup_p2pmsg_vec.len()
            invariant
                node_setup_p2pmsg_vec@.len() < 65535,
                k <= node_setup_p2pmsg_vec@.len(),
                i == k + 1,
                numbered(node_setup_p2pmsg_vec@.take(k as int), node_info_vec@),
                numbered(node_setup_p2pmsg_vec@.take(k as int), copy@),
            decreases node_setup_p2pmsg_vec@.len() - k,
        {
            let address = node_setup_p2pmsg_vec[k].address.clone();
            let cl_pk = node_setup_p2pmsg_vec[k].cl_pk.clone();
            node_info_vec.push(NodeInfo { id: i, address: address.clone(), cl_pk: cl_pk.clone() });
            copy.push(NodeInfo { id: i, address, cl_pk });
            i = i + 1;
            k += 1;
        }
        assert(node_setup_p2pmsg_vec@.take(node_setup_p2pmsg_vec@.len() as int)
            =~= node_setup_p2pmsg_vec@);
        self.node_info_vec = Some(copy);
        ProxySetupPhaseBroadcastMsg { node_info_vec }
    }

    /// Setup, last step: once every registered node has confirmed, the proxy's finish flag.
    pub fn setup_phase_two(&self, setup_finish_flag_vec: Vec<NodeSetupPhaseFinishFlag>) -> (r:
        ProxySetupPhaseFinishFlag)
        requires
            self.node_info_vec is Some,
            setup_finish_flag_vec@.len() == self.node_info_vec->0@.len(),
        ensures
            r.sender == self.id,
            r.role@ == self.role@,
    {
        ProxySetupPhaseFinishFlag { sender: self.id, role: self.role.clone() }
    }
}

} // verus!
