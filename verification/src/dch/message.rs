//! Messages between the nodes and the proxy of the distributed chameleon hash.

use vstd::prelude::*;
use crate::group::Point;
use crate::kjg::vss::Vss;
use crate::numbers::BigNum;

verus! {

/// Setup, node to proxy: the node's role and address.
#[derive(Clone, Debug)]
pub struct NodeToProxySetupPhaseP2PMsg {
    pub role: String,
    pub address: String,
}

/// Setup, node to proxy: the node has stored the node list.
#[derive(Clone, Debug)]
pub struct NodeSetupPhaseFinishFlag {
    pub sender: u16,
    pub role: String,
}

/// A node as the proxy registered it: its id and address (no public key).
#[derive(Clone, Debug)]
pub struct NodeInfo {
    pub id: u16,
    pub address: String,
}

/// Setup, proxy to all: the registered nodes.
#[derive(Clone, Debug)]
pub struct ProxySetupPhaseBroadcastMsg {
    pub node_info_vec: Vec<NodeInfo>,
}

/// Setup, proxy to all: setup is over.
#[derive(Clone, Debug)]
pub struct ProxySetupPhaseFinishFlag {
    pub sender: u16,
    pub role: String,
}

/// Adaptation, node to proxy: the node's share `s_new` of the new randomness and the
/// challenge `h_new` it used.
#[derive(Clone, Debug)]
pub struct NodeKeyGenPhaseOneBroadcastMsg {
    pub sender: u16,
    pub role: String,
    pub s_new: BigNum,
    pub h_new: BigNum,
}

/// An encrypted share with its proof.
#[derive(Clone, Debug)]
pub struct EncAndProof {
    pub share_enc: String,
    pub share_proof: String,
}

/// Node to proxy: sender and role.
#[derive(Clone, Debug)]
pub struct NodeToProxyKeyGenPhaseTwoP2PMsg {
    pub sender: u16,
    pub role: String,
}

/// Proxy: start flag.
#[derive(Clone, Debug)]
pub struct ProxyKeyGenPhaseStartFlag {
    pub sender: u16,
    pub role: String,
}

/// Proxy to all: generator and participants.
#[derive(Clone, Debug)]
pub struct ProxyKeyGenPhaseOneBroadcastMsg {
    pub g: Point,
    pub participants: Vec<u16>,
}

/// Proxy to node: an encrypted share sum and the summed VSS.
#[derive(Clone, Debug)]
pub struct ProxyToNodeKeyGenPhaseThreeP2PMsg {
    pub sender: u16,
    pub role: String,
    pub share_enc_sum: String,
    pub vss_scheme_sum: Vss,
}

/// Proxy to all: flag.
#[derive(Clone, Debug)]
pub struct ProxyToNodesKeyGenPhasefiveBroadcastMsg {
    pub sender: u16,
    pub role: String,
}

/// Proxy to nodes: the combined randomness of the adapted hash.
#[derive(Clone, Debug)]
pub struct ProxyToNodeGetSTotal {
    pub s_total: BigNum,
}

/// Messages that the nodes send.
#[derive(Clone, Debug)]
pub enum GSTBKMsg {
    SetupMsg(SetupMsg),
    KeyGenMsg(KeyGenMsg),
}

/// Setup messages that the nodes send.
#[derive(Clone, Debug)]
pub enum SetupMsg {
    NodeToProxySetupPhaseP2PMsg(NodeToProxySetupPhaseP2PMsg),
    NodeSetupPhaseFinishFlag(NodeSetupPhaseFinishFlag),
}

/// Adaptation messages that the nodes send.
#[derive(Clone, Debug)]
pub enum KeyGenMsg {
    NodeKeyGenPhaseOneBroadcastMsg(NodeKeyGenPhaseOneBroadcastMsg),
    NodeToProxyKeyGenPhaseTwoP2PMsg(NodeToProxyKeyGenPhaseTwoP2PMsg),
}

} // verus!
