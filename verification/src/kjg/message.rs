//! Messages of the key generation, between the nodes and the proxy.

use vstd::prelude::*;
use std::collections::HashMap;
use crate::group::Point;
use crate::kjg::vss::Vss;
use crate::kjg::zkp::DlPcProof;

verus! {

/// Phase one, node to all: the node's Pedersen commitment to its secret.
#[derive(Clone, Debug)]
pub struct NodeKeyGenPhaseOneBroadcastMsg {
    pub sender: u16,
    pub role: String,
    pub commit: Point,
}

/// An encrypted share with its proof.
#[derive(Clone, Debug)]
pub struct EncAndProof {
    pub share_enc: String,
    pub share_proof: String,
}

/// Phase two, node to proxy: CL encryptions of the shares for every node, the batch proof
/// that they encrypt the committed shares, and the node's VSS.
#[derive(Clone, Debug)]
pub struct NodeToProxyKeyGenPhaseTwoP2PMsg {
    pub sender: u16,
    pub role: String,
    pub share_enc_map: HashMap<u16, String>,
    pub random_enc_map: HashMap<u16, String>,
    pub enc_proof: String,
    pub vss: Vss,
}

/// Phase four, node to proxy: Feldman commitments `G * a_j` of the node's secret coefficients
/// and a proof that they match its Pedersen commitments.
#[derive(Clone, Debug)]
pub struct NodeToProxyKeyGenPhaseFourP2PMsg {
    pub sender: u16,
    pub role: String,
    pub s_coefficients_log: Vec<Point>,
    pub dlog_proof: DlPcProof,
}

/// Setup, node to proxy: role, CL public key and address.
#[derive(Clone, Debug)]
pub struct NodeToProxySetupPhaseP2PMsg {
    pub role: String,
    pub cl_pk: String,
    pub address: String,
}

/// Setup, node to proxy: the node has stored the node list.
#[derive(Clone, Debug)]
pub struct NodeSetupPhaseFinishFlag {
    pub sender: u16,
    pub role: String,
}

/// A node as the proxy registered it.
#[derive(Clone, Debug)]
pub struct NodeInfo {
    pub id: u16,
    pub address: String,
    pub cl_pk: String,
}

/// Setup, proxy to all: the registered nodes.
#[derive(Clone, Debug)]
pub struct ProxySetupPhaseBroadcastMsg {
    pub node_info_vec: Vec<NodeInfo>,
}

/// Setup, proxy to all: setup is over.
#[derive(Clone, Debug)]
pub struct ProxySetupPhaseFinishFlag {
    pub sender: u16,
    pub role: String,
}

/// Key generation, proxy: start flag.
#[derive(Clone, Debug)]
pub struct ProxyKeyGenPhaseStartFlag {
    pub sender: u16,
    pub role: String,
}

/// Key generation, proxy to all: generator and participants.
#[derive(Clone, Debug)]
pub struct ProxyKeyGenPhaseOneBroadcastMsg {
    pub g: Point,
    pub participants: Vec<u16>,
}

/// Phase three, proxy to node: the CL-encrypted sums of the node's shares, and the summed VSS.
#[derive(Clone, Debug)]
pub struct ProxyToNodeKeyGenPhaseThreeP2PMsg {
    pub sender: u16,
    pub role: String,
    pub share_enc_sum: String,
    pub random_enc_sum: String,
    pub vss_scheme_sum: Vss,
}

/// Phase five, proxy to all: the summed Feldman commitments of the joint polynomial.
#[derive(Clone, Debug)]
pub struct ProxyToNodeKeyGenPhaseFiveP2PMsg {
    pub total_s_coefficients_log: Vec<Point>,
}

/// Phase five, proxy to all: flag.
#[derive(Clone, Debug)]
pub struct ProxyToNodesKeyGenPhasefiveBroadcastMsg {
    pub sender: u16,
    pub role: String,
}

/// Messages that the proxy sends.
#[derive(Clone, Debug)]
pub enum GSTBKMsg {
    SetupMsg(SetupMsg),
    KeyGenMsg(KeyGenMsg),
}

/// Setup messages that the proxy sends.
#[derive(Clone, Debug)]
pub enum SetupMsg {
    ProxySetupPhaseBroadcastMsg(ProxySetupPhaseBroadcastMsg),
    ProxySetupPhaseFinishFlag(ProxySetupPhaseFinishFlag),
}

/// Key-generation messages tagged with the key they belong to.
#[derive(Clone, Debug)]
pub enum KeyGenMSKFlag {
    GammaA(KeyGenMsg),
    GammaB(KeyGenMsg),
    GammaO(KeyGenMsg),
    GammaC(KeyGenMsg),
}

/// Key-generation messages that the proxy sends.
#[derive(Clone, Debug)]
pub enum KeyGenMsg {
    ProxyToNodeKeyGenPhaseThreeP2PMsg(ProxyToNodeKeyGenPhaseThreeP2PMsg),
    ProxyToNodeKeyGenPhaseFiveP2PMsg(ProxyToNodeKeyGenPhaseFiveP2PMsg),
}

} // verus!
