use std::collections::HashMap;

use num_bigint::BigUint;

use gs_tbk::config::Config;
use gs_tbk::dch::ch::{generate_hash, verify};
use gs_tbk::dch::node::Node as ChNode;
use gs_tbk::dch::proxy::Proxy as ChProxy;
use gs_tbk::error::Error;
use gs_tbk::field::Scalar;
use gs_tbk::group::Point;
use gs_tbk::hex::encode_lower;
use gs_tbk::kjg::message::{NodeInfo, NodeToProxyKeyGenPhaseTwoP2PMsg, NodeToProxySetupPhaseP2PMsg};
use gs_tbk::kjg::node::{KeyShare, Node};
use gs_tbk::kjg::params::{CLKeypair, ThreasholdParam};
use gs_tbk::kjg::proxy::Proxy;

const N: u16 = 3;
const T: u16 = 1;

fn params() -> ThreasholdParam {
    ThreasholdParam { threshold: T, share_counts: N }
}

fn infos() -> Vec<NodeInfo> {
    (1..=N)
        .map(|i| NodeInfo {
            id: i,
            address: format!("127.0.0.1:5000{}", i),
            cl_pk: format!("cl-pk-{}", i),
        })
        .collect()
}

fn new_node(i: u16) -> Node {
    Node {
        id: Some(i),
        role: "Group Manager Node".to_string(),
        address: format!("127.0.0.1:5000{}", i),
        listen_addr: format!("127.0.0.1:5000{}", i),
        proxy_address: "127.0.0.1:50000".to_string(),
        threashold_param: params(),
        cl_keypair: CLKeypair { sk: format!("cl-sk-{}", i), pk: format!("cl-pk-{}", i) },
        secret: Scalar::zero(),
        random: Scalar::zero(),
        commit: Point::zero(),
        commit_map: HashMap::new(),
        commitments: Vec::new(),
        secret_coefficients: Vec::new(),
        random_coefficients: Vec::new(),
        sk: Scalar::zero(),
        node_info_vec: Some(infos()),
    }
}

fn new_proxy() -> Proxy {
    Proxy {
        id: 0,
        role: "Proxy".to_string(),
        address: "127.0.0.1:50000".to_string(),
        threashold_param: params(),
        gpk: None,
        node_info_vec: Some(infos()),
        participants: None,
        commitments_map: None,
    }
}

/// The sum of decimal texts (the additive homomorphism that the CL sums stand for here:
/// the texts travel unencrypted in these runs).
fn decimal_sum(texts: &[String]) -> String {
    let mut acc = BigUint::from(0u32);
    for t in texts {
        acc += t.parse::<BigUint>().unwrap();
    }
    acc.to_string()
}

/// The outcome of an in-process run of the key generation.
struct Run {
    nodes: Vec<Node>,
    keys: Vec<KeyShare>,
    phase_two: Vec<NodeToProxyKeyGenPhaseTwoP2PMsg>,
}

/// Runs the six phases among `N` nodes and the proxy, with the ciphertexts replaced by the
/// plaintext decimal shares.
fn run_key_generation() -> Run {
    let mut nodes: Vec<Node> = (1..=N).map(new_node).collect();
    let mut proxy = new_proxy();

    let phase_one: Vec<_> = nodes.iter_mut().map(|n| n.keygen_phase_one()).collect();
    for (k, m) in phase_one.iter().enumerate() {
        assert_eq!(m.sender, (k + 1) as u16);
        let expected = Point::generator()
            .mul(&nodes[k].secret)
            .add(&Point::base_point2().mul(&nodes[k].random));
        assert!(m.commit.equals(&expected));
    }

    let mut phase_two = Vec::new();
    for node in nodes.iter_mut() {
        let deal = node.keygen_phase_two(&phase_one);
        assert_eq!(deal.shares.len(), N as usize);
        assert_eq!(node.commit_map.len(), N as usize);
        assert_eq!(node.secret_coefficients.len(), (T + 1) as usize);
        let encs: Vec<(String, String)> =
            deal.shares.iter().map(|s| (s.share.clone(), s.random.clone())).collect();
        let (statement, _st, _rt) = node.keygen_phase_two_statement(&encs);
        let msg = node.keygen_phase_two_msg(&encs, "batch-proof".to_string()).unwrap();
        let recomputed = proxy.keygen_phase_three_statement(&msg);
        assert_eq!(recomputed.pc, statement.pc);
        assert_eq!(recomputed.h, statement.h);
        assert_eq!(recomputed.t_total, statement.t_total);
        assert_eq!(recomputed.t_vec, statement.t_vec);
        assert_eq!(recomputed.pk_vec, "cl-pk-1;cl-pk-2;cl-pk-3");
        phase_two.push(msg);
    }

    let enc_sums: Vec<(String, String)> = infos()
        .iter()
        .map(|info| {
            let s: Vec<String> =
                phase_two.iter().map(|m| m.share_enc_map[&info.id].clone()).collect();
            let r: Vec<String> =
                phase_two.iter().map(|m| m.random_enc_map[&info.id].clone()).collect();
            (decimal_sum(&s), decimal_sum(&r))
        })
        .collect();
    let verified = vec![true; N as usize];
    let phase_three = proxy.keygen_phase_three(phase_two.clone(), &verified, &enc_sums).unwrap();
    assert_eq!(phase_three.len(), N as usize);

    let mut phase_four = Vec::new();
    for node in nodes.iter_mut() {
        let msg = phase_three[&node.id.unwrap()].clone();
        let share = msg.share_enc_sum.clone();
        let random = msg.random_enc_sum.clone();
        phase_four.push(node.keygen_phase_four(msg, share, random).unwrap());
    }

    let phase_five = proxy.keygen_phase_five(phase_four).unwrap();
    assert_eq!(phase_five.total_s_coefficients_log.len(), (T + 1) as usize);

    let keys: Vec<KeyShare> =
        nodes.iter_mut().map(|n| n.keygen_phase_six(phase_five.clone()).unwrap()).collect();
    Run { nodes, keys, phase_two }
}

#[test]
fn node1_test() {
    let run = run_key_generation();
    let node1 = &run.nodes[0];
    let key1 = &run.keys[0];
    // the joint public key is G times the sum of the nodes' secrets
    let mut joint = Scalar::zero();
    for n in &run.nodes {
        joint = joint.add(&n.secret);
    }
    assert!(key1.pk.equals(&Point::generator().mul(&joint)));
    // node 1 kept its key share and its public key share is G times it
    assert!(key1.sk.equals(&node1.sk));
    assert_eq!(key1.pk_shares.len(), N as usize);
    assert!(key1.pk_shares[0].equals(&Point::generator().mul(&node1.sk)));
    // every node sees the same public key and public key shares
    for k in &run.keys {
        assert!(k.pk.equals(&key1.pk));
        for i in 0..N as usize {
            assert!(k.pk_shares[i].equals(&key1.pk_shares[i]));
        }
    }
    // a share that does not match the summed commitments is refused
    let mut tampered = run.nodes[1].clone();
    tampered.sk = tampered.sk.add(&Scalar::from_u16(1));
    let total = run.phase_two[0].vss.commitments.clone();
    let msg = gs_tbk::kjg::message::ProxyToNodeKeyGenPhaseFiveP2PMsg {
        total_s_coefficients_log: total,
    };
    assert_eq!(tampered.keygen_phase_six(msg).unwrap_err(), Error::InvalidSS);
}

#[test]
fn proxy_node_test() {
    // key generation, seen from the proxy: shares and commitments combine into a working key
    let run = run_key_generation();
    let pk = run.keys[0].pk;
    let pk_shares = run.keys[0].pk_shares.clone();

    // the chameleon hash: setup of nodes and proxy
    let mut ch_nodes: Vec<ChNode> = (1..=N)
        .map(|i| {
            ChNode::init(Config {
                threshold_params: params(),
                proxy_addr: "127.0.0.1:50000".to_string(),
                node_addr: format!("127.0.0.1:5000{}", i),
                listen_addr: format!("127.0.0.1:5000{}", i),
            })
        })
        .collect();
    let mut ch_proxy = ChProxy::init(Config {
        threshold_params: params(),
        proxy_addr: "127.0.0.1:50000".to_string(),
        node_addr: "127.0.0.1:50000".to_string(),
        listen_addr: "127.0.0.1:50000".to_string(),
    });
    let registrations: Vec<_> = ch_nodes.iter().map(|n| n.setup_phase_one()).collect();
    let broadcast = ch_proxy.setup_phase_one(registrations);
    let flags: Vec<_> = ch_nodes.iter_mut().map(|n| n.setup_phase_two(broadcast.clone())).collect();
    for (k, f) in flags.iter().enumerate() {
        assert_eq!(f.sender, (k + 1) as u16);
    }
    let finish = ch_proxy.setup_phase_two(flags);
    assert_eq!(finish.sender, 0);
    assert_eq!(finish.role, "Proxy");

    // a chameleon hash under the joint key
    let r = Point::generator().mul(&Scalar::random());
    let s = Scalar::random();
    let hash = generate_hash(pk, r, s, "12345".to_string());
    assert!(verify(pk, r, s, "12345".to_string(), hash));

    // the nodes adapt it to "123" with their key shares (read as the key file holds them)
    let msgs: Vec<_> = ch_nodes
        .iter_mut()
        .zip(run.keys.iter())
        .map(|(n, k)| {
            let sk_hex = encode_lower(&k.sk.to_bytes());
            n.keygen_phase_one(pk, pk, &sk_hex, &sk_hex, hash)
        })
        .collect();
    let s_total = ch_proxy.keygen_get_s(&msgs, &pk_shares, &pk_shares).unwrap();
    for n in ch_nodes.iter_mut() {
        let adapted = n.keygen_phase_two(s_total.clone());
        assert!(adapted.equals(&hash));
        let s_new = Scalar::from_bignum(&s_total.s_total);
        assert!(verify(pk, n.r_new, s_new, "123".to_string(), hash));
    }

    // a share that does not match its commitments is refused
    let mut bad = msgs.clone();
    bad[1].s_new = bad[1].s_new.add(&gs_tbk::numbers::BigNum::from_u16(1));
    assert_eq!(
        ch_proxy.keygen_get_s(&bad, &pk_shares, &pk_shares).unwrap_err(),
        Error::InvalidCom
    );
}

/// Phases one and two among fresh nodes: the dealers' messages and each node's summed
/// (unencrypted) shares.
fn deal_all(nodes: &mut Vec<Node>) -> (Vec<NodeToProxyKeyGenPhaseTwoP2PMsg>, Vec<(String, String)>) {
    let phase_one: Vec<_> = nodes.iter_mut().map(|n| n.keygen_phase_one()).collect();
    let mut phase_two = Vec::new();
    for node in nodes.iter_mut() {
        let deal = node.keygen_phase_two(&phase_one);
        let encs: Vec<(String, String)> =
            deal.shares.iter().map(|s| (s.share.clone(), s.random.clone())).collect();
        phase_two.push(node.keygen_phase_two_msg(&encs, "p".to_string()).unwrap());
    }
    let sums = infos()
        .iter()
        .map(|info| {
            let s: Vec<String> =
                phase_two.iter().map(|m| m.share_enc_map[&info.id].clone()).collect();
            let r: Vec<String> =
                phase_two.iter().map(|m| m.random_enc_map[&info.id].clone()).collect();
            (decimal_sum(&s), decimal_sum(&r))
        })
        .collect();
    (phase_two, sums)
}

#[test]
fn refused_batch_proof_stops_phase_three() {
    let mut nodes: Vec<Node> = (1..=N).map(new_node).collect();
    let mut proxy = new_proxy();
    let (phase_two, sums) = deal_all(&mut nodes);
    let r = proxy.keygen_phase_three(phase_two.clone(), &vec![true, false, true], &sums);
    assert_eq!(r.unwrap_err(), Error::InvalidZkp);
    let recorded = proxy.commitments_map.as_ref().unwrap();
    assert_eq!(recorded.len(), N as usize);
    for m in &phase_two {
        let c = &recorded[&m.sender];
        assert_eq!(c.len(), m.vss.commitments.len());
        assert!(c[0].equals(&m.vss.commitments[0]));
    }
}

#[test]
fn phase_three_sums_the_commitments() {
    let mut nodes: Vec<Node> = (1..=N).map(new_node).collect();
    let mut proxy = new_proxy();
    let (phase_two, sums) = deal_all(&mut nodes);
    let out = proxy.keygen_phase_three(phase_two.clone(), &vec![true; 3], &sums).unwrap();
    for info in infos() {
        let m = &out[&info.id];
        assert_eq!(m.sender, 0);
        assert_eq!(m.share_enc_sum, sums[(info.id - 1) as usize].0);
        assert_eq!(m.vss_scheme_sum.commitments.len(), (T + 1) as usize);
        for j in 0..(T + 1) as usize {
            let mut expected = Point::zero();
            for d in &phase_two {
                expected = expected.add(&d.vss.commitments[j]);
            }
            assert!(m.vss_scheme_sum.commitments[j].equals(&expected));
        }
    }
}

#[test]
fn wrong_share_is_refused_in_phase_four() {
    let mut nodes: Vec<Node> = (1..=N).map(new_node).collect();
    let mut proxy = new_proxy();
    let (phase_two, sums) = deal_all(&mut nodes);
    let out = proxy.keygen_phase_three(phase_two, &vec![true; 3], &sums).unwrap();
    let msg = out[&1].clone();
    let before = nodes[0].sk.clone();
    let wrong = decimal_sum(&[msg.share_enc_sum.clone(), "1".to_string()]);
    let r = nodes[0].keygen_phase_four(msg.clone(), wrong, msg.random_enc_sum.clone());
    assert_eq!(r.unwrap_err(), Error::InvalidSS);
    assert!(nodes[0].sk.equals(&before));
    // the share of another node does not pass either
    let other = out[&2].clone();
    let r2 = nodes[0].keygen_phase_four(msg, other.share_enc_sum, other.random_enc_sum);
    assert_eq!(r2.unwrap_err(), Error::InvalidSS);
}

#[test]
fn tampered_commitment_proof_is_refused_in_phase_five() {
    let mut nodes: Vec<Node> = (1..=N).map(new_node).collect();
    let mut proxy = new_proxy();
    let (phase_two, sums) = deal_all(&mut nodes);
    let out = proxy.keygen_phase_three(phase_two, &vec![true; 3], &sums).unwrap();
    let mut phase_four = Vec::new();
    for node in nodes.iter_mut() {
        let msg = out[&node.id.unwrap()].clone();
        let (s, r) = (msg.share_enc_sum.clone(), msg.random_enc_sum.clone());
        phase_four.push(node.keygen_phase_four(msg, s, r).unwrap());
    }
    assert!(proxy.keygen_phase_five(phase_four.clone()).is_ok());
    let mut tampered = phase_four.clone();
    tampered[2].s_coefficients_log[0] =
        tampered[2].s_coefficients_log[0].add(&Point::generator());
    assert_eq!(proxy.keygen_phase_five(tampered).unwrap_err(), Error::InvalidSlog);
    let mut forged = phase_four;
    forged[0].dlog_proof.z = forged[0].dlog_proof.z.add(&gs_tbk::numbers::BigNum::from_u16(1));
    assert_eq!(proxy.keygen_phase_five(forged).unwrap_err(), Error::InvalidSlog);
}

#[test]
fn key_generation_setup() {
    let config = |addr: &str| Config {
        threshold_params: params(),
        proxy_addr: "127.0.0.1:50000".to_string(),
        node_addr: addr.to_string(),
        listen_addr: addr.to_string(),
    };
    let mut nodes: Vec<Node> = (1..=N)
        .map(|i| {
            Node::init(
                config(&format!("127.0.0.1:5000{}", i)),
                CLKeypair { sk: format!("sk{}", i), pk: format!("pk{}", i) },
            )
        })
        .collect();
    assert_eq!(nodes[0].id, None);
    assert!(nodes[0].secret.is_zero());
    let mut proxy = Proxy::init(config("127.0.0.1:50000"));
    assert!(proxy.commitments_map.is_none());
    let regs: Vec<NodeToProxySetupPhaseP2PMsg> = nodes.iter().map(|n| n.setup_phase_one()).collect();
    assert_eq!(regs[1].cl_pk, "pk2");
    let b = proxy.setup_phase_one(regs);
    assert_eq!(b.node_info_vec[2].id, 3);
    assert_eq!(b.node_info_vec[2].cl_pk, "pk3");
    let flags: Vec<_> = nodes.iter_mut().map(|n| n.setup_phase_two(b.clone())).collect();
    assert_eq!(nodes[1].id, Some(2));
    assert_eq!(flags[2].sender, 3);
    let fin = proxy.setup_phase_two(flags);
    assert_eq!(fin.role, "Proxy");
}
