use gs_tbk::config::Config;
use gs_tbk::dch::ch::{adapt, adapt_with_nonce, generate_hash, verify};
use gs_tbk::dch::message::{
    NodeInfo, NodeKeyGenPhaseOneBroadcastMsg, NodeToProxySetupPhaseP2PMsg,
    ProxySetupPhaseBroadcastMsg,
};
use gs_tbk::dch::node::Node;
use gs_tbk::dch::proxy::Proxy;
use gs_tbk::field::Scalar;
use gs_tbk::group::Point;
use gs_tbk::kjg::params::ThreasholdParam;

#[test]
fn ch_test() {
    let g = Point::generator();
    let r = Scalar::random();
    let big_r = g.mul(&r);
    let s = Scalar::random();
    let sk = Scalar::random();
    let pk = Point::generator().mul(&sk);

    let hash = generate_hash(pk, big_r, s, "123".to_string());
    let (r_new, s_new) = adapt(sk, "1234".to_string(), hash);

    let ret = verify(pk, big_r, s, "123".to_string(), hash);
    assert!(ret);
    let ret_ = verify(pk, r_new, s_new, "1234".to_string(), hash);
    assert!(ret_);
}

#[test]
fn verify_refuses_other_openings() {
    let sk = Scalar::random();
    let pk = Point::generator().mul(&sk);
    let big_r = Point::generator().mul(&Scalar::random());
    let s = Scalar::random();
    let hash = generate_hash(pk, big_r, s, "123".to_string());
    assert!(!verify(pk, big_r, s, "124".to_string(), hash));
    assert!(!verify(pk, big_r, s.add(&Scalar::from_u16(1)), "123".to_string(), hash));
    let other = Point::generator().mul(&Scalar::random());
    assert!(!verify(other, big_r, s, "123".to_string(), hash));
}

#[test]
fn adapt_with_a_fixed_nonce() {
    let sk = Scalar::from_u16(11);
    let pk = Point::generator().mul(&sk);
    let hash = generate_hash(pk, Point::generator(), Scalar::from_u16(3), "m".to_string());
    let k = Scalar::from_u16(5);
    let (r_new, s_new) = adapt_with_nonce(sk, "m2".to_string(), hash, k);
    assert!(r_new.equals(&hash.add(&Point::generator().mul(&k))));
    assert!(verify(pk, r_new, s_new, "m2".to_string(), hash));
}

#[test]
fn generate_hash_formula() {
    // R - (c * pk + s * G) with s = 0 and R = pk gives pk * (1 - c)
    let pk = Point::generator().mul(&Scalar::from_u16(9));
    let h = generate_hash(pk, pk, Scalar::zero(), "x".to_string());
    let rb = pk.to_bytes();
    let text = format!("x{}", gs_tbk::dch::ch::to_hex(&rb));
    let c = Scalar::from_bignum(&gs_tbk::digest::hash_to_bignum(&text));
    assert!(h.equals(&pk.sub(&pk.mul(&c))));
}

fn config(addr: &str) -> Config {
    Config {
        threshold_params: ThreasholdParam { threshold: 1, share_counts: 3 },
        proxy_addr: "10.0.0.1:9000".to_string(),
        node_addr: addr.to_string(),
        listen_addr: addr.to_string(),
    }
}

#[test]
fn node_and_proxy_init() {
    let node = Node::init(config("10.0.0.2:9001"));
    assert_eq!(node.id, None);
    assert_eq!(node.role, "Group Manager Node");
    assert_eq!(node.address, "10.0.0.2:9001");
    assert_eq!(node.listen_addr, "10.0.0.2:9001");
    assert_eq!(node.proxy_address, "10.0.0.1:9000");
    assert!(node.pk.equals(&Point::zero()));
    assert!(node.h_new.is_zero());
    assert!(node.node_info_vec.is_none());
    let proxy = Proxy::init(config("10.0.0.1:9000"));
    assert_eq!(proxy.id, 0);
    assert_eq!(proxy.role, "Proxy");
    assert_eq!(proxy.address, "10.0.0.1:9000");
    assert!(proxy.node_info_vec.is_none());
}

#[test]
fn setup_numbers_the_nodes_in_order() {
    let mut proxy = Proxy::init(config("10.0.0.1:9000"));
    let msgs = vec![
        NodeToProxySetupPhaseP2PMsg { role: "a".to_string(), address: "x:1".to_string() },
        NodeToProxySetupPhaseP2PMsg { role: "b".to_string(), address: "x:2".to_string() },
    ];
    let b = proxy.setup_phase_one(msgs);
    assert_eq!(b.node_info_vec.len(), 2);
    assert_eq!(b.node_info_vec[0].id, 1);
    assert_eq!(b.node_info_vec[1].id, 2);
    assert_eq!(b.node_info_vec[1].address, "x:2");
    assert_eq!(proxy.node_info_vec.as_ref().unwrap()[0].address, "x:1");
}

#[test]
fn setup_takes_the_last_matching_id() {
    let mut node = Node::init(config("x:2"));
    let msg = ProxySetupPhaseBroadcastMsg {
        node_info_vec: vec![
            NodeInfo { id: 1, address: "x:1".to_string() },
            NodeInfo { id: 2, address: "x:2".to_string() },
            NodeInfo { id: 7, address: "x:2".to_string() },
        ],
    };
    let flag = node.setup_phase_two(msg);
    assert_eq!(node.id, Some(7));
    assert_eq!(flag.sender, 7);
    assert_eq!(flag.role, "Group Manager Node");
    assert_eq!(node.node_info_vec.as_ref().unwrap().len(), 3);
}

#[test]
fn node_share_of_the_new_randomness() {
    let mut node = Node::init(config("x:1"));
    node.id = Some(1);
    let sk = Scalar::from_u16(4);
    let k = Scalar::from_u16(10);
    let pk = Point::generator().mul(&sk);
    let big_k = Point::generator().mul(&k);
    let hash = Point::generator().mul(&Scalar::from_u16(77));
    let msg = node.keygen_phase_one(pk, big_k, "4", "a", hash);
    assert!(node.r_new.equals(&hash.add(&big_k)));
    let text = format!("123{}", gs_tbk::dch::ch::to_hex(&node.r_new.to_bytes()));
    let c = Scalar::from_bignum(&gs_tbk::digest::hash_to_bignum(&text));
    assert!(node.h_new.equals(&c));
    let expected = k.sub(&c.mul(&sk));
    assert!(Scalar::from_bignum(&msg.s_new).equals(&expected));
    assert_eq!(msg.sender, 1);
    // a single node holding the whole key recovers the hash from its own share
    let total = gs_tbk::dch::message::ProxyToNodeGetSTotal { s_total: msg.s_new.clone() };
    let h = node.keygen_phase_two(total);
    assert!(h.equals(&hash));
}

fn share_msg(sender: u16, k: &Scalar, sk: &Scalar, h: &Scalar) -> NodeKeyGenPhaseOneBroadcastMsg {
    NodeKeyGenPhaseOneBroadcastMsg {
        sender,
        role: "Group Manager Node".to_string(),
        s_new: k.sub(&h.mul(sk)).to_bignum(),
        h_new: h.to_bignum(),
    }
}

#[test]
fn get_s_with_a_repeated_sender() {
    let mut proxy = Proxy::init(config("10.0.0.1:9000"));
    let g = Point::generator();
    let (sk1, sk2) = (Scalar::from_u16(5), Scalar::from_u16(6));
    let (k1, k2) = (Scalar::from_u16(50), Scalar::from_u16(60));
    let keys = vec![g.mul(&sk1), g.mul(&sk2)];
    let randoms = vec![g.mul(&k1), g.mul(&k2)];
    let h = Scalar::from_u16(7);
    let m1 = share_msg(1, &k1, &sk1, &h);
    let m2 = share_msg(2, &k2, &sk2, &h);
    // the first t + 1 = 2 senders are 1 and 1: each weight skips the equal point and is 1
    let msgs = vec![m1.clone(), m1.clone(), m2.clone()];
    assert!(Proxy::interpolable_at(&msgs, 1));
    let before = proxy.clone();
    let out = proxy.try_keygen_get_s(&msgs, &keys, &randoms).unwrap().unwrap();
    let s1 = Scalar::from_bignum(&m1.s_new);
    assert!(Scalar::from_bignum(&out.s_total).equals(&s1.add(&s1)));
    assert_eq!(proxy.id, before.id);
    // too few shares to interpolate
    assert!(proxy.try_keygen_get_s(&vec![m1.clone()], &keys, &randoms).is_none());
    // distinct senders: the Lagrange combination of k_i - h * sk_i is k(0) - h * sk(0)
    // for the lines through (1, k1), (2, k2) and (1, sk1), (2, sk2)
    let out = proxy.try_keygen_get_s(&vec![m1, m2], &keys, &randoms).unwrap().unwrap();
    let k0 = Scalar::from_u16(40);
    let sk0 = Scalar::from_u16(4);
    assert!(Scalar::from_bignum(&out.s_total).equals(&k0.sub(&h.mul(&sk0))));
}
