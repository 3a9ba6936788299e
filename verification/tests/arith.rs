use gs_tbk::field::Scalar;
use gs_tbk::group::Point;
use gs_tbk::lagrange::lagrange_coefficient;
use gs_tbk::numbers::BigNum;

const ORDER_HEX: &str = "FFFFFFFFFFFFFFFFFFFFFFFFFFFFFFFEBAAEDCE6AF48A03BBFD25E8CD0364141";

fn dec(s: &Scalar) -> String {
    s.to_bignum().to_decimal()
}

#[test]
fn scalar_arithmetic_is_modular() {
    let five = Scalar::from_u16(5);
    let seven = Scalar::from_u16(7);
    assert_eq!(dec(&five.add(&seven)), "12");
    assert_eq!(dec(&Scalar::from_u16(6).mul(&seven)), "42");
    assert_eq!(
        dec(&Scalar::from_u16(3).sub(&five)),
        "115792089237316195423570985008687907852837564279074904382605163141518161494335"
    );
    let order = BigNum::from_hex(ORDER_HEX);
    assert!(Scalar::from_bignum(&order).is_zero());
    let order_plus_one = order.add(&BigNum::from_u16(1));
    assert_eq!(dec(&Scalar::from_bignum(&order_plus_one)), "1");
    assert!(!five.is_zero());
    assert!(five.equals(&Scalar::from_u16(5)));
    assert!(!five.equals(&seven));
}

#[test]
fn scalar_inverse() {
    let two = Scalar::from_u16(2);
    let inv = two.invert().unwrap();
    assert_eq!(dec(&inv.mul(&two)), "1");
    assert!(Scalar::zero().invert().is_none());
    let r = Scalar::random();
    assert!(!r.is_zero());
    assert_eq!(dec(&r.invert().unwrap().mul(&r)), "1");
}

#[test]
fn scalar_bytes_round_trip() {
    let r = Scalar::random();
    let back = Scalar::from_bytes(&r.to_bytes()).unwrap();
    assert!(back.equals(&r));
    assert!(Scalar::from_bytes(&[0xff; 32]).is_none());
    let mut one = [0u8; 32];
    one[31] = 1;
    assert_eq!(dec(&Scalar::from_bytes(&one).unwrap()), "1");
}

#[test]
fn point_arithmetic() {
    let g = Point::generator();
    let two = Scalar::from_u16(2);
    assert!(g.mul(&two).equals(&g.add(&g)));
    assert!(g.sub(&g).equals(&Point::zero()));
    assert!(g.add(&Point::zero()).equals(&g));
    assert!(!g.equals(&Point::base_point2()));
    let a = Scalar::random();
    let b = Scalar::random();
    assert!(g.mul(&a).add(&g.mul(&b)).equals(&g.mul(&a.add(&b))));
    let gb = g.to_bytes();
    assert_eq!(gb[0], 0x02);
    assert_eq!(gs_tbk::hex::encode_upper(&gb[1..5]), "79BE667E");
    assert!(Point::from_bytes(&gb).unwrap().equals(&g));
    assert!(Point::from_bytes(&[0x05; 33]).is_none());
}

#[test]
fn lagrange_coefficients_interpolate_at_zero() {
    let pts = vec![BigNum::from_u16(1), BigNum::from_u16(2)];
    let l1 = lagrange_coefficient(&BigNum::from_u16(1), &pts);
    let l2 = lagrange_coefficient(&BigNum::from_u16(2), &pts);
    assert_eq!(dec(&l1), "2");
    assert_eq!(
        dec(&l2),
        "115792089237316195423570985008687907852837564279074904382605163141518161494336"
    );
    // f(x) = a + b x: l1 f(1) + l2 f(2) = a
    let a = Scalar::random();
    let b = Scalar::random();
    let f1 = a.add(&b);
    let f2 = a.add(&b.mul(&Scalar::from_u16(2)));
    assert!(l1.mul(&f1).add(&l2.mul(&f2)).equals(&a));
    let same = gs_tbk::kjg::vss::map_share_to_new_params(BigNum::from_u16(2), &pts);
    assert!(same.equals(&l2));
    let node = gs_tbk::dch::node::Node::map_share_to_new_params(BigNum::from_u16(1), &pts);
    assert!(node.equals(&l1));
    let proxy = gs_tbk::dch::proxy::Proxy::map_share_to_new_params(BigNum::from_u16(1), &pts);
    assert!(proxy.equals(&l1));
}

#[test]
fn lagrange_three_points() {
    // over {1, 2, 3}: l1 = 3, l2 = -3, l3 = 1
    let pts = vec![BigNum::from_u16(1), BigNum::from_u16(2), BigNum::from_u16(3)];
    let l1 = lagrange_coefficient(&BigNum::from_u16(1), &pts);
    let l3 = lagrange_coefficient(&BigNum::from_u16(3), &pts);
    assert_eq!(dec(&l1), "3");
    assert_eq!(dec(&l3), "1");
}

#[test]
fn lagrange_interpolation_recovers_the_constant_term() {
    // f(x) = a + b x + c x^2 at the points 1, 2, 3
    let a = Scalar::random();
    let b = Scalar::random();
    let c = Scalar::random();
    let pts = vec![BigNum::from_u16(1), BigNum::from_u16(2), BigNum::from_u16(3)];
    let mut acc = Scalar::zero();
    for x in 1..=3u16 {
        let xs = Scalar::from_u16(x);
        let fx = a.add(&b.mul(&xs)).add(&c.mul(&xs).mul(&xs));
        let l = lagrange_coefficient(&BigNum::from_u16(x), &pts);
        acc = acc.add(&fx.mul(&l));
    }
    assert!(acc.equals(&a));
}
