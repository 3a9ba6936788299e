use gs_tbk::error::Error;
use gs_tbk::field::Scalar;
use gs_tbk::group::Point;
use gs_tbk::kjg::vss::{
    map_share_to_new_params, pedersen_share, share_at_indices, ErrorSS, ShamirSecretSharing, Vss,
};
use gs_tbk::numbers::BigNum;
use gs_tbk::kjg::zkp::DlPcProof;
use gs_tbk::poly::evaluate;

#[test]
fn pedersen_shares_validate() {
    let secret = Scalar::random();
    let random = Scalar::random();
    let (vss, shares, coeffs) = pedersen_share(2, 5, &secret, &random);
    assert_eq!(vss.parameters, ShamirSecretSharing { threshold: 2, share_count: 5 });
    assert_eq!(vss.commitments.len(), 3);
    assert_eq!(shares.secret_shares.len(), 5);
    assert!(coeffs.secret_coefficients[0].equals(&secret));
    assert!(coeffs.random_coefficients[0].equals(&random));
    for i in 0..5u16 {
        let s = &shares.secret_shares[i as usize];
        let r = &shares.random_shares[i as usize];
        assert_eq!(vss.pedersen_validate_share(s, r, i + 1), Ok(()));
        let wrong = s.add(&Scalar::from_u16(1));
        assert_eq!(vss.pedersen_validate_share(&wrong, r, i + 1), Err(ErrorSS::VerifyShareError));
        assert_eq!(vss.pedersen_validate_share(s, r, i + 2), Err(ErrorSS::VerifyShareError));
    }
    // the first commitment is G * secret + H * random
    let c0 = Point::generator().mul(&secret).add(&Point::base_point2().mul(&random));
    assert!(vss.commitments[0].equals(&c0));
    assert!(vss.pedersen_get_point_commitment(0).equals(&c0));
}

#[test]
fn polynomial_evaluation() {
    // 3 + 2x + x^2 at 4 = 27
    let c = vec![Scalar::from_u16(3), Scalar::from_u16(2), Scalar::from_u16(1)];
    let v = evaluate(&c, &Scalar::from_u16(4));
    assert!(v.equals(&Scalar::from_u16(27)));
    // Feldman commitments evaluate the same way
    let g = Point::generator();
    let vss = Vss {
        parameters: ShamirSecretSharing { threshold: 2, share_count: 3 },
        commitments: c.iter().map(|x| g.mul(x)).collect(),
    };
    assert!(vss.get_point_commitment(4).equals(&g.mul(&Scalar::from_u16(27))));
    assert_eq!(vss.validate_share(&Scalar::from_u16(27), 4), Ok(()));
    assert_eq!(vss.validate_share(&Scalar::from_u16(26), 4), Err(ErrorSS::VerifyShareError));
    assert_eq!(vss.validate_share_public(&g.mul(&Scalar::from_u16(27)), 4), Ok(()));
}

#[test]
fn shares_at_hex_indices() {
    let secret = Scalar::random();
    let idx = vec!["1".to_string(), "2".to_string(), "a".to_string()];
    let (vss, shares) = share_at_indices(1, 3, &secret, &idx);
    assert_eq!(vss.commitments.len(), 2);
    assert!(vss.commitments[0].equals(&Point::generator().mul(&secret)));
    assert_eq!(shares.len(), 3);
    for (key, share) in shares.iter() {
        let x = u16::from_str_radix(key, 16).unwrap();
        assert_eq!(vss.validate_share(share, x), Ok(()));
    }
    // a repeated index is kept once
    let idx2 = vec!["1".to_string(), "1".to_string()];
    let (_, shares2) = share_at_indices(1, 2, &secret, &idx2);
    assert_eq!(shares2.len(), 1);
}

#[test]
fn dl_pc_proof_round_trip() {
    let a = Scalar::random();
    let b = Scalar::random();
    let dl = Point::generator().mul(&a);
    let pc = dl.add(&Point::base_point2().mul(&b));
    let proof = DlPcProof::dl_pc_proof(pc, dl, b.clone());
    assert!(proof.dl_pc_verify(pc, dl));
    // a proof for another blinding value is refused
    let wrong = DlPcProof::dl_pc_proof(pc, dl, b.add(&Scalar::from_u16(1)));
    assert!(!wrong.dl_pc_verify(pc, dl));
    // a proof is bound to its points
    assert!(!proof.dl_pc_verify(pc.add(&Point::generator()), dl));
}

#[test]
fn dl_pc_proof_with_fixed_nonce() {
    let b = Scalar::from_u16(9);
    let dl = Point::generator().mul(&Scalar::from_u16(2));
    let pc = dl.add(&Point::base_point2().mul(&b));
    let s = Scalar::from_u16(1234);
    let proof = DlPcProof::dl_pc_proof_with_nonce(pc, dl, b.clone(), s.clone());
    let e = Scalar::from_bignum(&proof.e);
    let z = Scalar::from_bignum(&proof.z);
    assert!(z.equals(&s.add(&e.mul(&b))));
    assert!(proof.dl_pc_verify(pc, dl));
}

#[test]
fn error_names() {
    assert_eq!(Error::InvalidSS.name(), "InvalidSS");
    assert_eq!(Error::InvalidZkp.name(), "InvalidZkp");
    assert_eq!(Error::InvalidSlog.name(), "InvalidSlog");
    assert_eq!(Error::InvalidCom.name(), "InvalidCom");
}

#[test]
fn any_t_plus_one_shares_reconstruct() {
    let secret = Scalar::random();
    let random = Scalar::random();
    let (_vss, shares, _coeffs) = pedersen_share(1, 3, &secret, &random);
    for set in [[1u16, 2], [1, 3], [2, 3], [3, 1]] {
        let s: Vec<BigNum> = set.iter().map(|&j| BigNum::from_u16(j)).collect();
        let mut sum_s = Scalar::zero();
        let mut sum_r = Scalar::zero();
        for &j in set.iter() {
            let l = map_share_to_new_params(BigNum::from_u16(j), &s);
            sum_s = sum_s.add(&l.mul(&shares.secret_shares[(j - 1) as usize]));
            sum_r = sum_r.add(&l.mul(&shares.random_shares[(j - 1) as usize]));
        }
        assert!(sum_s.equals(&secret));
        assert!(sum_r.equals(&random));
    }
}

#[test]
fn only_the_dealt_share_passes_with_its_blinding() {
    let secret = Scalar::from_u16(11);
    let random = Scalar::from_u16(12);
    let (vss, shares, _coeffs) = pedersen_share(1, 2, &secret, &random);
    let s = &shares.secret_shares[0];
    let r = &shares.random_shares[0];
    assert_eq!(vss.pedersen_validate_share(s, r, 1), Ok(()));
    for d in [1u16, 2, 100, 65535] {
        let other = s.add(&Scalar::from_u16(d));
        assert_eq!(vss.pedersen_validate_share(&other, r, 1), Err(ErrorSS::VerifyShareError));
        let other = s.sub(&Scalar::from_u16(d));
        assert_eq!(vss.pedersen_validate_share(&other, r, 1), Err(ErrorSS::VerifyShareError));
    }
}
