use bls12_381_prover::{
    divide_by_linear, eval_poly, forward_transform, hash_witness, new_test_rng, sample_scalar,
    scalar_add, scalar_eq, scalar_mul, scalar_one, scalar_sub, scalar_zero, transform_round_trip,
    Config, ModuloMachine, Prover, ProtocolError, Setup, Verifier,
};

#[test]
fn test_transform_round_trip_identity() {
    let mut rng = new_test_rng();
    let mut v = Vec::new();
    for _ in 0..16 {
        v.push(sample_scalar(&mut rng));
    }
    let back = transform_round_trip(&v).unwrap();
    assert_eq!(back.len(), v.len());
    for i in 0..v.len() {
        assert!(scalar_eq(&v[i], &back[i]));
    }
}

#[test]
fn test_transform_rejects_bad_length() {
    let mut rng = new_test_rng();
    let mut v = Vec::new();
    for _ in 0..6 {
        v.push(sample_scalar(&mut rng));
    }
    assert!(matches!(
        forward_transform(&v),
        Err(ProtocolError::InvalidDomainSize)
    ));
}

#[test]
fn test_transform_of_impulse_is_constant() {
    // The polynomial with constant term 1 evaluates to 1 everywhere, so its
    // evaluation form is the all-ones vector.
    let mut v = Vec::new();
    v.push(scalar_one());
    for _ in 1..8 {
        v.push(scalar_zero());
    }
    let evals = forward_transform(&v).unwrap();
    let one = scalar_one();
    for e in evals.iter() {
        assert!(scalar_eq(e, &one));
    }
}

#[test]
fn test_windowed_powers_match_sequential() {
    // Above 1024 entries the windowed strategy runs; it must agree with
    // plain repeated multiplication at every index.
    let mut rng = new_test_rng();
    let tau = sample_scalar(&mut rng);
    let powers = Setup::compute_powers(&tau, 4096);
    assert_eq!(powers.len(), 4096);
    let mut acc = scalar_one();
    for p in powers.iter() {
        assert!(scalar_eq(p, &acc));
        acc = scalar_mul(&acc, &tau);
    }
}

#[test]
fn test_eval_poly_linear_formula() {
    let mut rng = new_test_rng();
    let a = sample_scalar(&mut rng);
    let b = sample_scalar(&mut rng);
    let x = sample_scalar(&mut rng);
    let expected = scalar_add(&a, &scalar_mul(&b, &x));
    let coeffs = vec![a, b];
    let got = eval_poly(&coeffs, &x);
    assert!(scalar_eq(&got, &expected));
}

#[test]
fn test_division_remainder_is_value() {
    let mut rng = new_test_rng();
    let mut c = Vec::new();
    for _ in 0..5 {
        c.push(sample_scalar(&mut rng));
    }
    let z = sample_scalar(&mut rng);
    let expected = eval_poly(&c, &z);
    let (q, rem) = divide_by_linear(&c, &z);
    assert_eq!(q.len(), 4);
    assert!(scalar_eq(&rem, &expected));

    // The division law at an independent point t:
    // c(t) == q(t) * (t - z) + rem.
    let t = sample_scalar(&mut rng);
    let lhs = eval_poly(&c, &t);
    let rhs = scalar_add(&scalar_mul(&eval_poly(&q, &t), &scalar_sub(&t, &z)), &rem);
    assert!(scalar_eq(&lhs, &rhs));
}

#[test]
fn test_hash_witness_moves_values() {
    // The binding map is a digest reduction, never the identity.
    let zero = scalar_zero();
    let one = scalar_one();
    assert!(!scalar_eq(&hash_witness(&zero), &zero));
    assert!(!scalar_eq(&hash_witness(&one), &one));
    // And it is deterministic.
    assert!(scalar_eq(&hash_witness(&zero), &hash_witness(&zero)));
}

#[test]
fn test_setup_rejects_bad_config() {
    assert!(matches!(
        Setup::new(Config { log_n: 0 }),
        Err(ProtocolError::InvalidDomainSize)
    ));
    assert!(matches!(
        Setup::new(Config { log_n: 40 }),
        Err(ProtocolError::InvalidDomainSize)
    ));
}

#[test]
fn test_opening_error_cases() {
    let setup = Setup::new(Config { log_n: 2 }).unwrap();
    let prover = Prover::new(&setup);
    let mut rng = new_test_rng();

    // A vector whose length is not a power of two has no matching domain.
    let mut bad = Vec::new();
    for _ in 0..3 {
        bad.push(sample_scalar(&mut rng));
    }
    let z = sample_scalar(&mut rng);
    assert!(matches!(
        prover.create_opening_proof(&bad, z),
        Err(ProtocolError::InvalidDomainSize)
    ));

    // A vector longer than the reference string asks for a quotient the
    // setup cannot commit to.
    let mut long = Vec::new();
    for _ in 0..16 {
        long.push(sample_scalar(&mut rng));
    }
    let z = sample_scalar(&mut rng);
    assert!(matches!(
        prover.create_opening_proof(&long, z),
        Err(ProtocolError::DegreeTooLarge)
    ));
}

#[test]
fn test_msm_length_mismatch() {
    let bases = Vec::new();
    let mut rng = new_test_rng();
    let scalars = vec![sample_scalar(&mut rng)];
    assert!(matches!(
        Prover::efficient_msm(&bases, &scalars),
        Err(ProtocolError::LengthMismatch)
    ));
}

#[test]
fn test_create_input_rejects_bad_digits() {
    assert!(ModuloMachine::create_input("12z45", 10).is_err());
    assert!(ModuloMachine::create_input("", 10).is_err());
    assert!(ModuloMachine::create_input("ff", 16).is_ok());
}

#[test]
fn test_three_openings_with_one_tampered() {
    let setup = Setup::new(Config::test()).unwrap();
    let prover = Prover::new(&setup);
    let verifier = Verifier::new(&setup);
    let (commitment, evals) = prover.prove();

    let mut rng = new_test_rng();
    let p1 = prover.create_opening_proof(&evals, sample_scalar(&mut rng)).unwrap();
    let mut p2 = prover.create_opening_proof(&evals, sample_scalar(&mut rng)).unwrap();
    let p3 = prover.create_opening_proof(&evals, sample_scalar(&mut rng)).unwrap();

    assert!(verifier.verify_opening(&commitment, &p1));
    assert!(verifier.verify_opening(&commitment, &p2));
    assert!(verifier.verify_opening(&commitment, &p3));

    // Disturb one stored evaluation; only that opening must fail.
    p2.evaluation = scalar_add(&p2.evaluation, &scalar_one());
    assert!(verifier.verify_opening(&commitment, &p1));
    assert!(!verifier.verify_opening(&commitment, &p2));
    assert!(verifier.verify_opening(&commitment, &p3));
}

#[test]
fn test_tampered_point_and_proof_fail() {
    let setup = Setup::new(Config { log_n: 4 }).unwrap();
    let prover = Prover::new(&setup);
    let verifier = Verifier::new(&setup);
    let (commitment, evals) = prover.prove();
    let mut rng = new_test_rng();

    let mut with_bad_point = prover.create_opening_proof(&evals, sample_scalar(&mut rng)).unwrap();
    with_bad_point.point = scalar_add(&with_bad_point.point, &scalar_one());
    assert!(!verifier.verify_opening(&commitment, &with_bad_point));

    let good = prover.create_opening_proof(&evals, sample_scalar(&mut rng)).unwrap();
    let other = prover.create_opening_proof(&evals, sample_scalar(&mut rng)).unwrap();
    // Swap in the proof element of a different opening.
    let franken = bls12_381_prover::OpeningProof {
        point: good.point,
        evaluation: good.evaluation,
        proof: other.proof,
    };
    assert!(!verifier.verify_opening(&commitment, &franken));
}
