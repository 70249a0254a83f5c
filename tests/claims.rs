use mercat::claim_data::CddId;
use mercat::errors::ZkpKind;
use mercat::claim_proofs::{
    prove_representation, verify_proofs, ZKPFinalResponse, ZKPInitialmessage,
    check_committed_uid, gen_random_uuids, generate_committed_set, uuid_to_scalar,
    PrivateUids, SET_SIZE_ANONYMITY_PARAM,
};
use mercat::errors::ErrorKind;
use mercat::group::{PedersenBases, Scalar};
use mercat::membership_proof::{
    MembershipProofFinalResponse, MembershipProofInitialMessage,
    convert_to_base, prove_membership, verify_membership, MembershipProofVerifier,
    MembershipProverAwaitingChallenge, MEMBERSHIP_PROOF_CHALLENGE_LABEL, MEMBERSHIP_PROOF_LABEL,
};
use mercat::one_out_of_many::OooNProofGenerators;
use mercat::transcript::ProofTranscript;
use rand::rngs::StdRng;
use rand::SeedableRng;

fn make_random_uuids(count: usize, rng: &mut StdRng) -> PrivateUids {
    PrivateUids(gen_random_uuids(count, rng).into_iter().map(uuid_to_scalar).collect())
}

#[test]
fn test_verifier_set_gen_length() {
    let gens = PedersenBases::standard();
    let mut rng = StdRng::from_seed([10u8; 32]);
    let input_len = 10;

    let (_, committed_uids) =
        generate_committed_set(make_random_uuids(input_len, &mut rng), None, &gens, &mut rng)
            .expect("Success");
    assert_eq!(committed_uids.0.len(), SET_SIZE_ANONYMITY_PARAM);

    let different_anonymity_size = 20;
    let (_, committed_uids) = generate_committed_set(
        make_random_uuids(input_len, &mut rng),
        Some(different_anonymity_size),
        &gens,
        &mut rng,
    )
    .expect("Success");
    assert_eq!(committed_uids.0.len(), different_anonymity_size);

    let different_anonymity_size = 5;
    let (_, committed_uids) = generate_committed_set(
        make_random_uuids(input_len, &mut rng),
        Some(different_anonymity_size),
        &gens,
        &mut rng,
    )
    .expect("Success");
    assert_eq!(committed_uids.0.len(), input_len);
}

#[test]
fn random_uuids_are_version_four() {
    let mut rng = StdRng::from_seed([4u8; 32]);
    for u in gen_random_uuids(8, &mut rng) {
        assert_eq!(u[6] >> 4, 4);
        assert_eq!(u[8] >> 6, 2);
    }
}

#[test]
fn masked_uid_is_found_in_committed_set() {
    let gens = PedersenBases::standard();
    let mut rng = StdRng::from_seed([11u8; 32]);
    let uids = make_random_uuids(3, &mut rng);
    let first = uids.0[0];
    let (secrets, committed) = generate_committed_set(uids, Some(20), &gens, &mut rng).unwrap();
    let uid_commitment = gens.b.mul(&first);
    assert!(check_committed_uid(&uid_commitment, &secrets, &committed).is_ok());
    let stranger = gens.b.mul(&Scalar::from_u32(12345));
    assert_eq!(
        *check_committed_uid(&stranger, &secrets, &committed).unwrap_err().kind(),
        ErrorKind::MembershipProofError
    );
}

#[test]
fn test_membership_proofs() {
    let mut rng = StdRng::from_seed([42u8; 32]);
    let mut transcript = ProofTranscript::new(MEMBERSHIP_PROOF_LABEL);
    const BASE: usize = 4;
    const EXPONENT: usize = 3;
    let generators = OooNProofGenerators::new(EXPONENT, BASE, &PedersenBases::standard());
    let even_elements: Vec<Scalar> = (0..64u32).map(|m| Scalar::from_u32(2 * m)).collect();
    let odd_elements: Vec<Scalar> = (0..64u32).map(|m| Scalar::from_u32(2 * m + 1)).collect();
    let blinding = Scalar::random(&mut rng);
    let even_member = generators.com_gens.commit(&Scalar::from_u32(8), &blinding);
    let odd_member = generators.com_gens.commit(&Scalar::from_u32(7), &blinding);

    let prover = MembershipProverAwaitingChallenge::new(Scalar::from_u32(8), blinding, &generators, &even_elements, BASE, EXPONENT)
        .ok()
        .unwrap();
    let mut transcript_rng = prover.create_transcript_rng(&mut rng, &transcript);
    let (prover, initial_message) = prover.generate_initial_message(&generators, &mut transcript_rng);
    initial_message.update_transcript(&mut transcript).unwrap();
    let challenge = transcript.scalar_challenge(MEMBERSHIP_PROOF_CHALLENGE_LABEL).unwrap();
    let final_response = prover.apply_challenge(&challenge);

    let verifier = MembershipProofVerifier { secret_element_com: even_member, elements_set: even_elements.clone() };
    assert!(verifier.verify(&generators, &challenge, &initial_message, &final_response).is_ok());

    let verifier = MembershipProofVerifier { secret_element_com: odd_member, elements_set: even_elements.clone() };
    assert_eq!(
        *verifier.verify(&generators, &challenge, &initial_message, &final_response).unwrap_err().kind(),
        ErrorKind::MembershipProofVerificationError { check: 2 }
    );

    let prover = MembershipProverAwaitingChallenge::new(Scalar::from_u32(78953), blinding, &generators, &even_elements, BASE, EXPONENT);
    assert!(prover.is_err());

    let prover = MembershipProverAwaitingChallenge::new(Scalar::from_u32(7), blinding, &generators, &odd_elements, BASE, EXPONENT)
        .ok()
        .unwrap();
    let verifier = MembershipProofVerifier { secret_element_com: odd_member, elements_set: odd_elements.clone() };
    let (initial_message_1, final_response_1) = prove_membership(&prover, &generators, &mut rng).unwrap();
    assert!(verify_membership(&verifier, &generators, &initial_message_1, &final_response_1).is_ok());

    assert_eq!(
        *verify_membership(&verifier, &generators, &initial_message, &final_response_1).unwrap_err().kind(),
        ErrorKind::MembershipProofVerificationError { check: 1 }
    );
    assert_eq!(
        *verify_membership(&verifier, &generators, &initial_message_1, &final_response).unwrap_err().kind(),
        ErrorKind::MembershipProofVerificationError { check: 1 }
    );
}

#[test]
fn membership_proof_with_padded_set() {
    let mut rng = StdRng::from_seed([3u8; 32]);
    let generators = OooNProofGenerators::new(3, 4, &PedersenBases::standard());
    let elements: Vec<Scalar> = (0..50u32).map(|m| Scalar::from_u32(3 * m)).collect();
    let blinding = Scalar::random(&mut rng);
    let secret = Scalar::from_u32(147);
    let prover = MembershipProverAwaitingChallenge::new(secret, blinding, &generators, &elements, 4, 3).ok().unwrap();
    let (im, fr) = prove_membership(&prover, &generators, &mut rng).unwrap();
    let com = generators.com_gens.commit(&secret, &blinding);
    let verifier = MembershipProofVerifier { secret_element_com: com, elements_set: elements.clone() };
    assert!(verify_membership(&verifier, &generators, &im, &fr).is_ok());
    let mut padded = elements.clone();
    padded.extend(std::iter::repeat(elements[49]).take(14));
    let verifier = MembershipProofVerifier { secret_element_com: com, elements_set: padded };
    assert!(verify_membership(&verifier, &generators, &im, &fr).is_ok());
    let empty = MembershipProofVerifier { secret_element_com: com, elements_set: vec![] };
    assert_eq!(*verify_membership(&empty, &generators, &im, &fr).unwrap_err().kind(), ErrorKind::EmptyElementsSet);
}

#[test]
fn membership_of_odd_value_in_even_set_is_refused() {
    let gens = OooNProofGenerators::new(3, 4, &PedersenBases::standard());
    let evens: Vec<Scalar> = (0..64u32).map(|i| Scalar::from_u32(2 * i)).collect();
    let blinding = Scalar::from_u32(99);
    let err = MembershipProverAwaitingChallenge::new(Scalar::from_u32(7), blinding, &gens, &evens, 4, 3)
        .err()
        .unwrap();
    assert_eq!(*err.kind(), ErrorKind::MembershipProofInvalidAssetError);
    let p = MembershipProverAwaitingChallenge::new(Scalar::from_u32(8), blinding, &gens, &evens, 4, 3).ok().unwrap();
    assert_eq!(p.secret_position, 4);
    let empty: Vec<Scalar> = vec![];
    let err = MembershipProverAwaitingChallenge::new(Scalar::from_u32(8), blinding, &gens, &empty, 4, 3)
        .err()
        .unwrap();
    assert_eq!(*err.kind(), ErrorKind::EmptyElementsSet);
}

#[test]
fn digits_are_little_endian() {
    assert_eq!(convert_to_base(11, 4, 3), vec![3, 2, 0]);
    assert_eq!(convert_to_base(63, 4, 3), vec![3, 3, 3]);
    assert_eq!(convert_to_base(5, 2, 4), vec![1, 0, 1, 0]);
}

#[test]
fn test_membership_proof_fast_proof_generation_verification() {
    let mut rng = StdRng::from_seed([42u8; 32]);
    let mut transcript = ProofTranscript::new(MEMBERSHIP_PROOF_LABEL);
    const BASE: usize = 4;
    const EXPONENT: usize = 8;
    let generators = OooNProofGenerators::new(EXPONENT, BASE, &PedersenBases::standard());
    let elements_set: Vec<Scalar> = (0..2000u32).map(Scalar::from_u32).collect();
    let secret = Scalar::from_u32(8);
    let blinding = Scalar::random(&mut rng);
    let secret_commitment = generators.com_gens.commit(&secret, &blinding);
    let prover = MembershipProverAwaitingChallenge::new(secret, blinding, &generators, &elements_set, BASE, EXPONENT)
        .ok()
        .unwrap();
    let mut transcript_rng = prover.create_transcript_rng(&mut rng, &transcript);
    let (prover, initial_message) = prover.generate_initial_message(&generators, &mut transcript_rng);
    initial_message.update_transcript(&mut transcript).unwrap();
    let challenge = transcript.scalar_challenge(MEMBERSHIP_PROOF_CHALLENGE_LABEL).unwrap();
    let final_response = prover.apply_challenge(&challenge);
    let verifier = MembershipProofVerifier { secret_element_com: secret_commitment, elements_set };
    assert!(verifier.verify(&generators, &challenge, &initial_message, &final_response).is_ok());
}

#[test]
fn membership_proof_serialize_deserialize_proof() {
    let mut rng = StdRng::from_seed([42u8; 32]);
    const BASE: usize = 4;
    const EXPONENT: usize = 3;
    let generators = OooNProofGenerators::new(EXPONENT, BASE, &PedersenBases::standard());
    let even_elements: Vec<Scalar> = (0..64u32).map(|m| Scalar::from_u32(2 * m)).collect();
    let blinding = Scalar::random(&mut rng);
    let prover = MembershipProverAwaitingChallenge::new(Scalar::from_u32(8), blinding, &generators, &even_elements, BASE, EXPONENT)
        .ok()
        .unwrap();
    let (initial_message0, final_response0) = prove_membership(&prover, &generators, &mut rng).unwrap();
    let initial_message_bytes = initial_message0.to_bytes();
    let final_response_bytes = final_response0.to_bytes();
    let recovered_initial_message = MembershipProofInitialMessage::from_bytes(&initial_message_bytes).unwrap();
    let recovered_final_response = MembershipProofFinalResponse::from_bytes(&final_response_bytes).unwrap();
    assert_eq!(recovered_initial_message.to_bytes(), initial_message_bytes);
    assert_eq!(recovered_final_response.to_bytes(), final_response_bytes);
    let com = generators.com_gens.commit(&Scalar::from_u32(8), &blinding);
    let verifier = MembershipProofVerifier { secret_element_com: com, elements_set: even_elements };
    assert!(verify_membership(&verifier, &generators, &recovered_initial_message, &recovered_final_response).is_ok());
    let mut truncated = final_response_bytes.clone();
    truncated.pop();
    assert!(MembershipProofFinalResponse::from_bytes(&truncated).is_none());
}

fn claim_for(uid: Scalar, cdd: &CddId, gens: &PedersenBases, rng: &mut StdRng) -> (ZKPInitialmessage, ZKPFinalResponse) {
    let t = Scalar::random(rng);
    let uid_commitment = gens.b.mul(&uid);
    let b = gens.b_blinding.mul(&t);
    let a = uid_commitment.add(&b);
    let (pa, r1) = prove_representation(vec![cdd.cdd_id, gens.b, gens.b_blinding], &vec![Scalar::zero(), uid, t], &a, rng).unwrap();
    let (pb, r2) = prove_representation(vec![gens.b_blinding], &vec![t], &b, rng).unwrap();
    let (pc, r3) = prove_representation(vec![gens.b], &vec![uid], &a.sub(&b), rng).unwrap();
    (
        ZKPInitialmessage { cdd_id_proof: pa, cdd_id_second_half_proof: pb, uid_commitment_proof: pc, a, b },
        ZKPFinalResponse { cdd_id_proof_response: r1, cdd_id_second_half_proof_response: r2, uid_commitment_proof_response: r3 },
    )
}

#[test]
fn claim_proofs_are_checked_against_the_committed_set() {
    let gens = PedersenBases::standard();
    let mut rng = StdRng::from_seed([21u8; 32]);
    let uids = make_random_uuids(10, &mut rng);
    let uid = uids.0[3];
    let (secrets, committed) = generate_committed_set(uids, Some(20), &gens, &mut rng).unwrap();
    assert_eq!(committed.0.len(), 20);
    let cdd = CddId { cdd_id: gens.b.mul(&uid).add(&gens.b_blinding.mul(&Scalar::from_u32(77))) };
    let (im, fr) = claim_for(uid, &cdd, &gens, &mut rng);
    let other_cdd = CddId { cdd_id: gens.b_blinding.mul(&Scalar::from_u32(5)) };
    let stranger = Scalar::from_u32(4242);
    let (im2, fr2) = claim_for(stranger, &cdd, &gens, &mut rng);
    let mut bad_fr = fr.clone();
    bad_fr.cdd_id_proof_response.z[1] = Scalar::from_u32(1);
    let results = verify_proofs(
        &vec![im.clone(), im.clone(), im2, im.clone()],
        &vec![fr.clone(), fr.clone(), fr2, bad_fr],
        &vec![cdd, other_cdd, cdd, cdd],
        &secrets,
        &committed,
    );
    assert_eq!(results.len(), 4);
    assert!(results[0].is_ok());
    assert_eq!(*results[1].as_ref().unwrap_err().kind(), ErrorKind::CDDIdMismatchError);
    assert_eq!(*results[2].as_ref().unwrap_err().kind(), ErrorKind::MembershipProofError);
    assert_eq!(*results[3].as_ref().unwrap_err().kind(), ErrorKind::ZKPVerificationError { kind: ZkpKind::CddId });
    let shorter = verify_proofs(&vec![im], &vec![fr.clone(), fr], &vec![cdd, cdd], &secrets, &committed);
    assert_eq!(shorter.len(), 1);
}

#[test]
fn empty_set_is_reported_before_shapes() {
    let mut rng = StdRng::from_seed([6u8; 32]);
    let generators = OooNProofGenerators::new(3, 4, &PedersenBases::standard());
    let elements: Vec<Scalar> = (0..10u32).map(Scalar::from_u32).collect();
    let blinding = Scalar::random(&mut rng);
    let prover = MembershipProverAwaitingChallenge::new(Scalar::from_u32(4), blinding, &generators, &elements, 4, 3).ok().unwrap();
    let (mut im, fr) = prove_membership(&prover, &generators, &mut rng).unwrap();
    let com = generators.com_gens.commit(&Scalar::from_u32(4), &blinding);
    im.m = 0;
    let empty = MembershipProofVerifier { secret_element_com: com, elements_set: vec![] };
    assert_eq!(*verify_membership(&empty, &generators, &im, &fr).unwrap_err().kind(), ErrorKind::EmptyElementsSet);
    let full = MembershipProofVerifier { secret_element_com: com, elements_set: elements };
    assert_eq!(*verify_membership(&full, &generators, &im, &fr).unwrap_err().kind(), ErrorKind::InvalidExponentParameter);
}
