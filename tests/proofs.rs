use mercat::correctness_proof::{
    prove_correctness, verify_correctness, CorrectnessInitialMessage,
    CorrectnessProverAwaitingChallenge, CorrectnessVerifier, CORRECTNESS_PROOF_CHALLENGE_LABEL,
    CORRECTNESS_PROOF_FINAL_RESPONSE_LABEL,
};
use mercat::elgamal::{CommitmentWitness, DecryptionTable, ElgamalSecretKey};
use mercat::ciphertext_refreshment_proof::{
    prove_refreshment, verify_refreshment, CipherTextRefreshmentInitialMessage,
    CipherTextRefreshmentProverAwaitingChallenge, CipherTextRefreshmentVerifier,
};
use mercat::encrypting_same_value_proof::{
    prove_encrypting_same_value, verify_encrypting_same_value, EncryptingSameValueFinalResponse,
    EncryptingSameValueInitialMessage, EncryptingSameValueProverAwaitingChallenge,
    EncryptingSameValueVerifier,
};
use mercat::elgamal::encrypt_using_two_pub_keys;
use mercat::errors::ErrorKind;
use mercat::group::{PedersenBases, Point, Scalar};
use mercat::transcript::ProofTranscript;
use mercat::wellformedness_proof::{
    prove_wellformedness, verify_wellformedness, WellformednessFinalResponse,
    WellformednessInitialMessage, WellformednessProverAwaitingChallenge, WellformednessVerifier,
    WELLFORMEDNESS_PROOF_CHALLENGE_LABEL, WELLFORMEDNESS_PROOF_FINAL_RESPONSE_LABEL,
};
use rand::rngs::StdRng;
use rand::SeedableRng;

#[test]
fn test_correctness_proof() {
    let gens = PedersenBases::standard();
    let mut rng = StdRng::from_seed([17u8; 32]);
    let secret_value = 13u32;
    let rand_blind = Scalar::random(&mut rng);

    let w = CommitmentWitness::new(secret_value, rand_blind);
    let elg_secret = ElgamalSecretKey::new(Scalar::random(&mut rng));
    let elg_pub = elg_secret.get_public_key(&gens);
    let cipher = elg_pub.encrypt(&gens, &w);

    let prover = CorrectnessProverAwaitingChallenge::new(&elg_pub, &w);
    let verifier = CorrectnessVerifier::new(&secret_value, &elg_pub, &cipher);
    let mut transcript = ProofTranscript::new(CORRECTNESS_PROOF_FINAL_RESPONSE_LABEL);

    let mut transcript_rng = prover.create_transcript_rng(&mut rng, &transcript);
    let (prover, initial_message) = prover.generate_initial_message(&gens, &mut transcript_rng);
    initial_message.update_transcript(&mut transcript).unwrap();
    let challenge = transcript.scalar_challenge(CORRECTNESS_PROOF_CHALLENGE_LABEL).unwrap();
    let final_response = prover.apply_challenge(&challenge);

    let result = verifier.verify(&gens, &challenge, &initial_message, &final_response);
    assert!(result.is_ok());

    let bad_initial_message = CorrectnessInitialMessage::default();
    let result = verifier.verify(&gens, &challenge, &bad_initial_message, &final_response);
    assert_eq!(
        *result.unwrap_err().kind(),
        ErrorKind::CorrectnessFinalResponseVerificationError { check: 1 }
    );

    let bad_final_response = Scalar::zero();
    let result = verifier.verify(&gens, &challenge, &initial_message, &bad_final_response);
    assert_eq!(
        *result.unwrap_err().kind(),
        ErrorKind::CorrectnessFinalResponseVerificationError { check: 1 }
    );
}

#[test]
fn correctness_non_interactive_and_wrong_value() {
    let gens = PedersenBases::standard();
    let mut rng = StdRng::from_seed([5u8; 32]);
    let w = CommitmentWitness::new(20, Scalar::random(&mut rng));
    let key = ElgamalSecretKey::new(Scalar::random(&mut rng)).get_public_key(&gens);
    let cipher = key.encrypt(&gens, &w);
    let prover = CorrectnessProverAwaitingChallenge::new(&key, &w);
    let (m, z) = prove_correctness(&prover, &gens, &mut rng).unwrap();
    assert!(verify_correctness(&CorrectnessVerifier::new(&20, &key, &cipher), &gens, &m, &z).is_ok());
    let wrong = verify_correctness(&CorrectnessVerifier::new(&21, &key, &cipher), &gens, &m, &z);
    assert_eq!(
        *wrong.unwrap_err().kind(),
        ErrorKind::CorrectnessFinalResponseVerificationError { check: 2 }
    );
    let bytes = m.to_bytes();
    assert_eq!(bytes.len(), 64);
    let back = CorrectnessInitialMessage::from_bytes(&bytes).unwrap();
    assert!(verify_correctness(&CorrectnessVerifier::new(&20, &key, &cipher), &gens, &back, &z).is_ok());
}

#[test]
fn test_wellformedness_proof() {
    let gens = PedersenBases::standard();
    let mut rng = StdRng::from_seed([42u8; 32]);
    let secret_value = 42u32;
    let rand_blind = Scalar::random(&mut rng);

    let w = CommitmentWitness::new(secret_value, rand_blind);
    let elg_secret = ElgamalSecretKey::new(Scalar::random(&mut rng));
    let pub_key = elg_secret.get_public_key(&gens);
    let cipher = pub_key.encrypt(&gens, &w);

    let prover = WellformednessProverAwaitingChallenge { pub_key, w };
    let verifier = WellformednessVerifier { pub_key, cipher };
    let mut dealer_transcript = ProofTranscript::new(WELLFORMEDNESS_PROOF_FINAL_RESPONSE_LABEL);

    let mut transcript_rng = prover.create_transcript_rng(&mut rng, &dealer_transcript);
    let (prover, initial_message) = prover.generate_initial_message(&gens, &mut transcript_rng);
    initial_message.update_transcript(&mut dealer_transcript).unwrap();
    let challenge = dealer_transcript
        .scalar_challenge(WELLFORMEDNESS_PROOF_CHALLENGE_LABEL)
        .unwrap();
    let final_response = prover.apply_challenge(&challenge);

    let result = verifier.verify(&gens, &challenge, &initial_message, &final_response);
    assert!(result.is_ok());

    let bad_initial_message = WellformednessInitialMessage::default();
    let result = verifier.verify(&gens, &challenge, &bad_initial_message, &final_response);
    assert_eq!(
        *result.unwrap_err().kind(),
        ErrorKind::WellformednessFinalResponseVerificationError { check: 1 }
    );

    let bad_final_response = WellformednessFinalResponse { z1: Scalar::zero(), z2: Scalar::zero() };
    let result = verifier.verify(&gens, &challenge, &initial_message, &bad_final_response);
    assert_eq!(
        *result.unwrap_err().kind(),
        ErrorKind::WellformednessFinalResponseVerificationError { check: 1 }
    );

    let prover = WellformednessProverAwaitingChallenge { pub_key, w };
    let (initial_message, final_response) = prove_wellformedness(&prover, &gens, &mut rng).unwrap();
    assert!(verify_wellformedness(&verifier, &gens, &initial_message, &final_response).is_ok());

    let bad_initial_message = WellformednessInitialMessage::default();
    assert_eq!(
        *verify_wellformedness(&verifier, &gens, &bad_initial_message, &final_response)
            .unwrap_err()
            .kind(),
        ErrorKind::WellformednessFinalResponseVerificationError { check: 1 }
    );
    assert_eq!(
        *verify_wellformedness(&verifier, &gens, &initial_message, &bad_final_response)
            .unwrap_err()
            .kind(),
        ErrorKind::WellformednessFinalResponseVerificationError { check: 1 }
    );
}

#[test]
fn wellformedness_proof_serialize_deserialize_proof() {
    let mut rng = StdRng::from_seed([42u8; 32]);
    let secret_value = 42u32;
    let rand_blind = Scalar::random(&mut rng);
    let gens = PedersenBases::standard();
    let w = CommitmentWitness::new(secret_value, rand_blind);
    let elg_secret = ElgamalSecretKey::new(Scalar::random(&mut rng));
    let pub_key = elg_secret.get_public_key(&gens);

    let prover = WellformednessProverAwaitingChallenge { pub_key, w };
    let (initial_message, final_response) = prove_wellformedness(&prover, &gens, &mut rng).unwrap();

    let initial_message_bytes = initial_message.to_bytes();
    let final_response_bytes = final_response.to_bytes();
    let recovered_initial_message =
        WellformednessInitialMessage::from_bytes(&initial_message_bytes).unwrap();
    let recovered_final_response =
        WellformednessFinalResponse::from_bytes(&final_response_bytes).unwrap();
    assert_eq!(recovered_initial_message.to_bytes(), initial_message_bytes);
    assert_eq!(recovered_final_response.to_bytes(), final_response_bytes);
}

#[test]
fn tampered_wellformedness_proof_fails() {
    let gens = PedersenBases::standard();
    let mut rng = StdRng::from_seed([9u8; 32]);
    let w = CommitmentWitness::new(7, Scalar::random(&mut rng));
    let pub_key = ElgamalSecretKey::new(Scalar::random(&mut rng)).get_public_key(&gens);
    let cipher = pub_key.encrypt(&gens, &w);
    let verifier = WellformednessVerifier { pub_key, cipher };
    let prover = WellformednessProverAwaitingChallenge { pub_key, w };
    let (m, f) = prove_wellformedness(&prover, &gens, &mut rng).unwrap();
    let mut bytes = f.to_bytes();
    bytes[3] ^= 1;
    let tampered = WellformednessFinalResponse::from_bytes(&bytes).unwrap();
    assert!(verify_wellformedness(&verifier, &gens, &m, &tampered).is_err());
}

#[test]
fn detect_trivial_message() {
    let mut transcript = ProofTranscript::new("unit test");
    let identity = Point { bytes: [0u8; 32] };
    assert_eq!(
        *transcript.append_validated_point("identity", &identity).unwrap_err().kind(),
        ErrorKind::VerificationError
    );
}

#[test]
fn decrypt_small_values() {
    let gens = PedersenBases::standard();
    let mut rng = StdRng::from_seed([1u8; 32]);
    let secret = ElgamalSecretKey::new(Scalar::random(&mut rng));
    let public = secret.get_public_key(&gens);
    let (_, c1) = public.encrypt_value(&gens, 40, &mut rng);
    let (_, c2) = public.encrypt_value(&gens, 30, &mut rng);
    assert_eq!(secret.decrypt(&gens, &c1).unwrap(), 40);
    assert_eq!(secret.decrypt(&gens, &c1.sub(&c2)).unwrap(), 10);
    assert_eq!(secret.decrypt(&gens, &c1.add(&c2)).unwrap(), 70);
    let refreshed = secret.refresh(&gens, &c1, &Scalar::random(&mut rng));
    assert_ne!(refreshed.x.to_bytes(), c1.x.to_bytes());
    assert_eq!(secret.decrypt(&gens, &refreshed).unwrap(), 40);
}

#[test]
fn table_decryption_finds_large_values() {
    let gens = PedersenBases::standard();
    let mut rng = StdRng::from_seed([8u8; 32]);
    let secret = ElgamalSecretKey::new(Scalar::random(&mut rng));
    let public = secret.get_public_key(&gens);
    let table = DecryptionTable::new(&gens, 10);
    for v in [0u32, 1, 40, 1023, 1024, 1_000_000] {
        let (_, c) = public.encrypt_value(&gens, v, &mut rng);
        assert_eq!(secret.decrypt_with_table(&table, &gens, &c).unwrap(), v);
    }
}

#[test]
fn same_value_and_refreshment_proofs_survive_bytes() {
    let gens = PedersenBases::standard();
    let mut rng = StdRng::from_seed([31u8; 32]);
    let k1 = ElgamalSecretKey::new(Scalar::random(&mut rng));
    let k2 = ElgamalSecretKey::new(Scalar::random(&mut rng));
    let (p1, p2) = (k1.get_public_key(&gens), k2.get_public_key(&gens));
    let w = CommitmentWitness::new(17, Scalar::random(&mut rng));
    let (c1, c2) = encrypt_using_two_pub_keys(&gens, &w, &p1, &p2);
    let prover = EncryptingSameValueProverAwaitingChallenge { pub_key1: p1, pub_key2: p2, w };
    let (m, f) = prove_encrypting_same_value(&prover, &gens, &mut rng).unwrap();
    let m2 = EncryptingSameValueInitialMessage::from_bytes(&m.to_bytes()).unwrap();
    let f2 = EncryptingSameValueFinalResponse::from_bytes(&f.to_bytes()).unwrap();
    let verifier = EncryptingSameValueVerifier { pub_key1: p1, pub_key2: p2, cipher1: c1, cipher2: c2 };
    assert!(verify_encrypting_same_value(&verifier, &gens, &m2, &f2).is_ok());
    let (_, other) = p2.encrypt_value(&gens, 18, &mut rng);
    let wrong = EncryptingSameValueVerifier { pub_key1: p1, pub_key2: p2, cipher1: c1, cipher2: other };
    assert!(verify_encrypting_same_value(&wrong, &gens, &m2, &f2).is_err());

    let refreshed = k1.refresh(&gens, &c1, &Scalar::random(&mut rng));
    let rprover = CipherTextRefreshmentProverAwaitingChallenge::new(k1, c1, refreshed);
    let (rm, rz) = prove_refreshment(&rprover, &gens, &mut rng).unwrap();
    let rm2 = CipherTextRefreshmentInitialMessage::from_bytes(&rm.to_bytes()).unwrap();
    let rverifier = CipherTextRefreshmentVerifier::new(p1, c1, refreshed);
    assert!(verify_refreshment(&rverifier, &gens, &rm2, &rz).is_ok());
    let (_, unrelated) = p1.encrypt_value(&gens, 99, &mut rng);
    let bad = CipherTextRefreshmentVerifier::new(p1, c1, unrelated);
    assert_eq!(
        *verify_refreshment(&bad, &gens, &rm2, &rz).unwrap_err().kind(),
        ErrorKind::CiphertextRefreshmentFinalResponseVerificationError { check: 1 }
    );
}
