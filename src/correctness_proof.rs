//! The proof that a cipher text encrypts a given public value.

use vstd::prelude::*;
use vstd::string::StringSliceAdditionalSpecFns;
use crate::elgamal::{CipherText, CommitmentWitness, ElgamalPublicKey};
use crate::errors::{err_of, ErrorKind, Fallible};
use crate::group::{
    identity_bytes, point_add_of, point_mul_of, point_sub_of, scalar_add_of, scalar_mul_of,
    u32_scalar_bytes, PedersenBases, Point, Scalar,
};
use crate::transcript::{
    challenge_scalar_of, err_of_spec, random_scalar, ProofTranscript, TranscriptEntry,
    ZKPChallenge, DOM_SEP_LABEL,
};

verus! {

/// The domain label of the correctness proof's transcript.
pub const CORRECTNESS_PROOF_FINAL_RESPONSE_LABEL: &'static str = "PolymathCorrectnessFinalResponse";

/// The domain label of the correctness proof's challenge.
pub const CORRECTNESS_PROOF_CHALLENGE_LABEL: &'static str = "PolymathCorrectnessChallenge";

/// The labels of this proof fit merlin's 32-bit length framing.
proof fn lemma_labels_short()
    ensures
        crate::transcript::short_str(CORRECTNESS_PROOF_FINAL_RESPONSE_LABEL),
        crate::transcript::short_str(CORRECTNESS_PROOF_CHALLENGE_LABEL),
{
    broadcast use vstd::string::is_ascii_spec_bytes;

    reveal_strlit("PolymathCorrectnessFinalResponse");
    reveal_strlit("PolymathCorrectnessChallenge");
    assert(vstd::string::is_ascii(CORRECTNESS_PROOF_FINAL_RESPONSE_LABEL));
    assert(vstd::string::is_ascii(CORRECTNESS_PROOF_CHALLENGE_LABEL));
}


/// The final response of the correctness proof.
pub type CorrectnessFinalResponse = Scalar;

/// The first message of the correctness proof: `a = u·P` and `b = u·H`.
#[derive(Clone, Copy, Debug)]
pub struct CorrectnessInitialMessage {
    pub a: Point,
    pub b: Point,
}

/// What the initial message appends to a transcript when neither point is the identity.
pub open spec fn correctness_entries(m: CorrectnessInitialMessage) -> Seq<TranscriptEntry> {
    seq![
        TranscriptEntry::Message(DOM_SEP_LABEL@, CORRECTNESS_PROOF_CHALLENGE_LABEL.spec_bytes()),
        TranscriptEntry::Message("A"@, m.a@),
        TranscriptEntry::Message("B"@, m.b@),
    ]
}

/// The challenge that the non-interactive proof derives from an initial message.
pub open spec fn correctness_challenge(m: CorrectnessInitialMessage) -> Seq<u8> {
    challenge_scalar_of(
        seq![TranscriptEntry::Start(CORRECTNESS_PROOF_FINAL_RESPONSE_LABEL@)] + correctness_entries(m),
        CORRECTNESS_PROOF_CHALLENGE_LABEL@,
    )
}

impl CorrectnessInitialMessage {
    pub open spec fn wf(&self) -> bool {
        self.a.wf() && self.b.wf()
    }


    /// Appends the domain separator and both points; fails on an identity point.
    pub fn update_transcript(&self, transcript: &mut ProofTranscript) -> (r: Fallible<()>)
        ensures
            self.a@ == identity_bytes() || self.b@ == identity_bytes() ==> r == Err::<(), crate::errors::Error>(err_of_spec(ErrorKind::VerificationError)),
            self.a@ != identity_bytes() && self.b@ != identity_bytes() ==> r.is_ok()
                && final(transcript).log_of() == old(transcript).log_of() + correctness_entries(*self),
    {
        proof {
            lemma_labels_short();
        }
        transcript.append_domain_separator(CORRECTNESS_PROOF_CHALLENGE_LABEL);
        transcript.append_validated_point("A", &self.a)?;
        transcript.append_validated_point("B", &self.b)?;
        assert(final(transcript).log_of() =~= old(transcript).log_of() + correctness_entries(*self));
        Ok(())
    }

    /// The 64-byte encoding: `a` then `b`.
    pub fn to_bytes(&self) -> (r: Vec<u8>)
        ensures
            r@ == self.a@ + self.b@,
    {
        let mut r: Vec<u8> = Vec::new();
        crate::codec::push_array(&mut r, &self.a.bytes);
        crate::codec::push_array(&mut r, &self.b.bytes);
        r
    }

    /// Decodes 64 bytes of two valid points.
    pub fn from_bytes(b: &[u8]) -> (r: Option<CorrectnessInitialMessage>)
        ensures
            r.is_some() <==> b@.len() == 64 && crate::group::is_valid_point(b@.subrange(0, 32))
                && crate::group::is_valid_point(b@.subrange(32, 64)),
            r.is_some() ==> r.unwrap().wf() && r.unwrap().a@ == b@.subrange(0, 32)
                && r.unwrap().b@ == b@.subrange(32, 64),
    {
        if b.len() != 64 {
            return None;
        }
        let a = Point::from_bytes(crate::codec::read_array(b, 0));
        let bb = Point::from_bytes(crate::codec::read_array(b, 32));
        match (a, bb) {
            (Some(a), Some(bb)) => Some(CorrectnessInitialMessage { a, b: bb }),
            _ => None,
        }
    }
}

impl Default for CorrectnessInitialMessage {
    /// A message with the base point in both places, useful as a wrong message.
    fn default() -> (r: CorrectnessInitialMessage)
        ensures
            r.wf(),
            r.a == r.b,
    {
        let b = Point::basepoint();
        CorrectnessInitialMessage { a: b, b }
    }
}

/// The prover before the challenge: the public key and the secret witness.
pub struct CorrectnessProverAwaitingChallenge {
    pub pub_key: ElgamalPublicKey,
    pub w: CommitmentWitness,
}

/// The prover after the first round: the witness and its random `u`.
pub struct CorrectnessProver {
    pub w: CommitmentWitness,
    pub u: Scalar,
}

impl CorrectnessProverAwaitingChallenge {
    pub open spec fn wf(&self) -> bool {
        self.pub_key.wf() && self.w.wf()
    }

    /// Overwrites the witness with zeros.
    pub fn zeroize(&mut self)
        ensures
            final(self).w.value == 0,
            final(self).w.blinding@ == u32_scalar_bytes(0),
            final(self).pub_key == old(self).pub_key,
    {
        self.w.zeroize();
    }

    pub fn new(pub_key: &ElgamalPublicKey, w: &CommitmentWitness) -> (r: CorrectnessProverAwaitingChallenge)
        ensures
            r.pub_key == *pub_key,
            r.w == *w,
    {
        CorrectnessProverAwaitingChallenge { pub_key: *pub_key, w: *w }
    }

    /// A generator keyed by the transcript, the witness and 32 bytes of `rng`.
    pub fn create_transcript_rng(&self, rng: &mut rand::rngs::StdRng, transcript: &ProofTranscript) -> merlin::TranscriptRng {
        let value_bytes = Scalar::from_u32(self.w.value).to_bytes();
        let blinding_bytes = self.w.blinding.to_bytes();
        transcript.witness_rng("value", &value_bytes, "blinding", &blinding_bytes, rng)
    }

    /// Draws `u` and commits to it: `a = u·P`, `b = u·H`.
    pub fn generate_initial_message(&self, gens: &PedersenBases, rng: &mut merlin::TranscriptRng) -> (r: (CorrectnessProver, CorrectnessInitialMessage))
        requires
            gens.wf(),
            self.wf(),
        ensures
            r.0.w == self.w,
            r.0.u.wf(),
            r.1.wf(),
            r.1.a@ == point_mul_of(r.0.u@, self.pub_key.pub_key@),
            r.1.b@ == point_mul_of(r.0.u@, gens.b_blinding@),
    {
        let u = random_scalar(rng);
        (
            CorrectnessProver { w: self.w, u },
            CorrectnessInitialMessage { a: self.pub_key.pub_key.mul(&u), b: gens.b_blinding.mul(&u) },
        )
    }
}

impl CorrectnessProver {
    pub open spec fn wf(&self) -> bool {
        self.w.wf() && self.u.wf()
    }

    /// Overwrites the witness and the random `u` with zeros.
    pub fn zeroize(&mut self)
        ensures
            final(self).w.value == 0,
            final(self).w.blinding@ == u32_scalar_bytes(0),
            final(self).u@ == u32_scalar_bytes(0),
    {
        self.w.zeroize();
        self.u = Scalar::zero();
    }

    /// The response `z = u + c·r`.
    pub fn apply_challenge(&self, c: &ZKPChallenge) -> (r: CorrectnessFinalResponse)
        requires
            self.wf(),
            c.wf(),
        ensures
            r.wf(),
            r@ == scalar_add_of(self.u@, scalar_mul_of(c.x@, self.w.blinding@)),
    {
        self.u.add(&c.x().mul(self.w.blinding()))
    }
}

/// The verifier: the public value, the public key and the cipher text.
pub struct CorrectnessVerifier {
    pub value: u32,
    pub pub_key: ElgamalPublicKey,
    pub cipher: CipherText,
}

/// The first equation: `z·P == a + c·x`.
pub open spec fn correctness_check1(v: CorrectnessVerifier, c: Seq<u8>, m: CorrectnessInitialMessage, z: Seq<u8>) -> bool {
    point_mul_of(z, v.pub_key.pub_key@) == point_add_of(m.a@, point_mul_of(c, v.cipher.x@))
}

/// The second equation: `z·H == b + c·(y − value·G)`.
pub open spec fn correctness_check2(v: CorrectnessVerifier, gens: PedersenBases, c: Seq<u8>, m: CorrectnessInitialMessage, z: Seq<u8>) -> bool {
    point_mul_of(z, gens.b_blinding@) == point_add_of(
        m.b@,
        point_mul_of(c, point_sub_of(v.cipher.y@, point_mul_of(u32_scalar_bytes(v.value), gens.b@))),
    )
}

/// The verdict on a challenge, an initial message and a response.
pub open spec fn correctness_verdict(v: CorrectnessVerifier, gens: PedersenBases, c: Seq<u8>, m: CorrectnessInitialMessage, z: Seq<u8>) -> Fallible<()> {
    if !correctness_check1(v, c, m, z) {
        Err(err_of_spec(ErrorKind::CorrectnessFinalResponseVerificationError { check: 1 }))
    } else if !correctness_check2(v, gens, c, m, z) {
        Err(err_of_spec(ErrorKind::CorrectnessFinalResponseVerificationError { check: 2 }))
    } else {
        Ok(())
    }
}

impl CorrectnessVerifier {
    pub open spec fn wf(&self) -> bool {
        self.pub_key.wf() && self.cipher.wf()
    }

    pub fn new(value: &u32, pub_key: &ElgamalPublicKey, cipher: &CipherText) -> (r: CorrectnessVerifier)
        ensures
            r.value == *value,
            r.pub_key == *pub_key,
            r.cipher == *cipher,
    {
        CorrectnessVerifier { value: *value, pub_key: *pub_key, cipher: *cipher }
    }

    /// Checks both equations, in order.
    pub fn verify(&self, gens: &PedersenBases, challenge: &ZKPChallenge, initial_message: &CorrectnessInitialMessage, z: &CorrectnessFinalResponse) -> (r: Fallible<()>)
        requires
            gens.wf(),
            self.wf(),
            challenge.wf(),
            initial_message.wf(),
            z.wf(),
        ensures
            r == correctness_verdict(*self, *gens, challenge.x@, *initial_message, z@),
    {
        let y_prime = self.cipher.y.sub(&gens.b.mul(&Scalar::from_u32(self.value)));
        let lhs1 = self.pub_key.pub_key.mul(z);
        let rhs1 = initial_message.a.add(&self.cipher.x.mul(challenge.x()));
        if !lhs1.equals(&rhs1) {
            return Err(err_of(ErrorKind::CorrectnessFinalResponseVerificationError { check: 1 }));
        }
        let lhs2 = gens.b_blinding.mul(z);
        let rhs2 = initial_message.b.add(&y_prime.mul(challenge.x()));
        if !lhs2.equals(&rhs2) {
            return Err(err_of(ErrorKind::CorrectnessFinalResponseVerificationError { check: 2 }));
        }
        Ok(())
    }
}

/// The verdict of the non-interactive verifier on a proof.
pub open spec fn correctness_proof_verdict(v: CorrectnessVerifier, gens: PedersenBases, m: CorrectnessInitialMessage, z: Seq<u8>) -> Fallible<()> {
    if m.a@ == identity_bytes() || m.b@ == identity_bytes() || correctness_challenge(m) == u32_scalar_bytes(0) {
        Err(err_of_spec(ErrorKind::VerificationError))
    } else {
        correctness_verdict(v, gens, correctness_challenge(m), m, z)
    }
}

/// `(m, z)` is the proof that an honest prover with nonce `u` produces for the witness `w`
/// under the key `pk`.
pub open spec fn correctness_proof_from(pk: ElgamalPublicKey, gens: PedersenBases, w: CommitmentWitness, u: Seq<u8>, m: CorrectnessInitialMessage, z: Seq<u8>) -> bool {
    &&& m.a@ == point_mul_of(u, pk.pub_key@)
    &&& m.b@ == point_mul_of(u, gens.b_blinding@)
    &&& z == scalar_add_of(u, scalar_mul_of(correctness_challenge(m), w.blinding@))
}

/// Two honest provers on the same statement and witness whose witness-keyed generators
/// give the same nonce produce byte-identical proofs.
pub proof fn lemma_correctness_deterministic(
    pk: ElgamalPublicKey,
    gens: PedersenBases,
    w: CommitmentWitness,
    u: Seq<u8>,
    m1: CorrectnessInitialMessage,
    z1: Seq<u8>,
    m2: CorrectnessInitialMessage,
    z2: Seq<u8>,
)
    requires
        correctness_proof_from(pk, gens, w, u, m1, z1),
        correctness_proof_from(pk, gens, w, u, m2, z2),
    ensures
        m1.a@ + m1.b@ == m2.a@ + m2.b@,
        z1 == z2,
{
    assert(correctness_entries(m1) =~= correctness_entries(m2));
}

/// Produces a non-interactive correctness proof: the challenge comes from a transcript over
/// the initial message, and the nonce from a generator keyed by the witness and `rng`.
pub fn prove_correctness(prover: &CorrectnessProverAwaitingChallenge, gens: &PedersenBases, rng: &mut rand::rngs::StdRng) -> (r: Fallible<(CorrectnessInitialMessage, CorrectnessFinalResponse)>)
    requires
        gens.wf(),
        prover.wf(),
    ensures
        r.is_ok() ==> ({
            let (m, z) = r.unwrap();
            &&& m.wf()
            &&& z.wf()
            &&& m.a@ != identity_bytes() && m.b@ != identity_bytes()
            &&& correctness_challenge(m) != u32_scalar_bytes(0)
            &&& exists|u: Seq<u8>| correctness_proof_from(prover.pub_key, *gens, prover.w, u, m, z@)
        }),
        r.is_err() ==> r == Err::<(CorrectnessInitialMessage, CorrectnessFinalResponse), crate::errors::Error>(err_of_spec(ErrorKind::VerificationError)),
{
    proof {
        lemma_labels_short();
    }
    let mut transcript = ProofTranscript::new(CORRECTNESS_PROOF_FINAL_RESPONSE_LABEL);
    let mut trng = prover.create_transcript_rng(rng, &transcript);
    let (p, m) = prover.generate_initial_message(gens, &mut trng);
    m.update_transcript(&mut transcript)?;
    assert(transcript.log_of() =~= seq![TranscriptEntry::Start(CORRECTNESS_PROOF_FINAL_RESPONSE_LABEL@)] + correctness_entries(m));
    let c = transcript.scalar_challenge(CORRECTNESS_PROOF_CHALLENGE_LABEL)?;
    let z = p.apply_challenge(&c);
    assert(correctness_proof_from(prover.pub_key, *gens, prover.w, p.u@, m, z@));
    Ok((m, z))
}

/// Verifies a non-interactive correctness proof: re-derives the challenge, then checks.
pub fn verify_correctness(verifier: &CorrectnessVerifier, gens: &PedersenBases, m: &CorrectnessInitialMessage, z: &CorrectnessFinalResponse) -> (r: Fallible<()>)
    requires
        gens.wf(),
        verifier.wf(),
        m.wf(),
        z.wf(),
    ensures
        r == correctness_proof_verdict(*verifier, *gens, *m, z@),
{
    proof {
        lemma_labels_short();
    }
    let mut transcript = ProofTranscript::new(CORRECTNESS_PROOF_FINAL_RESPONSE_LABEL);
    m.update_transcript(&mut transcript)?;
    assert(transcript.log_of() =~= seq![TranscriptEntry::Start(CORRECTNESS_PROOF_FINAL_RESPONSE_LABEL@)] + correctness_entries(*m));
    let c = transcript.scalar_challenge(CORRECTNESS_PROOF_CHALLENGE_LABEL)?;
    verifier.verify(gens, &c, m, z)
}

/// Decoding what `to_bytes` wrote gives back the same points, so a proof verifies after a
/// round trip through bytes exactly when it verified before.
pub proof fn lemma_correctness_round_trip(
    v: CorrectnessVerifier,
    gens: PedersenBases,
    m: CorrectnessInitialMessage,
    z: Scalar,
    m2: CorrectnessInitialMessage,
    z2: Scalar,
)
    requires
        m.wf(),
        m2.a@ == (m.a@ + m.b@).subrange(0, 32),
        m2.b@ == (m.a@ + m.b@).subrange(32, 64),
        z2@ == z@,
    ensures
        m2.a@ == m.a@,
        m2.b@ == m.b@,
        correctness_proof_verdict(v, gens, m2, z2@) == correctness_proof_verdict(v, gens, m, z@),
{
    assert(m.a@.len() == 32 && m.b@.len() == 32);
    assert((m.a@ + m.b@).subrange(0, 32) =~= m.a@);
    assert((m.a@ + m.b@).subrange(32, 64) =~= m.b@);
    assert(correctness_entries(m2) =~= correctness_entries(m));
}

} // verus!
