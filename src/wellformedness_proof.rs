//! The proof that a cipher text is well formed: its author knows the value and blinding.

use vstd::prelude::*;
use vstd::string::StringSliceAdditionalSpecFns;
use crate::elgamal::{CipherText, CommitmentWitness, ElgamalPublicKey};
use crate::errors::{err_of, ErrorKind, Fallible};
use crate::group::{
    identity_bytes, is_canonical_scalar, is_valid_point, point_add_of, point_mul_of,
    scalar_add_of, scalar_mul_of, u32_scalar_bytes, PedersenBases, Point, Scalar,
};
use crate::transcript::{
    challenge_scalar_of, err_of_spec, random_scalar, ProofTranscript, TranscriptEntry,
    ZKPChallenge, DOM_SEP_LABEL,
};

verus! {

/// The domain label of the wellformedness proof's transcript.
pub const WELLFORMEDNESS_PROOF_FINAL_RESPONSE_LABEL: &'static str = "PolymathWellformednessFinalResponse";

/// The domain label of the wellformedness proof's challenge.
pub const WELLFORMEDNESS_PROOF_CHALLENGE_LABEL: &'static str = "PolymathWellformednessProofChallenge";

/// The labels of this proof fit merlin's 32-bit length framing.
proof fn lemma_labels_short()
    ensures
        crate::transcript::short_str(WELLFORMEDNESS_PROOF_FINAL_RESPONSE_LABEL),
        crate::transcript::short_str(WELLFORMEDNESS_PROOF_CHALLENGE_LABEL),
{
    broadcast use vstd::string::is_ascii_spec_bytes;

    reveal_strlit("PolymathWellformednessFinalResponse");
    reveal_strlit("PolymathWellformednessProofChallenge");
    assert(vstd::string::is_ascii(WELLFORMEDNESS_PROOF_FINAL_RESPONSE_LABEL));
    assert(vstd::string::is_ascii(WELLFORMEDNESS_PROOF_CHALLENGE_LABEL));
}


/// The final response: `z1 = α + c·r` and `z2 = β + c·v`.
#[derive(Clone, Copy, Debug)]
pub struct WellformednessFinalResponse {
    pub z1: Scalar,
    pub z2: Scalar,
}

/// The first message: `a = α·P` and `b = α·H + β·G`.
#[derive(Clone, Copy, Debug)]
pub struct WellformednessInitialMessage {
    pub a: Point,
    pub b: Point,
}

/// What the initial message appends to a transcript when neither point is the identity.
pub open spec fn wellformedness_entries(m: WellformednessInitialMessage) -> Seq<TranscriptEntry> {
    seq![
        TranscriptEntry::Message(DOM_SEP_LABEL@, WELLFORMEDNESS_PROOF_CHALLENGE_LABEL.spec_bytes()),
        TranscriptEntry::Message("A"@, m.a@),
        TranscriptEntry::Message("B"@, m.b@),
    ]
}

/// The challenge that the non-interactive proof derives from an initial message.
pub open spec fn wellformedness_challenge(m: WellformednessInitialMessage) -> Seq<u8> {
    challenge_scalar_of(
        seq![TranscriptEntry::Start(WELLFORMEDNESS_PROOF_FINAL_RESPONSE_LABEL@)] + wellformedness_entries(m),
        WELLFORMEDNESS_PROOF_CHALLENGE_LABEL@,
    )
}

impl WellformednessInitialMessage {
    pub open spec fn wf(&self) -> bool {
        self.a.wf() && self.b.wf()
    }


    /// Appends the domain separator and both points; fails on an identity point.
    pub fn update_transcript(&self, transcript: &mut ProofTranscript) -> (r: Fallible<()>)
        ensures
            self.a@ == identity_bytes() || self.b@ == identity_bytes() ==> r == Err::<(), crate::errors::Error>(err_of_spec(ErrorKind::VerificationError)),
            self.a@ != identity_bytes() && self.b@ != identity_bytes() ==> r.is_ok()
                && final(transcript).log_of() == old(transcript).log_of() + wellformedness_entries(*self),
    {
        proof {
            lemma_labels_short();
        }
        transcript.append_domain_separator(WELLFORMEDNESS_PROOF_CHALLENGE_LABEL);
        transcript.append_validated_point("A", &self.a)?;
        transcript.append_validated_point("B", &self.b)?;
        assert(final(transcript).log_of() =~= old(transcript).log_of() + wellformedness_entries(*self));
        Ok(())
    }

    /// The 64-byte encoding: `a` then `b`.
    pub fn to_bytes(&self) -> (r: Vec<u8>)
        ensures
            r@ == self.a@ + self.b@,
    {
        let mut r: Vec<u8> = Vec::new();
        crate::codec::push_array(&mut r, &self.a.bytes);
        crate::codec::push_array(&mut r, &self.b.bytes);
        r
    }

    /// Decodes 64 bytes of two valid points.
    pub fn from_bytes(b: &[u8]) -> (r: Option<WellformednessInitialMessage>)
        ensures
            r.is_some() <==> b@.len() == 64 && is_valid_point(b@.subrange(0, 32))
                && is_valid_point(b@.subrange(32, 64)),
            r.is_some() ==> r.unwrap().wf() && r.unwrap().a@ == b@.subrange(0, 32)
                && r.unwrap().b@ == b@.subrange(32, 64),
    {
        if b.len() != 64 {
            return None;
        }
        let a = Point::from_bytes(crate::codec::read_array(b, 0));
        let bb = Point::from_bytes(crate::codec::read_array(b, 32));
        match (a, bb) {
            (Some(a), Some(bb)) => Some(WellformednessInitialMessage { a, b: bb }),
            _ => None,
        }
    }
}

impl WellformednessFinalResponse {
    pub open spec fn wf(&self) -> bool {
        self.z1.wf() && self.z2.wf()
    }

    /// The 64-byte encoding: `z1` then `z2`.
    pub fn to_bytes(&self) -> (r: Vec<u8>)
        ensures
            r@ == self.z1@ + self.z2@,
    {
        let mut r: Vec<u8> = Vec::new();
        crate::codec::push_array(&mut r, &self.z1.bytes);
        crate::codec::push_array(&mut r, &self.z2.bytes);
        r
    }

    /// Decodes 64 bytes of two canonical scalars.
    pub fn from_bytes(b: &[u8]) -> (r: Option<WellformednessFinalResponse>)
        ensures
            r.is_some() <==> b@.len() == 64 && is_canonical_scalar(b@.subrange(0, 32))
                && is_canonical_scalar(b@.subrange(32, 64)),
            r.is_some() ==> r.unwrap().wf() && r.unwrap().z1@ == b@.subrange(0, 32)
                && r.unwrap().z2@ == b@.subrange(32, 64),
    {
        if b.len() != 64 {
            return None;
        }
        let z1 = Scalar::from_bytes(crate::codec::read_array(b, 0));
        let z2 = Scalar::from_bytes(crate::codec::read_array(b, 32));
        match (z1, z2) {
            (Some(z1), Some(z2)) => Some(WellformednessFinalResponse { z1, z2 }),
            _ => None,
        }
    }
}

impl Default for WellformednessInitialMessage {
    /// A message with the base point in both places, useful as a wrong message.
    fn default() -> (r: WellformednessInitialMessage)
        ensures
            r.wf(),
            r.a == r.b,
    {
        let b = Point::basepoint();
        WellformednessInitialMessage { a: b, b }
    }
}

/// The prover before the challenge.
pub struct WellformednessProverAwaitingChallenge {
    pub pub_key: ElgamalPublicKey,
    pub w: CommitmentWitness,
}

/// The prover after the first round: the witness and the random `α`, `β`.
pub struct WellformednessProver {
    pub w: CommitmentWitness,
    pub rand_a: Scalar,
    pub rand_b: Scalar,
}

impl WellformednessProverAwaitingChallenge {
    pub open spec fn wf(&self) -> bool {
        self.pub_key.wf() && self.w.wf()
    }

    /// A generator keyed by the transcript, the witness and 32 bytes of `rng`.
    pub fn create_transcript_rng(&self, rng: &mut rand::rngs::StdRng, transcript: &ProofTranscript) -> merlin::TranscriptRng {
        let value_bytes = Scalar::from_u32(self.w.value).to_bytes();
        let blinding_bytes = self.w.blinding.to_bytes();
        transcript.witness_rng("value", &value_bytes, "blinding", &blinding_bytes, rng)
    }

    /// Draws `α`, `β` and commits: `a = α·P`, `b = α·H + β·G`.
    pub fn generate_initial_message(&self, gens: &PedersenBases, rng: &mut merlin::TranscriptRng) -> (r: (WellformednessProver, WellformednessInitialMessage))
        requires
            gens.wf(),
            self.wf(),
        ensures
            r.0.w == self.w,
            r.0.wf(),
            r.1.wf(),
            r.1.a@ == point_mul_of(r.0.rand_a@, self.pub_key.pub_key@),
            r.1.b@ == point_add_of(point_mul_of(r.0.rand_a@, gens.b_blinding@), point_mul_of(r.0.rand_b@, gens.b@)),
    {
        let rand_a = random_scalar(rng);
        let rand_b = random_scalar(rng);
        (
            WellformednessProver { w: self.w, rand_a, rand_b },
            WellformednessInitialMessage {
                a: self.pub_key.pub_key.mul(&rand_a),
                b: gens.b_blinding.mul(&rand_a).add(&gens.b.mul(&rand_b)),
            },
        )
    }
}

impl WellformednessProver {
    pub open spec fn wf(&self) -> bool {
        self.w.wf() && self.rand_a.wf() && self.rand_b.wf()
    }

    /// Overwrites the witness and the random `α`, `β` with zeros.
    pub fn zeroize(&mut self)
        ensures
            final(self).w.value == 0,
            final(self).w.blinding@ == u32_scalar_bytes(0),
            final(self).rand_a@ == u32_scalar_bytes(0),
            final(self).rand_b@ == u32_scalar_bytes(0),
    {
        self.w.zeroize();
        self.rand_a = Scalar::zero();
        self.rand_b = Scalar::zero();
    }

    /// The responses `z1 = α + c·r` and `z2 = β + c·v`.
    pub fn apply_challenge(&self, c: &ZKPChallenge) -> (r: WellformednessFinalResponse)
        requires
            self.wf(),
            c.wf(),
        ensures
            r.wf(),
            r.z1@ == scalar_add_of(self.rand_a@, scalar_mul_of(c.x@, self.w.blinding@)),
            r.z2@ == scalar_add_of(self.rand_b@, scalar_mul_of(c.x@, u32_scalar_bytes(self.w.value))),
    {
        WellformednessFinalResponse {
            z1: self.rand_a.add(&c.x().mul(self.w.blinding())),
            z2: self.rand_b.add(&c.x().mul(&Scalar::from_u32(self.w.value))),
        }
    }
}

/// The verifier: the public key and the cipher text.
pub struct WellformednessVerifier {
    pub pub_key: ElgamalPublicKey,
    pub cipher: CipherText,
}

/// The first equation: `z1·P == a + c·x`.
pub open spec fn wellformedness_check1(v: WellformednessVerifier, c: Seq<u8>, m: WellformednessInitialMessage, f: WellformednessFinalResponse) -> bool {
    point_mul_of(f.z1@, v.pub_key.pub_key@) == point_add_of(m.a@, point_mul_of(c, v.cipher.x@))
}

/// The second equation: `z1·H + z2·G == b + c·y`.
pub open spec fn wellformedness_check2(v: WellformednessVerifier, gens: PedersenBases, c: Seq<u8>, m: WellformednessInitialMessage, f: WellformednessFinalResponse) -> bool {
    point_add_of(point_mul_of(f.z1@, gens.b_blinding@), point_mul_of(f.z2@, gens.b@))
        == point_add_of(m.b@, point_mul_of(c, v.cipher.y@))
}

/// The verdict on a challenge, an initial message and a response.
pub open spec fn wellformedness_verdict(v: WellformednessVerifier, gens: PedersenBases, c: Seq<u8>, m: WellformednessInitialMessage, f: WellformednessFinalResponse) -> Fallible<()> {
    if !wellformedness_check1(v, c, m, f) {
        Err(err_of_spec(ErrorKind::WellformednessFinalResponseVerificationError { check: 1 }))
    } else if !wellformedness_check2(v, gens, c, m, f) {
        Err(err_of_spec(ErrorKind::WellformednessFinalResponseVerificationError { check: 2 }))
    } else {
        Ok(())
    }
}

impl WellformednessVerifier {
    pub open spec fn wf(&self) -> bool {
        self.pub_key.wf() && self.cipher.wf()
    }

    /// Checks both equations, in order.
    pub fn verify(&self, gens: &PedersenBases, challenge: &ZKPChallenge, initial_message: &WellformednessInitialMessage, response: &WellformednessFinalResponse) -> (r: Fallible<()>)
        requires
            gens.wf(),
            self.wf(),
            challenge.wf(),
            initial_message.wf(),
            response.wf(),
        ensures
            r == wellformedness_verdict(*self, *gens, challenge.x@, *initial_message, *response),
    {
        let lhs1 = self.pub_key.pub_key.mul(&response.z1);
        let rhs1 = initial_message.a.add(&self.cipher.x.mul(challenge.x()));
        if !lhs1.equals(&rhs1) {
            return Err(err_of(ErrorKind::WellformednessFinalResponseVerificationError { check: 1 }));
        }
        let lhs2 = gens.b_blinding.mul(&response.z1).add(&gens.b.mul(&response.z2));
        let rhs2 = initial_message.b.add(&self.cipher.y.mul(challenge.x()));
        if !lhs2.equals(&rhs2) {
            return Err(err_of(ErrorKind::WellformednessFinalResponseVerificationError { check: 2 }));
        }
        Ok(())
    }
}

/// The verdict of the non-interactive verifier on a proof.
pub open spec fn wellformedness_proof_verdict(v: WellformednessVerifier, gens: PedersenBases, m: WellformednessInitialMessage, f: WellformednessFinalResponse) -> Fallible<()> {
    if m.a@ == identity_bytes() || m.b@ == identity_bytes() || wellformedness_challenge(m) == u32_scalar_bytes(0) {
        Err(err_of_spec(ErrorKind::VerificationError))
    } else {
        wellformedness_verdict(v, gens, wellformedness_challenge(m), m, f)
    }
}

/// `(m, f)` is the proof that an honest prover with nonces `ra`, `rb` produces for the
/// witness `w` under the key `pk`.
pub open spec fn wellformedness_proof_from(pk: ElgamalPublicKey, gens: PedersenBases, w: CommitmentWitness, ra: Seq<u8>, rb: Seq<u8>, m: WellformednessInitialMessage, f: WellformednessFinalResponse) -> bool {
    &&& m.a@ == point_mul_of(ra, pk.pub_key@)
    &&& m.b@ == point_add_of(point_mul_of(ra, gens.b_blinding@), point_mul_of(rb, gens.b@))
    &&& f.z1@ == scalar_add_of(ra, scalar_mul_of(wellformedness_challenge(m), w.blinding@))
    &&& f.z2@ == scalar_add_of(rb, scalar_mul_of(wellformedness_challenge(m), u32_scalar_bytes(w.value)))
}

/// Two honest provers on the same statement and witness whose witness-keyed generators
/// give the same nonces produce byte-identical proofs.
pub proof fn lemma_wellformedness_deterministic(
    pk: ElgamalPublicKey,
    gens: PedersenBases,
    w: CommitmentWitness,
    ra: Seq<u8>,
    rb: Seq<u8>,
    m1: WellformednessInitialMessage,
    f1: WellformednessFinalResponse,
    m2: WellformednessInitialMessage,
    f2: WellformednessFinalResponse,
)
    requires
        wellformedness_proof_from(pk, gens, w, ra, rb, m1, f1),
        wellformedness_proof_from(pk, gens, w, ra, rb, m2, f2),
    ensures
        m1.a@ + m1.b@ == m2.a@ + m2.b@,
        f1.z1@ + f1.z2@ == f2.z1@ + f2.z2@,
{
    assert(wellformedness_entries(m1) =~= wellformedness_entries(m2));
}

/// Produces a non-interactive wellformedness proof.
pub fn prove_wellformedness(prover: &WellformednessProverAwaitingChallenge, gens: &PedersenBases, rng: &mut rand::rngs::StdRng) -> (r: Fallible<(WellformednessInitialMessage, WellformednessFinalResponse)>)
    requires
        gens.wf(),
        prover.wf(),
    ensures
        r.is_ok() ==> ({
            let (m, f) = r.unwrap();
            &&& m.wf()
            &&& f.wf()
            &&& m.a@ != identity_bytes() && m.b@ != identity_bytes()
            &&& wellformedness_challenge(m) != u32_scalar_bytes(0)
            &&& exists|ra: Seq<u8>, rb: Seq<u8>| wellformedness_proof_from(prover.pub_key, *gens, prover.w, ra, rb, m, f)
        }),
        r.is_err() ==> r == Err::<(WellformednessInitialMessage, WellformednessFinalResponse), crate::errors::Error>(err_of_spec(ErrorKind::VerificationError)),
{
    proof {
        lemma_labels_short();
    }
    let mut transcript = ProofTranscript::new(WELLFORMEDNESS_PROOF_FINAL_RESPONSE_LABEL);
    let mut trng = prover.create_transcript_rng(rng, &transcript);
    let (p, m) = prover.generate_initial_message(gens, &mut trng);
    m.update_transcript(&mut transcript)?;
    assert(transcript.log_of() =~= seq![TranscriptEntry::Start(WELLFORMEDNESS_PROOF_FINAL_RESPONSE_LABEL@)] + wellformedness_entries(m));
    let c = transcript.scalar_challenge(WELLFORMEDNESS_PROOF_CHALLENGE_LABEL)?;
    let f = p.apply_challenge(&c);
    assert(wellformedness_proof_from(prover.pub_key, *gens, prover.w, p.rand_a@, p.rand_b@, m, f));
    Ok((m, f))
}

/// Verifies a non-interactive wellformedness proof.
pub fn verify_wellformedness(verifier: &WellformednessVerifier, gens: &PedersenBases, m: &WellformednessInitialMessage, f: &WellformednessFinalResponse) -> (r: Fallible<()>)
    requires
        gens.wf(),
        verifier.wf(),
        m.wf(),
        f.wf(),
    ensures
        r == wellformedness_proof_verdict(*verifier, *gens, *m, *f),
{
    proof {
        lemma_labels_short();
    }
    let mut transcript = ProofTranscript::new(WELLFORMEDNESS_PROOF_FINAL_RESPONSE_LABEL);
    m.update_transcript(&mut transcript)?;
    assert(transcript.log_of() =~= seq![TranscriptEntry::Start(WELLFORMEDNESS_PROOF_FINAL_RESPONSE_LABEL@)] + wellformedness_entries(*m));
    let c = transcript.scalar_challenge(WELLFORMEDNESS_PROOF_CHALLENGE_LABEL)?;
    verifier.verify(gens, &c, m, f)
}

/// Decoding what `to_bytes` wrote gives back the same points and scalars, so a proof
/// verifies after a round trip through bytes exactly when it verified before.
pub proof fn lemma_wellformedness_round_trip(
    v: WellformednessVerifier,
    gens: PedersenBases,
    m: WellformednessInitialMessage,
    f: WellformednessFinalResponse,
    m2: WellformednessInitialMessage,
    f2: WellformednessFinalResponse,
)
    requires
        m.wf(),
        f.wf(),
        m2.a@ == (m.a@ + m.b@).subrange(0, 32),
        m2.b@ == (m.a@ + m.b@).subrange(32, 64),
        f2.z1@ == (f.z1@ + f.z2@).subrange(0, 32),
        f2.z2@ == (f.z1@ + f.z2@).subrange(32, 64),
    ensures
        m2.a@ == m.a@,
        m2.b@ == m.b@,
        f2.z1@ == f.z1@,
        f2.z2@ == f.z2@,
        wellformedness_proof_verdict(v, gens, m2, f2) == wellformedness_proof_verdict(v, gens, m, f),
{
    assert(m.a@.len() == 32 && m.b@.len() == 32);
    assert(f.z1@.len() == 32 && f.z2@.len() == 32);
    assert((m.a@ + m.b@).subrange(0, 32) =~= m.a@);
    assert((m.a@ + m.b@).subrange(32, 64) =~= m.b@);
    assert((f.z1@ + f.z2@).subrange(0, 32) =~= f.z1@);
    assert((f.z1@ + f.z2@).subrange(32, 64) =~= f.z2@);
    assert(wellformedness_entries(m2) =~= wellformedness_entries(m));
}

} // verus!
