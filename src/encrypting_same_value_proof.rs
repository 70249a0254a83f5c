//! The proof that two cipher texts under two public keys encrypt the same value with the
//! same blinding.

use vstd::prelude::*;
use vstd::string::StringSliceAdditionalSpecFns;
use crate::elgamal::{CipherText, CommitmentWitness, ElgamalPublicKey};
use crate::errors::{err_of, ErrorKind, Fallible};
use crate::group::{
    identity_bytes, is_canonical_scalar, is_valid_point, point_add_of, point_mul_of, scalar_add_of, scalar_mul_of, u32_scalar_bytes,
    PedersenBases, Point, Scalar,
};
use crate::transcript::{
    challenge_scalar_of, err_of_spec, random_scalar, ProofTranscript, TranscriptEntry,
    ZKPChallenge, DOM_SEP_LABEL,
};

verus! {

/// The domain label of the proof's transcript.
pub const ENCRYPTING_SAME_VALUE_PROOF_FINAL_RESPONSE_LABEL: &'static str = "PolymathEncryptingSameValueFinalResponse";

/// The domain label of the proof's challenge.
pub const ENCRYPTING_SAME_VALUE_PROOF_CHALLENGE_LABEL: &'static str = "PolymathEncryptingSameValueChallenge";

/// The labels of this proof fit merlin's 32-bit length framing.
proof fn lemma_labels_short()
    ensures
        crate::transcript::short_str(ENCRYPTING_SAME_VALUE_PROOF_FINAL_RESPONSE_LABEL),
        crate::transcript::short_str(ENCRYPTING_SAME_VALUE_PROOF_CHALLENGE_LABEL),
{
    broadcast use vstd::string::is_ascii_spec_bytes;

    reveal_strlit("PolymathEncryptingSameValueFinalResponse");
    reveal_strlit("PolymathEncryptingSameValueChallenge");
    assert(vstd::string::is_ascii(ENCRYPTING_SAME_VALUE_PROOF_FINAL_RESPONSE_LABEL));
    assert(vstd::string::is_ascii(ENCRYPTING_SAME_VALUE_PROOF_CHALLENGE_LABEL));
}


/// The first message: `a1 = α·K1`, `a2 = α·K2`, `b = α·H + β·G`.
#[derive(Clone, Copy, Debug)]
pub struct EncryptingSameValueInitialMessage {
    pub a1: Point,
    pub a2: Point,
    pub b: Point,
}

/// The final response: `z1 = α + c·r`, `z2 = β + c·v`.
#[derive(Clone, Copy, Debug)]
pub struct EncryptingSameValueFinalResponse {
    pub z1: Scalar,
    pub z2: Scalar,
}

/// What the initial message appends to a transcript when no point is the identity.
pub open spec fn esv_entries(m: EncryptingSameValueInitialMessage) -> Seq<TranscriptEntry> {
    seq![
        TranscriptEntry::Message(DOM_SEP_LABEL@, ENCRYPTING_SAME_VALUE_PROOF_CHALLENGE_LABEL.spec_bytes()),
        TranscriptEntry::Message("A1"@, m.a1@),
        TranscriptEntry::Message("A2"@, m.a2@),
        TranscriptEntry::Message("B"@, m.b@),
    ]
}

/// The challenge that the non-interactive proof derives from an initial message.
pub open spec fn esv_challenge(m: EncryptingSameValueInitialMessage) -> Seq<u8> {
    challenge_scalar_of(
        seq![TranscriptEntry::Start(ENCRYPTING_SAME_VALUE_PROOF_FINAL_RESPONSE_LABEL@)] + esv_entries(m),
        ENCRYPTING_SAME_VALUE_PROOF_CHALLENGE_LABEL@,
    )
}

/// Some point of the message is the identity.
pub open spec fn esv_trivial(m: EncryptingSameValueInitialMessage) -> bool {
    m.a1@ == identity_bytes() || m.a2@ == identity_bytes() || m.b@ == identity_bytes()
}

impl EncryptingSameValueInitialMessage {
    pub open spec fn wf(&self) -> bool {
        self.a1.wf() && self.a2.wf() && self.b.wf()
    }

    /// Appends the domain separator and the three points; fails on an identity point.
    pub fn update_transcript(&self, transcript: &mut ProofTranscript) -> (r: Fallible<()>)
        ensures
            esv_trivial(*self) ==> r == Err::<(), crate::errors::Error>(err_of_spec(ErrorKind::VerificationError)),
            !esv_trivial(*self) ==> r.is_ok() && final(transcript).log_of() == old(transcript).log_of() + esv_entries(*self),
    {
        proof {
            lemma_labels_short();
        }
        transcript.append_domain_separator(ENCRYPTING_SAME_VALUE_PROOF_CHALLENGE_LABEL);
        transcript.append_validated_point("A1", &self.a1)?;
        transcript.append_validated_point("A2", &self.a2)?;
        transcript.append_validated_point("B", &self.b)?;
        assert(final(transcript).log_of() =~= old(transcript).log_of() + esv_entries(*self));
        Ok(())
    }

    /// The encoding: `a1`, `a2`, `b`.
    pub fn to_bytes(&self) -> (r: Vec<u8>)
        ensures
            r@ == self.a1@ + self.a2@ + self.b@,
    {
        let mut r: Vec<u8> = Vec::new();
        crate::codec::push_array(&mut r, &self.a1.bytes);
        crate::codec::push_array(&mut r, &self.a2.bytes);
        crate::codec::push_array(&mut r, &self.b.bytes);
        r
    }
}

impl EncryptingSameValueInitialMessage {
    /// Decodes 96 bytes of three valid points.
    pub fn from_bytes(b: &[u8]) -> (r: Option<EncryptingSameValueInitialMessage>)
        ensures
            r.is_some() <==> b@.len() == 96 && is_valid_point(b@.subrange(0, 32))
                && is_valid_point(b@.subrange(32, 64)) && is_valid_point(b@.subrange(64, 96)),
            r.is_some() ==> r.unwrap().wf() && r.unwrap().a1@ + r.unwrap().a2@ + r.unwrap().b@ == b@,
    {
        if b.len() != 96 {
            return None;
        }
        let a1 = Point::from_bytes(crate::codec::read_array(b, 0));
        let a2 = Point::from_bytes(crate::codec::read_array(b, 32));
        let bb = Point::from_bytes(crate::codec::read_array(b, 64));
        match (a1, a2, bb) {
            (Some(a1), Some(a2), Some(bb)) => {
                assert(a1@ + a2@ + bb@ =~= b@);
                Some(EncryptingSameValueInitialMessage { a1, a2, b: bb })
            },
            _ => None,
        }
    }
}

impl EncryptingSameValueFinalResponse {
    /// Decodes 64 bytes of two canonical scalars.
    pub fn from_bytes(b: &[u8]) -> (r: Option<EncryptingSameValueFinalResponse>)
        ensures
            r.is_some() <==> b@.len() == 64 && is_canonical_scalar(b@.subrange(0, 32))
                && is_canonical_scalar(b@.subrange(32, 64)),
            r.is_some() ==> r.unwrap().wf() && r.unwrap().z1@ + r.unwrap().z2@ == b@,
    {
        if b.len() != 64 {
            return None;
        }
        let z1 = Scalar::from_bytes(crate::codec::read_array(b, 0));
        let z2 = Scalar::from_bytes(crate::codec::read_array(b, 32));
        match (z1, z2) {
            (Some(z1), Some(z2)) => {
                assert(z1@ + z2@ =~= b@);
                Some(EncryptingSameValueFinalResponse { z1, z2 })
            },
            _ => None,
        }
    }

    pub open spec fn wf(&self) -> bool {
        self.z1.wf() && self.z2.wf()
    }

    /// The encoding: `z1`, `z2`.
    pub fn to_bytes(&self) -> (r: Vec<u8>)
        ensures
            r@ == self.z1@ + self.z2@,
    {
        let mut r: Vec<u8> = Vec::new();
        crate::codec::push_array(&mut r, &self.z1.bytes);
        crate::codec::push_array(&mut r, &self.z2.bytes);
        r
    }
}

/// The prover before the challenge: both public keys and the shared witness.
pub struct EncryptingSameValueProverAwaitingChallenge {
    pub pub_key1: ElgamalPublicKey,
    pub pub_key2: ElgamalPublicKey,
    pub w: CommitmentWitness,
}

/// The prover after the first round.
pub struct EncryptingSameValueProver {
    pub w: CommitmentWitness,
    pub alpha: Scalar,
    pub beta: Scalar,
}

impl EncryptingSameValueProverAwaitingChallenge {
    pub open spec fn wf(&self) -> bool {
        self.pub_key1.wf() && self.pub_key2.wf() && self.w.wf()
    }

    /// A generator keyed by the transcript, the witness and 32 bytes of `rng`.
    pub fn create_transcript_rng(&self, rng: &mut rand::rngs::StdRng, transcript: &ProofTranscript) -> merlin::TranscriptRng {
        let value_bytes = Scalar::from_u32(self.w.value).to_bytes();
        let blinding_bytes = self.w.blinding.to_bytes();
        transcript.witness_rng("value", &value_bytes, "blinding", &blinding_bytes, rng)
    }

    /// Draws `α`, `β` and commits to them.
    pub fn generate_initial_message(&self, gens: &PedersenBases, rng: &mut merlin::TranscriptRng) -> (r: (EncryptingSameValueProver, EncryptingSameValueInitialMessage))
        requires
            gens.wf(),
            self.wf(),
        ensures
            r.0.w == self.w,
            r.0.wf(),
            r.1.wf(),
            r.1.a1@ == point_mul_of(r.0.alpha@, self.pub_key1.pub_key@),
            r.1.a2@ == point_mul_of(r.0.alpha@, self.pub_key2.pub_key@),
            r.1.b@ == point_add_of(point_mul_of(r.0.alpha@, gens.b_blinding@), point_mul_of(r.0.beta@, gens.b@)),
    {
        let alpha = random_scalar(rng);
        let beta = random_scalar(rng);
        (
            EncryptingSameValueProver { w: self.w, alpha, beta },
            EncryptingSameValueInitialMessage {
                a1: self.pub_key1.pub_key.mul(&alpha),
                a2: self.pub_key2.pub_key.mul(&alpha),
                b: gens.b_blinding.mul(&alpha).add(&gens.b.mul(&beta)),
            },
        )
    }
}

impl EncryptingSameValueProver {
    pub open spec fn wf(&self) -> bool {
        self.w.wf() && self.alpha.wf() && self.beta.wf()
    }

    /// The responses `z1 = α + c·r`, `z2 = β + c·v`.
    pub fn apply_challenge(&self, c: &ZKPChallenge) -> (r: EncryptingSameValueFinalResponse)
        requires
            self.wf(),
            c.wf(),
        ensures
            r.wf(),
            r.z1@ == scalar_add_of(self.alpha@, scalar_mul_of(c.x@, self.w.blinding@)),
            r.z2@ == scalar_add_of(self.beta@, scalar_mul_of(c.x@, u32_scalar_bytes(self.w.value))),
    {
        EncryptingSameValueFinalResponse {
            z1: self.alpha.add(&c.x().mul(self.w.blinding())),
            z2: self.beta.add(&c.x().mul(&Scalar::from_u32(self.w.value))),
        }
    }
}

/// The verifier: both public keys and both cipher texts.
pub struct EncryptingSameValueVerifier {
    pub pub_key1: ElgamalPublicKey,
    pub pub_key2: ElgamalPublicKey,
    pub cipher1: CipherText,
    pub cipher2: CipherText,
}

/// `z1·K1 == a1 + c·x1`.
pub open spec fn esv_check1(v: EncryptingSameValueVerifier, c: Seq<u8>, m: EncryptingSameValueInitialMessage, f: EncryptingSameValueFinalResponse) -> bool {
    point_mul_of(f.z1@, v.pub_key1.pub_key@) == point_add_of(m.a1@, point_mul_of(c, v.cipher1.x@))
}

/// `z1·K2 == a2 + c·x2`.
pub open spec fn esv_check2(v: EncryptingSameValueVerifier, c: Seq<u8>, m: EncryptingSameValueInitialMessage, f: EncryptingSameValueFinalResponse) -> bool {
    point_mul_of(f.z1@, v.pub_key2.pub_key@) == point_add_of(m.a2@, point_mul_of(c, v.cipher2.x@))
}

/// `y1 == y2` and `z1·H + z2·G == b + c·y1`.
pub open spec fn esv_check3(v: EncryptingSameValueVerifier, gens: PedersenBases, c: Seq<u8>, m: EncryptingSameValueInitialMessage, f: EncryptingSameValueFinalResponse) -> bool {
    v.cipher1.y@ == v.cipher2.y@ && point_add_of(point_mul_of(f.z1@, gens.b_blinding@), point_mul_of(f.z2@, gens.b@))
        == point_add_of(m.b@, point_mul_of(c, v.cipher1.y@))
}

/// The verdict on a challenge, an initial message and a response.
pub open spec fn esv_verdict(v: EncryptingSameValueVerifier, gens: PedersenBases, c: Seq<u8>, m: EncryptingSameValueInitialMessage, f: EncryptingSameValueFinalResponse) -> Fallible<()> {
    if !esv_check1(v, c, m, f) {
        Err(err_of_spec(ErrorKind::EncryptingSameValueFinalResponseVerificationError { check: 1 }))
    } else if !esv_check2(v, c, m, f) {
        Err(err_of_spec(ErrorKind::EncryptingSameValueFinalResponseVerificationError { check: 2 }))
    } else if !esv_check3(v, gens, c, m, f) {
        Err(err_of_spec(ErrorKind::EncryptingSameValueFinalResponseVerificationError { check: 3 }))
    } else {
        Ok(())
    }
}

impl EncryptingSameValueVerifier {
    pub open spec fn wf(&self) -> bool {
        self.pub_key1.wf() && self.pub_key2.wf() && self.cipher1.wf() && self.cipher2.wf()
    }

    /// Checks the three equations, in order.
    pub fn verify(&self, gens: &PedersenBases, challenge: &ZKPChallenge, m: &EncryptingSameValueInitialMessage, f: &EncryptingSameValueFinalResponse) -> (r: Fallible<()>)
        requires
            gens.wf(),
            self.wf(),
            challenge.wf(),
            m.wf(),
            f.wf(),
        ensures
            r == esv_verdict(*self, *gens, challenge.x@, *m, *f),
    {
        let c = challenge.x();
        if !self.pub_key1.pub_key.mul(&f.z1).equals(&m.a1.add(&self.cipher1.x.mul(c))) {
            return Err(err_of(ErrorKind::EncryptingSameValueFinalResponseVerificationError { check: 1 }));
        }
        if !self.pub_key2.pub_key.mul(&f.z1).equals(&m.a2.add(&self.cipher2.x.mul(c))) {
            return Err(err_of(ErrorKind::EncryptingSameValueFinalResponseVerificationError { check: 2 }));
        }
        let lhs = gens.b_blinding.mul(&f.z1).add(&gens.b.mul(&f.z2));
        let rhs = m.b.add(&self.cipher1.y.mul(c));
        if !self.cipher1.y.equals(&self.cipher2.y) || !lhs.equals(&rhs) {
            return Err(err_of(ErrorKind::EncryptingSameValueFinalResponseVerificationError { check: 3 }));
        }
        Ok(())
    }
}

/// The verdict of the non-interactive verifier on a proof.
pub open spec fn esv_proof_verdict(v: EncryptingSameValueVerifier, gens: PedersenBases, m: EncryptingSameValueInitialMessage, f: EncryptingSameValueFinalResponse) -> Fallible<()> {
    if esv_trivial(m) || esv_challenge(m) == u32_scalar_bytes(0) {
        Err(err_of_spec(ErrorKind::VerificationError))
    } else {
        esv_verdict(v, gens, esv_challenge(m), m, f)
    }
}

/// Produces a non-interactive encrypting-the-same-value proof.
pub fn prove_encrypting_same_value(prover: &EncryptingSameValueProverAwaitingChallenge, gens: &PedersenBases, rng: &mut rand::rngs::StdRng) -> (r: Fallible<(EncryptingSameValueInitialMessage, EncryptingSameValueFinalResponse)>)
    requires
        gens.wf(),
        prover.wf(),
    ensures
        r.is_ok() ==> r.unwrap().0.wf() && r.unwrap().1.wf() && !esv_trivial(r.unwrap().0)
            && esv_challenge(r.unwrap().0) != u32_scalar_bytes(0),
        r.is_err() ==> r == Err::<(EncryptingSameValueInitialMessage, EncryptingSameValueFinalResponse), crate::errors::Error>(err_of_spec(ErrorKind::VerificationError)),
{
    proof {
        lemma_labels_short();
    }
    let mut transcript = ProofTranscript::new(ENCRYPTING_SAME_VALUE_PROOF_FINAL_RESPONSE_LABEL);
    let mut trng = prover.create_transcript_rng(rng, &transcript);
    let (p, m) = prover.generate_initial_message(gens, &mut trng);
    m.update_transcript(&mut transcript)?;
    assert(transcript.log_of() =~= seq![TranscriptEntry::Start(ENCRYPTING_SAME_VALUE_PROOF_FINAL_RESPONSE_LABEL@)] + esv_entries(m));
    let c = transcript.scalar_challenge(ENCRYPTING_SAME_VALUE_PROOF_CHALLENGE_LABEL)?;
    Ok((m, p.apply_challenge(&c)))
}

/// Verifies a non-interactive encrypting-the-same-value proof.
pub fn verify_encrypting_same_value(verifier: &EncryptingSameValueVerifier, gens: &PedersenBases, m: &EncryptingSameValueInitialMessage, f: &EncryptingSameValueFinalResponse) -> (r: Fallible<()>)
    requires
        gens.wf(),
        verifier.wf(),
        m.wf(),
        f.wf(),
    ensures
        r == esv_proof_verdict(*verifier, *gens, *m, *f),
{
    proof {
        lemma_labels_short();
    }
    let mut transcript = ProofTranscript::new(ENCRYPTING_SAME_VALUE_PROOF_FINAL_RESPONSE_LABEL);
    m.update_transcript(&mut transcript)?;
    assert(transcript.log_of() =~= seq![TranscriptEntry::Start(ENCRYPTING_SAME_VALUE_PROOF_FINAL_RESPONSE_LABEL@)] + esv_entries(*m));
    let c = transcript.scalar_challenge(ENCRYPTING_SAME_VALUE_PROOF_CHALLENGE_LABEL)?;
    verifier.verify(gens, &c, m, f)
}

/// A proof decoded from what `to_bytes` wrote has the same points and scalars, so it
/// verifies exactly when the original does.
pub proof fn lemma_encrypting_same_value_round_trip(
    v: EncryptingSameValueVerifier,
    gens: PedersenBases,
    m: EncryptingSameValueInitialMessage,
    f: EncryptingSameValueFinalResponse,
    m2: EncryptingSameValueInitialMessage,
    f2: EncryptingSameValueFinalResponse,
)
    requires
        m2.a1@ + m2.a2@ + m2.b@ == m.a1@ + m.a2@ + m.b@,
        f2.z1@ + f2.z2@ == f.z1@ + f.z2@,
    ensures
        m2.a1@ == m.a1@ && m2.a2@ == m.a2@ && m2.b@ == m.b@,
        f2.z1@ == f.z1@ && f2.z2@ == f.z2@,
        esv_proof_verdict(v, gens, m2, f2) == esv_proof_verdict(v, gens, m, f),
{
    let x = m.a1@ + m.a2@ + m.b@;
    let y = m2.a1@ + m2.a2@ + m2.b@;
    assert(m2.a1@ =~= y.subrange(0, 32) && m.a1@ =~= x.subrange(0, 32));
    assert(m2.a2@ =~= y.subrange(32, 64) && m.a2@ =~= x.subrange(32, 64));
    assert(m2.b@ =~= y.subrange(64, 96) && m.b@ =~= x.subrange(64, 96));
    let p = f.z1@ + f.z2@;
    let q = f2.z1@ + f2.z2@;
    assert(f2.z1@ =~= q.subrange(0, 32) && f.z1@ =~= p.subrange(0, 32));
    assert(f2.z2@ =~= q.subrange(32, 64) && f.z2@ =~= p.subrange(32, 64));
    assert(esv_entries(m2) =~= esv_entries(m));
}

} // verus!
