//! The proof that two cipher texts under the same key encrypt the same value. With
//! `P = s·H` and `k = s⁻¹`, two cipher texts decrypt alike exactly when
//! `y − y′ == k·(x − x′)`; the prover shows it knows a `k` with that and `H == k·P`.

use vstd::prelude::*;
use vstd::string::StringSliceAdditionalSpecFns;
use crate::elgamal::{CipherText, ElgamalPublicKey, ElgamalSecretKey};
use crate::errors::{err_of, ErrorKind, Fallible};
use crate::group::{
    identity_bytes, is_valid_point, point_add_of, point_mul_of, point_sub_of, scalar_add_of, scalar_inv_of,
    scalar_mul_of, u32_scalar_bytes, PedersenBases, Point, Scalar,
};
use crate::transcript::{
    challenge_scalar_of, err_of_spec, random_scalar, ProofTranscript, TranscriptEntry,
    ZKPChallenge, DOM_SEP_LABEL,
};

verus! {

/// The domain label of the proof's transcript.
pub const CIPHERTEXT_REFRESHMENT_FINAL_RESPONSE_LABEL: &'static str = "PolymathCipherTextRefreshmentFinalResponse";

/// The domain label of the proof's challenge.
pub const CIPHERTEXT_REFRESHMENT_PROOF_CHALLENGE_LABEL: &'static str = "PolymathCipherTextRefreshmentChallenge";

/// The labels of this proof fit merlin's 32-bit length framing.
proof fn lemma_labels_short()
    ensures
        crate::transcript::short_str(CIPHERTEXT_REFRESHMENT_FINAL_RESPONSE_LABEL),
        crate::transcript::short_str(CIPHERTEXT_REFRESHMENT_PROOF_CHALLENGE_LABEL),
{
    broadcast use vstd::string::is_ascii_spec_bytes;

    reveal_strlit("PolymathCipherTextRefreshmentFinalResponse");
    reveal_strlit("PolymathCipherTextRefreshmentChallenge");
    assert(vstd::string::is_ascii(CIPHERTEXT_REFRESHMENT_FINAL_RESPONSE_LABEL));
    assert(vstd::string::is_ascii(CIPHERTEXT_REFRESHMENT_PROOF_CHALLENGE_LABEL));
}


/// The first message: `a = u·(x − x′)`, `b = u·P`.
#[derive(Clone, Copy, Debug)]
pub struct CipherTextRefreshmentInitialMessage {
    pub a: Point,
    pub b: Point,
}

/// The final response `z = u + c·s⁻¹`.
pub type CipherTextRefreshmentFinalResponse = Scalar;

/// What the initial message appends to a transcript when neither point is the identity.
pub open spec fn refreshment_entries(m: CipherTextRefreshmentInitialMessage) -> Seq<TranscriptEntry> {
    seq![
        TranscriptEntry::Message(DOM_SEP_LABEL@, CIPHERTEXT_REFRESHMENT_PROOF_CHALLENGE_LABEL.spec_bytes()),
        TranscriptEntry::Message("A"@, m.a@),
        TranscriptEntry::Message("B"@, m.b@),
    ]
}

/// The challenge that the non-interactive proof derives from an initial message.
pub open spec fn refreshment_challenge(m: CipherTextRefreshmentInitialMessage) -> Seq<u8> {
    challenge_scalar_of(
        seq![TranscriptEntry::Start(CIPHERTEXT_REFRESHMENT_FINAL_RESPONSE_LABEL@)] + refreshment_entries(m),
        CIPHERTEXT_REFRESHMENT_PROOF_CHALLENGE_LABEL@,
    )
}

impl CipherTextRefreshmentInitialMessage {
    pub open spec fn wf(&self) -> bool {
        self.a.wf() && self.b.wf()
    }

    /// Appends the domain separator and both points; fails on an identity point.
    pub fn update_transcript(&self, transcript: &mut ProofTranscript) -> (r: Fallible<()>)
        ensures
            self.a@ == identity_bytes() || self.b@ == identity_bytes() ==> r == Err::<(), crate::errors::Error>(err_of_spec(ErrorKind::VerificationError)),
            self.a@ != identity_bytes() && self.b@ != identity_bytes() ==> r.is_ok()
                && final(transcript).log_of() == old(transcript).log_of() + refreshment_entries(*self),
    {
        proof {
            lemma_labels_short();
        }
        transcript.append_domain_separator(CIPHERTEXT_REFRESHMENT_PROOF_CHALLENGE_LABEL);
        transcript.append_validated_point("A", &self.a)?;
        transcript.append_validated_point("B", &self.b)?;
        assert(final(transcript).log_of() =~= old(transcript).log_of() + refreshment_entries(*self));
        Ok(())
    }

    /// The encoding: `a`, `b`.
    pub fn to_bytes(&self) -> (r: Vec<u8>)
        ensures
            r@ == self.a@ + self.b@,
    {
        let mut r: Vec<u8> = Vec::new();
        crate::codec::push_array(&mut r, &self.a.bytes);
        crate::codec::push_array(&mut r, &self.b.bytes);
        r
    }
}

impl CipherTextRefreshmentInitialMessage {
    /// Decodes 64 bytes of two valid points.
    pub fn from_bytes(b: &[u8]) -> (r: Option<CipherTextRefreshmentInitialMessage>)
        ensures
            r.is_some() <==> b@.len() == 64 && is_valid_point(b@.subrange(0, 32))
                && is_valid_point(b@.subrange(32, 64)),
            r.is_some() ==> r.unwrap().wf() && r.unwrap().a@ + r.unwrap().b@ == b@,
    {
        if b.len() != 64 {
            return None;
        }
        let a = Point::from_bytes(crate::codec::read_array(b, 0));
        let bb = Point::from_bytes(crate::codec::read_array(b, 32));
        match (a, bb) {
            (Some(a), Some(bb)) => {
                assert(a@ + bb@ =~= b@);
                Some(CipherTextRefreshmentInitialMessage { a, b: bb })
            },
            _ => None,
        }
    }
}

/// The prover: the secret key and the two cipher texts.
pub struct CipherTextRefreshmentProverAwaitingChallenge {
    pub secret: ElgamalSecretKey,
    pub cipher1: CipherText,
    pub cipher2: CipherText,
}

/// The prover after the first round: `k = s⁻¹` and the random `u`.
pub struct CipherTextRefreshmentProver {
    pub k: Scalar,
    pub u: Scalar,
}

impl CipherTextRefreshmentProverAwaitingChallenge {
    pub open spec fn wf(&self) -> bool {
        self.secret.wf() && self.cipher1.wf() && self.cipher2.wf()
    }

    pub fn new(secret: ElgamalSecretKey, cipher1: CipherText, cipher2: CipherText) -> (r: CipherTextRefreshmentProverAwaitingChallenge)
        ensures
            r.secret == secret && r.cipher1 == cipher1 && r.cipher2 == cipher2,
    {
        CipherTextRefreshmentProverAwaitingChallenge { secret, cipher1, cipher2 }
    }

    /// A generator keyed by the transcript, the secret key and 32 bytes of `rng`.
    pub fn create_transcript_rng(&self, rng: &mut rand::rngs::StdRng, transcript: &ProofTranscript) -> merlin::TranscriptRng {
        let secret_bytes = self.secret.secret.to_bytes();
        let x_bytes = self.cipher1.x.to_bytes();
        transcript.witness_rng("secret", &secret_bytes, "cipher", &x_bytes, rng)
    }

    /// Draws `u` and commits: `a = u·(x − x′)`, `b = u·P`.
    pub fn generate_initial_message(&self, gens: &PedersenBases, rng: &mut merlin::TranscriptRng) -> (r: (CipherTextRefreshmentProver, CipherTextRefreshmentInitialMessage))
        requires
            gens.wf(),
            self.wf(),
        ensures
            r.0.wf(),
            r.1.wf(),
            r.0.k@ == scalar_inv_of(self.secret.secret@),
            r.1.a@ == point_mul_of(r.0.u@, point_sub_of(self.cipher1.x@, self.cipher2.x@)),
            r.1.b@ == point_mul_of(r.0.u@, point_mul_of(self.secret.secret@, gens.b_blinding@)),
    {
        let u = random_scalar(rng);
        let pk = self.secret.get_public_key(gens);
        let x_diff = self.cipher1.x.sub(&self.cipher2.x);
        (
            CipherTextRefreshmentProver { k: self.secret.secret.invert(), u },
            CipherTextRefreshmentInitialMessage { a: x_diff.mul(&u), b: pk.pub_key.mul(&u) },
        )
    }
}

impl CipherTextRefreshmentProver {
    pub open spec fn wf(&self) -> bool {
        self.k.wf() && self.u.wf()
    }

    /// The response `z = u + c·k`.
    pub fn apply_challenge(&self, c: &ZKPChallenge) -> (r: CipherTextRefreshmentFinalResponse)
        requires
            self.wf(),
            c.wf(),
        ensures
            r.wf(),
            r@ == scalar_add_of(self.u@, scalar_mul_of(c.x@, self.k@)),
    {
        self.u.add(&c.x().mul(&self.k))
    }
}

/// The verifier: the public key and the two cipher texts.
pub struct CipherTextRefreshmentVerifier {
    pub pub_key: ElgamalPublicKey,
    pub cipher1: CipherText,
    pub cipher2: CipherText,
}

/// `z·(x − x′) == a + c·(y − y′)`.
pub open spec fn refreshment_check1(v: CipherTextRefreshmentVerifier, c: Seq<u8>, m: CipherTextRefreshmentInitialMessage, z: Seq<u8>) -> bool {
    point_mul_of(z, point_sub_of(v.cipher1.x@, v.cipher2.x@)) == point_add_of(
        m.a@,
        point_mul_of(c, point_sub_of(v.cipher1.y@, v.cipher2.y@)),
    )
}

/// `z·P == b + c·H`.
pub open spec fn refreshment_check2(v: CipherTextRefreshmentVerifier, gens: PedersenBases, c: Seq<u8>, m: CipherTextRefreshmentInitialMessage, z: Seq<u8>) -> bool {
    point_mul_of(z, v.pub_key.pub_key@) == point_add_of(m.b@, point_mul_of(c, gens.b_blinding@))
}

/// The verdict on a challenge, an initial message and a response.
pub open spec fn refreshment_verdict(v: CipherTextRefreshmentVerifier, gens: PedersenBases, c: Seq<u8>, m: CipherTextRefreshmentInitialMessage, z: Seq<u8>) -> Fallible<()> {
    if !refreshment_check1(v, c, m, z) {
        Err(err_of_spec(ErrorKind::CiphertextRefreshmentFinalResponseVerificationError { check: 1 }))
    } else if !refreshment_check2(v, gens, c, m, z) {
        Err(err_of_spec(ErrorKind::CiphertextRefreshmentFinalResponseVerificationError { check: 2 }))
    } else {
        Ok(())
    }
}

impl CipherTextRefreshmentVerifier {
    pub open spec fn wf(&self) -> bool {
        self.pub_key.wf() && self.cipher1.wf() && self.cipher2.wf()
    }

    pub fn new(pub_key: ElgamalPublicKey, cipher1: CipherText, cipher2: CipherText) -> (r: CipherTextRefreshmentVerifier)
        ensures
            r.pub_key == pub_key && r.cipher1 == cipher1 && r.cipher2 == cipher2,
    {
        CipherTextRefreshmentVerifier { pub_key, cipher1, cipher2 }
    }

    /// Checks both equations, in order.
    pub fn verify(&self, gens: &PedersenBases, challenge: &ZKPChallenge, m: &CipherTextRefreshmentInitialMessage, z: &CipherTextRefreshmentFinalResponse) -> (r: Fallible<()>)
        requires
            gens.wf(),
            self.wf(),
            challenge.wf(),
            m.wf(),
            z.wf(),
        ensures
            r == refreshment_verdict(*self, *gens, challenge.x@, *m, z@),
    {
        let c = challenge.x();
        let x_diff = self.cipher1.x.sub(&self.cipher2.x);
        let y_diff = self.cipher1.y.sub(&self.cipher2.y);
        if !x_diff.mul(z).equals(&m.a.add(&y_diff.mul(c))) {
            return Err(err_of(ErrorKind::CiphertextRefreshmentFinalResponseVerificationError { check: 1 }));
        }
        if !self.pub_key.pub_key.mul(z).equals(&m.b.add(&gens.b_blinding.mul(c))) {
            return Err(err_of(ErrorKind::CiphertextRefreshmentFinalResponseVerificationError { check: 2 }));
        }
        Ok(())
    }
}

/// The verdict of the non-interactive verifier on a proof.
pub open spec fn refreshment_proof_verdict(v: CipherTextRefreshmentVerifier, gens: PedersenBases, m: CipherTextRefreshmentInitialMessage, z: Seq<u8>) -> Fallible<()> {
    if m.a@ == identity_bytes() || m.b@ == identity_bytes() || refreshment_challenge(m) == u32_scalar_bytes(0) {
        Err(err_of_spec(ErrorKind::VerificationError))
    } else {
        refreshment_verdict(v, gens, refreshment_challenge(m), m, z)
    }
}

/// Produces a non-interactive refreshment proof.
pub fn prove_refreshment(prover: &CipherTextRefreshmentProverAwaitingChallenge, gens: &PedersenBases, rng: &mut rand::rngs::StdRng) -> (r: Fallible<(CipherTextRefreshmentInitialMessage, CipherTextRefreshmentFinalResponse)>)
    requires
        gens.wf(),
        prover.wf(),
    ensures
        r.is_ok() ==> r.unwrap().0.wf() && r.unwrap().1.wf() && r.unwrap().0.a@ != identity_bytes()
            && r.unwrap().0.b@ != identity_bytes() && refreshment_challenge(r.unwrap().0) != u32_scalar_bytes(0),
        r.is_err() ==> r == Err::<(CipherTextRefreshmentInitialMessage, CipherTextRefreshmentFinalResponse), crate::errors::Error>(err_of_spec(ErrorKind::VerificationError)),
{
    proof {
        lemma_labels_short();
    }
    let mut transcript = ProofTranscript::new(CIPHERTEXT_REFRESHMENT_FINAL_RESPONSE_LABEL);
    let mut trng = prover.create_transcript_rng(rng, &transcript);
    let (p, m) = prover.generate_initial_message(gens, &mut trng);
    m.update_transcript(&mut transcript)?;
    assert(transcript.log_of() =~= seq![TranscriptEntry::Start(CIPHERTEXT_REFRESHMENT_FINAL_RESPONSE_LABEL@)] + refreshment_entries(m));
    let c = transcript.scalar_challenge(CIPHERTEXT_REFRESHMENT_PROOF_CHALLENGE_LABEL)?;
    Ok((m, p.apply_challenge(&c)))
}

/// Verifies a non-interactive refreshment proof.
pub fn verify_refreshment(verifier: &CipherTextRefreshmentVerifier, gens: &PedersenBases, m: &CipherTextRefreshmentInitialMessage, z: &CipherTextRefreshmentFinalResponse) -> (r: Fallible<()>)
    requires
        gens.wf(),
        verifier.wf(),
        m.wf(),
        z.wf(),
    ensures
        r == refreshment_proof_verdict(*verifier, *gens, *m, z@),
{
    proof {
        lemma_labels_short();
    }
    let mut transcript = ProofTranscript::new(CIPHERTEXT_REFRESHMENT_FINAL_RESPONSE_LABEL);
    m.update_transcript(&mut transcript)?;
    assert(transcript.log_of() =~= seq![TranscriptEntry::Start(CIPHERTEXT_REFRESHMENT_FINAL_RESPONSE_LABEL@)] + refreshment_entries(*m));
    let c = transcript.scalar_challenge(CIPHERTEXT_REFRESHMENT_PROOF_CHALLENGE_LABEL)?;
    verifier.verify(gens, &c, m, z)
}

/// A proof decoded from what `to_bytes` wrote has the same points, so it verifies exactly
/// when the original does.
pub proof fn lemma_refreshment_round_trip(
    v: CipherTextRefreshmentVerifier,
    gens: PedersenBases,
    m: CipherTextRefreshmentInitialMessage,
    z: Scalar,
    m2: CipherTextRefreshmentInitialMessage,
    z2: Scalar,
)
    requires
        m2.a@ + m2.b@ == m.a@ + m.b@,
        z2@ == z@,
    ensures
        m2.a@ == m.a@ && m2.b@ == m.b@,
        refreshment_proof_verdict(v, gens, m2, z2@) == refreshment_proof_verdict(v, gens, m, z@),
{
    let x = m.a@ + m.b@;
    let y = m2.a@ + m2.b@;
    assert(m2.a@ =~= y.subrange(0, 32) && m.a@ =~= x.subrange(0, 32));
    assert(m2.b@ =~= y.subrange(32, 64) && m.b@ =~= x.subrange(32, 64));
    assert(refreshment_entries(m2) =~= refreshment_entries(m));
}

} // verus!
