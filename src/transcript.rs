use vstd::prelude::*;
use vstd::string::StringSliceAdditionalSpecFns;
use crate::errors::{err_of, ErrorKind, Fallible};
use crate::group::{identity_bytes, scalar_from_wide, scalar_wide_of, Point, Scalar};

verus! {

/// merlin's transcript, carried inside [`ProofTranscript`] as an opaque value.
#[verifier::external_type_specification]
#[verifier::external_body]
pub struct ExMerlinTranscript(merlin::Transcript);

/// merlin's witness-keyed random generator.
#[verifier::external_type_specification]
#[verifier::external_body]
pub struct ExTranscriptRng(merlin::TranscriptRng);

/// merlin's builder of witness-keyed random generators.
#[verifier::external_type_specification]
#[verifier::external_body]
pub struct ExTranscriptRngBuilder(merlin::TranscriptRngBuilder);

/// One operation on a transcript, as plain data.
pub ghost enum TranscriptEntry {
    /// The transcript was created with this domain label.
    Start(Seq<char>),
    /// A labelled message was appended.
    Message(Seq<char>, Seq<u8>),
    /// A labelled challenge of the given length was squeezed out.
    Challenge(Seq<char>, nat),
}

/// The 64 challenge bytes that a transcript gives under a label, after the operations of
/// `log`.
pub uninterp spec fn challenge_bytes_of(log: Seq<TranscriptEntry>, label: Seq<char>) -> Seq<u8>;

/// The label under which domain separators are appended.
pub const DOM_SEP_LABEL: &'static str = "dom-sep";

/// A Fiat–Shamir transcript: merlin's, together with the log of what it absorbed.
pub struct ProofTranscript {
    inner: merlin::Transcript,
    log: Ghost<Seq<TranscriptEntry>>,
}

impl ProofTranscript {
    /// The operations the transcript absorbed, in order.
    pub closed spec fn log_of(&self) -> Seq<TranscriptEntry> {
        self.log@
    }
}

/// A label or message that merlin can frame: its length fits in 32 bits.
pub open spec fn short_str(s: &str) -> bool {
    s.spec_bytes().len() <= u32::MAX
}

/// Relies on merlin's Transcript::new, which starts the transcript with its label; it
/// asserts that the label's length fits in 32 bits.
#[verifier::external_body]
fn merlin_new(label: &'static str) -> (r: merlin::Transcript)
    requires
        short_str(label),
{
    merlin::Transcript::new(label.as_bytes())
}

/// Relies on merlin's Transcript::append_message, which asserts that the message's length
/// fits in 32 bits.
#[verifier::external_body]
fn merlin_append(t: &mut ProofTranscript, label: &'static str, message: &[u8])
    requires
        message@.len() <= u32::MAX,
    ensures
        final(t).log_of() == old(t).log_of().push(TranscriptEntry::Message(label@, message@)),
{
    t.inner.append_message(label.as_bytes(), message)
}

/// Relies on merlin's Transcript::challenge_bytes, whose output is a function of what the
/// transcript absorbed and of the label.
#[verifier::external_body]
fn merlin_challenge(t: &mut ProofTranscript, label: &'static str) -> (r: [u8; 64])
    ensures
        r@ == challenge_bytes_of(old(t).log_of(), label@),
        final(t).log_of() == old(t).log_of().push(TranscriptEntry::Challenge(label@, 64)),
{
    let mut buf = [0u8; 64];
    t.inner.challenge_bytes(label.as_bytes(), &mut buf);
    buf
}

/// Relies on merlin's Transcript::build_rng.
#[verifier::external_body]
fn merlin_build_rng(t: &ProofTranscript) -> (r: merlin::TranscriptRngBuilder) {
    t.inner.build_rng()
}

/// Relies on merlin's TranscriptRngBuilder::rekey_with_witness_bytes, which asserts that
/// the witness's length fits in 32 bits.
#[verifier::external_body]
fn merlin_rekey(
    b: merlin::TranscriptRngBuilder,
    label: &'static str,
    witness: &[u8],
) -> (r: merlin::TranscriptRngBuilder)
    requires
        witness@.len() <= u32::MAX,
{
    b.rekey_with_witness_bytes(label.as_bytes(), witness)
}

/// Relies on merlin's TranscriptRngBuilder::finalize, which keys the generator with 32
/// bytes drawn from `rng`.
#[verifier::external_body]
fn merlin_finalize(b: merlin::TranscriptRngBuilder, rng: &mut rand::rngs::StdRng) -> (r:
    merlin::TranscriptRng) {
    b.finalize(rng)
}

/// Relies on curve25519_dalek's Scalar::random: a canonical scalar.
#[verifier::external_body]
pub(crate) fn random_scalar(rng: &mut merlin::TranscriptRng) -> (r: Scalar)
    ensures
        r.wf(),
{
    Scalar { bytes: curve25519_dalek::scalar::Scalar::random(rng).to_bytes() }
}

/// The challenge of a Σ-protocol: a non-zero scalar.
#[derive(Clone, Copy, Debug)]
pub struct ZKPChallenge {
    pub x: Scalar,
}

impl ZKPChallenge {
    pub open spec fn wf(&self) -> bool {
        self.x.wf() && self.x@ != crate::group::u32_scalar_bytes(0)
    }

    /// The challenge scalar.
    pub fn x(&self) -> (r: &Scalar)
        ensures
            *r == self.x,
    {
        &self.x
    }
}

impl ProofTranscript {
    /// A fresh transcript under a domain label.
    pub fn new(label: &'static str) -> (r: ProofTranscript)
        requires
            short_str(label),
        ensures
            r.log_of() == seq![TranscriptEntry::Start(label@)],
    {
        let ghost start = seq![TranscriptEntry::Start(label@)];
        ProofTranscript { inner: merlin_new(label), log: Ghost(start) }
    }

    /// Appends a labelled message.
    pub fn append_message(&mut self, label: &'static str, message: &[u8])
        requires
            message@.len() <= u32::MAX,
        ensures
            final(self).log_of() == old(self).log_of().push(TranscriptEntry::Message(label@, message@)),
    {
        merlin_append(self, label, message)
    }

    /// Appends a domain separator.
    pub fn append_domain_separator(&mut self, message: &'static str)
        requires
            short_str(message),
        ensures
            final(self).log_of() == old(self).log_of().push(
                TranscriptEntry::Message(DOM_SEP_LABEL@, message.spec_bytes()),
            ),
    {
        merlin_append(self, DOM_SEP_LABEL, message.as_bytes())
    }

    /// Appends a point unless it is the identity, which is refused: a point confined to a
    /// trivial subgroup must never reach a transcript.
    pub fn append_validated_point(&mut self, label: &'static str, message: &Point) -> (r: Fallible<()>)
        ensures
            message@ == identity_bytes() ==> r == Err::<(), crate::errors::Error>(err_of_spec(ErrorKind::VerificationError))
                && final(self).log_of() == old(self).log_of(),
            message@ != identity_bytes() ==> r.is_ok() && final(self).log_of() == old(self).log_of().push(
                TranscriptEntry::Message(label@, message@),
            ),
    {
        if message.is_identity() {
            return Err(err_of(ErrorKind::VerificationError));
        }
        let bytes = message.to_bytes();
        merlin_append(self, label, &bytes);
        Ok(())
    }

    /// Squeezes a challenge out of the transcript: 64 bytes reduced modulo the group order.
    /// A zero challenge is refused.
    pub fn scalar_challenge(&mut self, label: &'static str) -> (r: Fallible<ZKPChallenge>)
        ensures
            final(self).log_of() == old(self).log_of().push(TranscriptEntry::Challenge(label@, 64)),
            r.is_ok() <==> challenge_scalar_of(old(self).log_of(), label@) != crate::group::u32_scalar_bytes(0),
            r.is_ok() ==> r.unwrap().wf() && r.unwrap().x@ == challenge_scalar_of(old(self).log_of(), label@),
            r.is_err() ==> r == Err::<ZKPChallenge, crate::errors::Error>(err_of_spec(ErrorKind::VerificationError)),
    {
        let buf = merlin_challenge(self, label);
        let x = scalar_from_wide(&buf);
        let zero = Scalar::zero();
        if x.equals(&zero) {
            Err(err_of(ErrorKind::VerificationError))
        } else {
            Ok(ZKPChallenge { x })
        }
    }

    /// A random generator keyed by the transcript, two labelled secret witnesses and 32
    /// bytes of `rng`: nonces stay unpredictable when either source is sound.
    pub fn witness_rng(
        &self,
        label1: &'static str,
        witness1: &[u8],
        label2: &'static str,
        witness2: &[u8],
        rng: &mut rand::rngs::StdRng,
    ) -> merlin::TranscriptRng
        requires
            witness1@.len() <= u32::MAX,
            witness2@.len() <= u32::MAX,
    {
        let b = merlin_build_rng(self);
        let b = merlin_rekey(b, label1, witness1);
        let b = merlin_rekey(b, label2, witness2);
        merlin_finalize(b, rng)
    }
}

/// The challenge scalar that a transcript gives under a label after the operations of `log`.
pub open spec fn challenge_scalar_of(log: Seq<TranscriptEntry>, label: Seq<char>) -> Seq<u8> {
    scalar_wide_of(challenge_bytes_of(log, label))
}

/// The error of the given kind, as a value of the contracts.
pub open spec fn err_of_spec(kind: ErrorKind) -> crate::errors::Error {
    crate::errors::Error { inner: kind }
}

} // verus!
