//! Schnorr signatures over the Ristretto group, under the signing context `mercat/assert`.

use vstd::prelude::*;
use vstd::string::StringSliceAdditionalSpecFns;
use crate::transcript::short_str;

verus! {

/// schnorrkel's key pair, carried as an opaque value.
#[verifier::external_type_specification]
#[verifier::external_body]
pub struct ExKeypair(schnorrkel::Keypair);

/// Whether `signature` is a valid signature of `message` under `public`, in the signing
/// context `context`.
pub uninterp spec fn signature_valid(public: Seq<u8>, context: Seq<u8>, message: Seq<u8>, signature: Seq<u8>) -> bool;

/// The signing context of every signature of the library.
pub const SIGNING_CONTEXT: &'static str = "mercat/assert";

/// The context fits merlin's 32-bit length framing.
proof fn lemma_context_short()
    ensures
        short_str(SIGNING_CONTEXT),
{
    broadcast use vstd::string::is_ascii_spec_bytes;

    reveal_strlit("mercat/assert");
    assert(vstd::string::is_ascii(SIGNING_CONTEXT));
}

/// Relies on schnorrkel's MiniSecretKey::from_bytes, which takes any 32 bytes, and
/// expand_to_keypair in Ed25519 mode.
#[verifier::external_body]
fn keypair_from_seed(seed: &[u8; 32]) -> (r: schnorrkel::Keypair) {
    schnorrkel::MiniSecretKey::from_bytes(seed).unwrap().expand_to_keypair(schnorrkel::ExpansionMode::Ed25519)
}

/// Relies on schnorrkel's PublicKey::to_bytes.
#[verifier::external_body]
fn public_bytes(k: &schnorrkel::Keypair) -> (r: [u8; 32]) {
    k.public.to_bytes()
}

/// Relies on schnorrkel's PublicKey::from_bytes and SecretKey::sign_simple_doublecheck,
/// which returns a signature only after `verify_simple` accepted it under `public`, in
/// `context`, for `message`. merlin asserts that the context's and the message's lengths
/// fit in 32 bits.
#[verifier::external_body]
fn sign_checked(k: &schnorrkel::Keypair, public: &[u8; 32], context: &str, message: &[u8]) -> (r: Option<[u8; 64]>)
    requires
        short_str(context),
        message@.len() <= u32::MAX,
    ensures
        r.is_some() ==> signature_valid(public@, context.spec_bytes(), message@, r.unwrap()@),
{
    match schnorrkel::PublicKey::from_bytes(public) {
        Ok(p) => k.secret.sign_simple_doublecheck(context.as_bytes(), message, &p).ok().map(|s| s.to_bytes()),
        Err(_) => None,
    }
}

/// Relies on schnorrkel's PublicKey::from_bytes, Signature::from_bytes and
/// PublicKey::verify_simple; bytes that do not decode give `false`. merlin asserts that
/// the context's and the message's lengths fit in 32 bits.
#[verifier::external_body]
fn verify_bytes(public: &[u8; 32], context: &str, message: &[u8], signature: &[u8; 64]) -> (r: bool)
    requires
        short_str(context),
        message@.len() <= u32::MAX,
    ensures
        r == signature_valid(public@, context.spec_bytes(), message@, signature@),
{
    match (schnorrkel::PublicKey::from_bytes(public), schnorrkel::Signature::from_bytes(signature)) {
        (Ok(p), Ok(s)) => p.verify_simple(context.as_bytes(), message, &s).is_ok(),
        _ => false,
    }
}

/// Whether `signature` signs `message` under `public` in the library's context; a message
/// too long for merlin's 32-bit framing is never signed.
pub open spec fn signs(public: Seq<u8>, message: Seq<u8>, signature: Seq<u8>) -> bool {
    message.len() <= u32::MAX && signature_valid(public, SIGNING_CONTEXT.spec_bytes(), message, signature)
}

/// A signing key pair, with its public half.
pub struct SigningKeys {
    pair: schnorrkel::Keypair,
    public: SigningPubKey,
}

/// A signature's 64 bytes.
#[derive(Clone, Copy, Debug)]
pub struct Signature {
    pub bytes: [u8; 64],
}

/// A signing public key's 32 bytes.
#[derive(Clone, Copy, Debug)]
pub struct SigningPubKey {
    pub bytes: [u8; 32],
}

impl SigningKeys {
    /// The public half.
    pub closed spec fn public_view(&self) -> Seq<u8> {
        self.public.bytes@
    }

    /// The key pair that a 32-byte seed expands to.
    pub fn from_seed(seed: &[u8; 32]) -> SigningKeys {
        let pair = keypair_from_seed(seed);
        let public = SigningPubKey { bytes: public_bytes(&pair) };
        SigningKeys { pair, public }
    }

    /// The public half.
    pub fn public(&self) -> (r: SigningPubKey)
        ensures
            r.bytes@ == self.public_view(),
    {
        self.public
    }

    /// Signs `message`; a signature that is returned verifies under the public half.
    pub fn sign(&self, message: &[u8]) -> (r: Option<Signature>)
        ensures
            r.is_some() ==> signs(self.public_view(), message@, r.unwrap().bytes@),
    {
        proof {
            lemma_context_short();
        }
        if message.len() > 0xffff_ffff {
            return None;
        }
        match sign_checked(&self.pair, &self.public.bytes, SIGNING_CONTEXT, message) {
            Some(b) => Some(Signature { bytes: b }),
            None => None,
        }
    }
}

impl SigningPubKey {
    /// Whether `sig` signs `message` under this key.
    pub fn verify(&self, message: &[u8], sig: &Signature) -> (r: bool)
        ensures
            r == signs(self.bytes@, message@, sig.bytes@),
    {
        proof {
            lemma_context_short();
        }
        if message.len() > 0xffff_ffff {
            return false;
        }
        verify_bytes(&self.bytes, SIGNING_CONTEXT, message, &sig.bytes)
    }
}

} // verus!
