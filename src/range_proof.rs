//! Range proofs: a committed 32-bit value lies in `[0, 2^32)`, through bulletproofs.

use vstd::prelude::*;
use crate::group::{point_add_of, point_mul_of, u32_scalar_bytes, PedersenBases, Point, Scalar};

verus! {

/// The number of bits that range proofs cover.
pub const RANGE_BITS: usize = 32;

/// The domain label of range proofs' transcripts.
pub const RANGE_PROOF_LABEL: &'static str = "PolymathRangeProof";

/// The label fits merlin's 32-bit length framing.
proof fn lemma_label_short()
    ensures
        crate::transcript::short_str(RANGE_PROOF_LABEL),
{
    broadcast use vstd::string::is_ascii_spec_bytes;

    reveal_strlit("PolymathRangeProof");
    assert(vstd::string::is_ascii(RANGE_PROOF_LABEL));
}

/// The commitment `v·G + blinding·H`.
pub open spec fn commitment_of(gens: PedersenBases, v: u32, blinding: Seq<u8>) -> Seq<u8> {
    point_add_of(point_mul_of(u32_scalar_bytes(v), gens.b@), point_mul_of(blinding, gens.b_blinding@))
}

/// bulletproofs' Pedersen bases, carried as an opaque value.
#[verifier::external_type_specification]
#[verifier::external_body]
pub struct ExBulletproofGens(bulletproofs::PedersenGens);

/// Relies on curve25519_dalek's CompressedRistretto::decompress, which succeeds on the valid
/// encodings that the bases hold, to build bulletproofs' PedersenGens.
#[verifier::external_body]
fn bulletproof_bases(gens: &PedersenBases) -> (r: bulletproofs::PedersenGens)
    requires
        gens.wf(),
{
    let b = curve25519_dalek::ristretto::CompressedRistretto(gens.b.bytes);
    let bb = curve25519_dalek::ristretto::CompressedRistretto(gens.b_blinding.bytes);
    bulletproofs::PedersenGens { B: b.decompress().unwrap(), B_blinding: bb.decompress().unwrap() }
}

/// Relies on bulletproofs' BulletproofGens::new and RangeProof::prove_single_with_rng over
/// `bits` bits, with the given Pedersen bases and a transcript under `label` (merlin
/// asserts that its length fits in 32 bits); the proof is about the commitment
/// `v·B + blinding·B_blinding`, which the caller computes itself.
#[verifier::external_body]
fn bulletproof_prove(pc: &bulletproofs::PedersenGens, bits: usize, label: &'static str, v: u32, blinding: &Scalar, rng: &mut rand::rngs::StdRng) -> (r: Option<Vec<u8>>)
    requires
        blinding.wf(),
        crate::transcript::short_str(label),
{
    let s = curve25519_dalek::scalar::Scalar::from_canonical_bytes(blinding.bytes).unwrap();
    let mut t = merlin::Transcript::new(label.as_bytes());
    let bp = bulletproofs::BulletproofGens::new(bits, 1);
    let r = bulletproofs::RangeProof::prove_single_with_rng(&bp, pc, &mut t, v as u64, &s, bits, rng);
    r.ok().map(|(p, _)| p.to_bytes())
}

/// Relies on bulletproofs' BulletproofGens::new, RangeProof::from_bytes and verify_single
/// over `bits` bits, with a transcript under `label` (merlin asserts that its length fits
/// in 32 bits). The check draws random weights, so nothing is stated of its outcome.
#[verifier::external_body]
fn bulletproof_verify(pc: &bulletproofs::PedersenGens, bits: usize, label: &'static str, proof: &[u8], commitment: &Point) -> (r: bool)
    requires
        crate::transcript::short_str(label),
{
    let mut t = merlin::Transcript::new(label.as_bytes());
    let bp = bulletproofs::BulletproofGens::new(bits, 1);
    let v = curve25519_dalek::ristretto::CompressedRistretto(commitment.bytes);
    match bulletproofs::RangeProof::from_bytes(proof) {
        Ok(p) => p.verify_single(&bp, pc, &mut t, &v, bits).is_ok(),
        Err(_) => false,
    }
}

/// A range proof, and the commitment it is about.
#[derive(Clone, Debug)]
pub struct InRangeProof {
    pub commitment: Point,
    pub proof: Vec<u8>,
}

impl InRangeProof {
    /// The proof's length fits its 32-bit length prefix.
    pub open spec fn wf(&self) -> bool {
        self.proof@.len() < 0x1_0000_0000
    }
}

/// Proves that `v` lies in range, for the commitment `v·G + blinding·H`.
pub fn prove_within_range(gens: &PedersenBases, v: u32, blinding: &Scalar, rng: &mut rand::rngs::StdRng) -> (r: crate::errors::Fallible<InRangeProof>)
    requires
        gens.wf(),
        blinding.wf(),
    ensures
        r.is_ok() ==> r.unwrap().commitment@ == commitment_of(*gens, v, blinding@) && r.unwrap().wf(),
        r.is_err() ==> r == Err::<InRangeProof, crate::errors::Error>(crate::transcript::err_of_spec(crate::errors::ErrorKind::ProvingError)),
{
    let pc = bulletproof_bases(gens);
    proof {
        lemma_label_short();
    }
    match bulletproof_prove(&pc, RANGE_BITS, RANGE_PROOF_LABEL, v, blinding, rng) {
        Some(proof) => {
            if proof.len() >= 0xffff_ffff {
                return Err(crate::errors::err_of(crate::errors::ErrorKind::ProvingError));
            }
            Ok(InRangeProof { commitment: gens.commit(&Scalar::from_u32(v), blinding), proof })
        },
        None => Err(crate::errors::err_of(crate::errors::ErrorKind::ProvingError)),
    }
}

/// Checks a range proof against the commitment that the caller derived itself; a proof
/// about another commitment is refused.
pub fn verify_within_range(gens: &PedersenBases, p: &InRangeProof, commitment: &Point) -> (r: crate::errors::Fallible<()>)
    requires
        gens.wf(),
    ensures
        r.is_ok() ==> p.commitment@ == commitment@,
        r.is_err() ==> r == Err::<(), crate::errors::Error>(crate::transcript::err_of_spec(crate::errors::ErrorKind::VerificationError)),
{
    let pc = bulletproof_bases(gens);
    proof {
        lemma_label_short();
    }
    if !p.commitment.equals(commitment) || !bulletproof_verify(&pc, RANGE_BITS, RANGE_PROOF_LABEL, &p.proof, commitment) {
        return Err(crate::errors::err_of(crate::errors::ErrorKind::VerificationError));
    }
    Ok(())
}

} // verus!
