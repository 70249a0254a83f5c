//! The data that investors and scopes hand to the identity-audit protocol, and the
//! message that a claim proof signs.

use vstd::prelude::*;
use crate::group::Point;

verus! {

/// The 32-byte BLAKE2s digest of some bytes.
pub uninterp spec fn blake2s_of(b: Seq<u8>) -> Seq<u8>;

/// Relies on blake2's Blake2s: the digest of the bytes, 32 bytes long.
#[verifier::external_body]
fn blake2s(b: &[u8]) -> (r: [u8; 32])
    ensures
        r@ == blake2s_of(b@),
{
    blake2::Digest::finalize(blake2::Digest::chain(blake2::Blake2s::default(), b)).into()
}

/// An investor's CDD identifier.
#[derive(Clone, Copy, Debug)]
pub struct CddId {
    pub cdd_id: Point,
}

/// What an investor's CDD claim holds.
#[derive(Clone, Copy, Debug)]
pub struct RawCddClaimData {
    pub investor_did: [u8; 32],
    pub investor_unique_id: [u8; 16],
}

/// What a scope claim holds: the scope (a ticker) and the investor's unique id.
#[derive(Clone, Copy, Debug)]
pub struct RawScopeClaimData {
    pub scope_did: [u8; 12],
    pub investor_unique_id: [u8; 16],
}

/// A claim proof, as handed to a verifier.
#[derive(Clone, Debug)]
pub struct Proof {
    pub cdd_id: Point,
    pub investor_did: [u8; 32],
    pub scope_id: Point,
    pub scope_did: [u8; 12],
    pub proof: Vec<u8>,
}

/// The message of a claim proof: the digest of the investor's DID followed by the scope's.
pub fn make_message(investor_did: &[u8; 32], scope_did: &[u8; 12]) -> (r: [u8; 32])
    ensures
        r@ == blake2s_of(investor_did@ + scope_did@),
{
    let mut bytes: Vec<u8> = Vec::new();
    crate::codec::push_array(&mut bytes, investor_did);
    crate::codec::push_bytes(&mut bytes, scope_did);
    blake2s(bytes.as_slice())
}

} // verus!
