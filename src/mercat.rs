//! The data of accounts and transactions, and their byte encodings.

use vstd::prelude::*;
use crate::ciphertext_refreshment_proof::CipherTextRefreshmentInitialMessage;
use crate::codec::{le4, push_array, push_bytes, push_u32};
use crate::correctness_proof::CorrectnessInitialMessage;
use crate::elgamal::{CipherText, CommitmentWitness, ElgamalPublicKey, ElgamalSecretKey};
use crate::encrypting_same_value_proof::{EncryptingSameValueFinalResponse, EncryptingSameValueInitialMessage};
use crate::group::Scalar;
use crate::range_proof::InRangeProof;
use crate::signing::{Signature, SigningKeys, SigningPubKey};
use crate::wellformedness_proof::{WellformednessFinalResponse, WellformednessInitialMessage};

verus! {

/// The sub-state of a transaction step.
#[derive(Clone, Copy, Debug, PartialEq, Eq, Structural)]
pub enum TxSubstate {
    Started,
    Validated,
}

/// The states of an asset issuance.
#[derive(Clone, Copy, Debug, PartialEq, Eq, Structural)]
pub enum AssetTxState {
    Initialization(TxSubstate),
    Justification(TxSubstate),
}

/// The states of a confidential transfer.
#[derive(Clone, Copy, Debug, PartialEq, Eq, Structural)]
pub enum ConfidentialTxState {
    Initialization(TxSubstate),
    InitializationJustification(TxSubstate),
    Finalization(TxSubstate),
    FinalizationJustification(TxSubstate),
    Reversal(TxSubstate),
}

/// An ElGamal key pair.
#[derive(Clone, Copy, Debug)]
pub struct EncryptionKeys {
    pub pblc: ElgamalPublicKey,
    pub scrt: ElgamalSecretKey,
}

/// A wellformedness proof: first message and response.
#[derive(Clone, Copy, Debug)]
pub struct WellformednessProof {
    pub init: WellformednessInitialMessage,
    pub response: WellformednessFinalResponse,
}

/// A correctness proof: first message and response.
#[derive(Clone, Copy, Debug)]
pub struct CorrectnessProof {
    pub init: CorrectnessInitialMessage,
    pub response: Scalar,
}

/// A proof that two cipher texts under two keys hold the same value.
#[derive(Clone, Copy, Debug)]
pub struct CipherEqualDifferentPubKeyProof {
    pub init: EncryptingSameValueInitialMessage,
    pub response: EncryptingSameValueFinalResponse,
}

/// A proof that two cipher texts under one key hold the same value.
#[derive(Clone, Copy, Debug)]
pub struct CipherEqualSamePubKeyProof {
    pub init: CipherTextRefreshmentInitialMessage,
    pub response: Scalar,
}

impl EncryptionKeys {
    pub open spec fn wf(&self) -> bool {
        self.pblc.wf() && self.scrt.wf()
    }
}

impl WellformednessProof {
    pub open spec fn wf(&self) -> bool {
        self.init.wf() && self.response.wf()
    }

    pub open spec fn spec_bytes(&self) -> Seq<u8> {
        self.init.a@ + self.init.b@ + self.response.z1@ + self.response.z2@
    }

    pub fn to_bytes(&self, out: &mut Vec<u8>)
        ensures
            final(out)@ == old(out)@ + self.spec_bytes(),
    {
        push_array(out, &self.init.a.bytes);
        push_array(out, &self.init.b.bytes);
        push_array(out, &self.response.z1.bytes);
        push_array(out, &self.response.z2.bytes);
        assert(final(out)@ =~= old(out)@ + self.spec_bytes());
    }
}

impl CorrectnessProof {
    pub open spec fn wf(&self) -> bool {
        self.init.wf() && self.response.wf()
    }

    pub open spec fn spec_bytes(&self) -> Seq<u8> {
        self.init.a@ + self.init.b@ + self.response@
    }

    pub fn to_bytes(&self, out: &mut Vec<u8>)
        ensures
            final(out)@ == old(out)@ + self.spec_bytes(),
    {
        push_array(out, &self.init.a.bytes);
        push_array(out, &self.init.b.bytes);
        push_array(out, &self.response.bytes);
        assert(final(out)@ =~= old(out)@ + self.spec_bytes());
    }
}

impl CipherEqualDifferentPubKeyProof {
    pub open spec fn wf(&self) -> bool {
        self.init.wf() && self.response.wf()
    }

    pub open spec fn spec_bytes(&self) -> Seq<u8> {
        self.init.a1@ + self.init.a2@ + self.init.b@ + self.response.z1@ + self.response.z2@
    }

    pub fn to_bytes(&self, out: &mut Vec<u8>)
        ensures
            final(out)@ == old(out)@ + self.spec_bytes(),
    {
        push_array(out, &self.init.a1.bytes);
        push_array(out, &self.init.a2.bytes);
        push_array(out, &self.init.b.bytes);
        push_array(out, &self.response.z1.bytes);
        push_array(out, &self.response.z2.bytes);
        assert(final(out)@ =~= old(out)@ + self.spec_bytes());
    }
}

impl CipherEqualSamePubKeyProof {
    pub open spec fn wf(&self) -> bool {
        self.init.wf() && self.response.wf()
    }

    pub open spec fn spec_bytes(&self) -> Seq<u8> {
        self.init.a@ + self.init.b@ + self.response@
    }

    pub fn to_bytes(&self, out: &mut Vec<u8>)
        ensures
            final(out)@ == old(out)@ + self.spec_bytes(),
    {
        push_array(out, &self.init.a.bytes);
        push_array(out, &self.init.b.bytes);
        push_array(out, &self.response.bytes);
        assert(final(out)@ =~= old(out)@ + self.spec_bytes());
    }
}

/// The encoding of a cipher text: `x` then `y`.
pub open spec fn cipher_bytes(c: CipherText) -> Seq<u8> {
    c.x@ + c.y@
}

/// Appends the encoding of a cipher text.
pub fn push_cipher(out: &mut Vec<u8>, c: &CipherText)
    ensures
        final(out)@ == old(out)@ + cipher_bytes(*c),
{
    push_array(out, &c.x.bytes);
    push_array(out, &c.y.bytes);
    assert(final(out)@ =~= old(out)@ + cipher_bytes(*c));
}

/// The encoding of a range proof: its commitment, the length of its bytes, and the bytes.
pub open spec fn range_bytes(p: InRangeProof) -> Seq<u8> {
    p.commitment@ + le4(p.proof@.len() as u32) + p.proof@
}

/// Appends the encoding of a range proof; the length prefix keeps the encoding injective.
pub fn push_range(out: &mut Vec<u8>, p: &InRangeProof)
    requires
        p.proof@.len() < 0x1_0000_0000,
    ensures
        final(out)@ == old(out)@ + range_bytes(*p),
{
    push_array(out, &p.commitment.bytes);
    push_u32(out, p.proof.len() as u32);
    push_bytes(out, p.proof.as_slice());
    assert(final(out)@ =~= old(out)@ + range_bytes(*p));
}

/// What an account publishes about its owner.
#[derive(Clone, Copy, Debug)]
pub struct AccountMemo {
    pub owner_enc_pub_key: ElgamalPublicKey,
    pub owner_sign_pub_key: SigningPubKey,
    pub timestamp: u32,
}

/// The public side of an account.
#[derive(Clone, Copy, Debug)]
pub struct PubAccount {
    pub id: u32,
    pub enc_asset_id: CipherText,
    pub enc_balance: CipherText,
    pub asset_wellformedness_proof: WellformednessProof,
    pub initial_balance_correctness_proof: CorrectnessProof,
    pub memo: AccountMemo,
    pub sig: Signature,
}

/// The secret side of an account.
pub struct SecAccount {
    pub enc_keys: EncryptionKeys,
    pub sign_keys: SigningKeys,
    pub asset_id: u32,
    pub asset_id_witness: CommitmentWitness,
}

impl PubAccount {
    pub open spec fn wf(&self) -> bool {
        &&& self.enc_asset_id.wf()
        &&& self.enc_balance.wf()
        &&& self.asset_wellformedness_proof.wf()
        &&& self.initial_balance_correctness_proof.wf()
        &&& self.memo.owner_enc_pub_key.wf()
    }
}

impl SecAccount {
    pub open spec fn wf(&self) -> bool {
        self.enc_keys.wf() && self.asset_id_witness.wf() && self.asset_id_witness.value == self.asset_id
    }

    /// Overwrites the secret key, the asset id and its witness with zeros.
    pub fn zeroize(&mut self)
        ensures
            final(self).enc_keys.scrt.secret@ == crate::group::u32_scalar_bytes(0),
            final(self).asset_id == 0,
            final(self).asset_id_witness.value == 0,
            final(self).asset_id_witness.blinding@ == crate::group::u32_scalar_bytes(0),
    {
        self.enc_keys.scrt.zeroize();
        self.asset_id = 0;
        self.asset_id_witness.zeroize();
    }
}

/// The signed content of an account: everything but the signature.
pub open spec fn account_content_bytes(a: PubAccount) -> Seq<u8> {
    le4(a.id) + cipher_bytes(a.enc_asset_id) + cipher_bytes(a.enc_balance)
        + a.asset_wellformedness_proof.spec_bytes() + a.initial_balance_correctness_proof.spec_bytes()
        + a.memo.owner_enc_pub_key.pub_key@ + a.memo.owner_sign_pub_key.bytes@ + le4(a.memo.timestamp)
}

/// The encoding of what an account's owner signs.
pub fn account_content_to_bytes(a: &PubAccount) -> (r: Vec<u8>)
    ensures
        r@ == account_content_bytes(*a),
{
    let mut out: Vec<u8> = Vec::new();
    push_u32(&mut out, a.id);
    push_cipher(&mut out, &a.enc_asset_id);
    push_cipher(&mut out, &a.enc_balance);
    a.asset_wellformedness_proof.to_bytes(&mut out);
    a.initial_balance_correctness_proof.to_bytes(&mut out);
    push_array(&mut out, &a.memo.owner_enc_pub_key.pub_key.bytes);
    push_array(&mut out, &a.memo.owner_sign_pub_key.bytes);
    push_u32(&mut out, a.memo.timestamp);
    assert(out@ =~= account_content_bytes(*a));
    out
}

} // verus!
