//! Account creation and its verification.

use vstd::prelude::*;
use crate::correctness_proof::{
    correctness_proof_verdict, prove_correctness, verify_correctness,
    CorrectnessProverAwaitingChallenge, CorrectnessVerifier,
};
use crate::elgamal::{encryption_of, CommitmentWitness};
use crate::errors::{err_of, ErrorKind, Fallible};
use crate::group::{u32_scalar_bytes, PedersenBases, Scalar};
use crate::membership_proof::{
    membership_proof_verdict, prove_membership, verify_membership, MembershipProofFinalResponse,
    MembershipProofInitialMessage, MembershipProofVerifier, MembershipProverAwaitingChallenge,
};
use crate::one_out_of_many::{matrix_wf, OooNProofGenerators};
use crate::mercat::{
    account_content_bytes, account_content_to_bytes, AccountMemo, CorrectnessProof, PubAccount,
    SecAccount, WellformednessProof,
};
use crate::signing::{signs, Signature};
use crate::transcript::err_of_spec;
use crate::wellformedness_proof::{
    prove_wellformedness, verify_wellformedness, wellformedness_proof_verdict,
    WellformednessProverAwaitingChallenge, WellformednessVerifier,
};

verus! {

/// The proof that an account's encrypted asset id is one of the listed asset ids.
#[derive(Clone, Debug)]
pub struct AssetMembershipProof {
    pub init: MembershipProofInitialMessage,
    pub response: MembershipProofFinalResponse,
}

impl AssetMembershipProof {
    pub open spec fn wf(&self) -> bool {
        self.init.wf() && self.response.wf() && self.init.encodable() && self.response.encodable()
    }
}

/// The bases hold `m ≥ 1` rows of `n ≥ 2` entries, with `n^m` and both dimensions in range.
pub open spec fn generators_shaped(g: OooNProofGenerators) -> bool {
    let m = g.h_rows@.len();
    &&& g.wf()
    &&& 1 <= m <= u32::MAX
    &&& 2 <= g.h_rows@[0]@.len() <= u32::MAX
    &&& forall|j: int| 0 <= j < m ==> (#[trigger] g.h_rows@[j])@.len() == g.h_rows@[0]@.len()
    &&& crate::membership_proof::power(g.h_rows@[0]@.len() as nat, m as nat) <= usize::MAX
}

/// What the owner signs: the account's content, then the membership proof.
pub open spec fn signed_bytes(a: PubAccount, p: AssetMembershipProof) -> Seq<u8> {
    account_content_bytes(a) + p.init.spec_bytes() + p.response.spec_bytes()
}

fn signed_to_bytes(a: &PubAccount, p: &AssetMembershipProof) -> (r: Vec<u8>)
    requires
        p.wf(),
    ensures
        r@ == signed_bytes(*a, *p),
{
    let mut out = account_content_to_bytes(a);
    let im = p.init.to_bytes();
    let fr = p.response.to_bytes();
    crate::codec::push_bytes(&mut out, im.as_slice());
    crate::codec::push_bytes(&mut out, fr.as_slice());
    out
}

/// Creates the public side of an account: the asset id encrypted under the owner's key
/// with proofs that it is well formed and one of `asset_ids`, a zero balance encrypted with
/// a zero blinding with a proof that it holds zero, and the owner's signature over all of
/// it. Fails on an empty list and on an asset id that is not listed.
pub fn create_account(
    sec: &SecAccount,
    account_id: u32,
    timestamp: u32,
    asset_ids: &Vec<Scalar>,
    generators: &OooNProofGenerators,
    gens: &PedersenBases,
    rng: &mut rand::rngs::StdRng,
) -> (r: Fallible<(PubAccount, AssetMembershipProof)>)
    requires
        gens.wf(),
        sec.wf(),
        generators_shaped(*generators),
        generators.com_gens == *gens,
        forall|i: int| 0 <= i < asset_ids@.len() ==> (#[trigger] asset_ids@[i]).wf(),
    ensures
        asset_ids@.len() == 0 ==> r == Err::<(PubAccount, AssetMembershipProof), crate::errors::Error>(err_of_spec(ErrorKind::EmptyElementsSet)),
        asset_ids@.len() > 0 && !(exists|i: int| 0 <= i < asset_ids@.len() && asset_ids@[i]@ == u32_scalar_bytes(sec.asset_id))
            ==> r == Err::<(PubAccount, AssetMembershipProof), crate::errors::Error>(err_of_spec(ErrorKind::MembershipProofInvalidAssetError)),
        r.is_ok() ==> ({
            let (a, p) = r.unwrap();
            &&& a.wf()
            &&& p.wf()
            &&& a.id == account_id
            &&& a.memo.owner_enc_pub_key == sec.enc_keys.pblc
            &&& a.memo.timestamp == timestamp
            &&& (a.enc_asset_id.x@, a.enc_asset_id.y@) == encryption_of(*gens, sec.enc_keys.pblc.pub_key@, sec.asset_id, sec.asset_id_witness.blinding@)
            &&& (a.enc_balance.x@, a.enc_balance.y@) == encryption_of(*gens, sec.enc_keys.pblc.pub_key@, 0, u32_scalar_bytes(0))
            &&& exists|i: int| 0 <= i < asset_ids@.len() && asset_ids@[i]@ == u32_scalar_bytes(sec.asset_id)
            &&& signs(sec.sign_keys.public_view(), signed_bytes(a, p), a.sig.bytes@)
        }),
        r.is_err() ==> r == Err::<(PubAccount, AssetMembershipProof), crate::errors::Error>(err_of_spec(ErrorKind::VerificationError))
            || r == Err::<(PubAccount, AssetMembershipProof), crate::errors::Error>(err_of_spec(ErrorKind::EmptyElementsSet))
            || r == Err::<(PubAccount, AssetMembershipProof), crate::errors::Error>(err_of_spec(ErrorKind::MembershipProofInvalidAssetError))
            || r == Err::<(PubAccount, AssetMembershipProof), crate::errors::Error>(err_of_spec(ErrorKind::SignatureValidationFailure)),
{
    let pk = sec.enc_keys.pblc;
    let enc_asset_id = pk.encrypt(gens, &sec.asset_id_witness);
    let n = generators.h_rows[0].len();
    let m = generators.h_rows.len();
    let asset = Scalar::from_u32(sec.asset_id);
    let mprover = MembershipProverAwaitingChallenge::new(asset, sec.asset_id_witness.blinding, generators, asset_ids, n, m)?;
    let (mi, mr) = prove_membership(&mprover, generators, rng)?;
    let wprover = WellformednessProverAwaitingChallenge { pub_key: pk, w: sec.asset_id_witness };
    let (wi, wr) = prove_wellformedness(&wprover, gens, rng)?;
    let zero_w = CommitmentWitness::new(0, Scalar::zero());
    let enc_balance = pk.encrypt(gens, &zero_w);
    let cprover = CorrectnessProverAwaitingChallenge::new(&pk, &zero_w);
    let (ci, cz) = prove_correctness(&cprover, gens, rng)?;
    let memo = AccountMemo { owner_enc_pub_key: pk, owner_sign_pub_key: sec.sign_keys.public(), timestamp };
    let mut acc = PubAccount {
        id: account_id,
        enc_asset_id,
        enc_balance,
        asset_wellformedness_proof: WellformednessProof { init: wi, response: wr },
        initial_balance_correctness_proof: CorrectnessProof { init: ci, response: cz },
        memo,
        sig: Signature { bytes: [0u8; 64] },
    };
    let proof = AssetMembershipProof { init: mi, response: mr };
    let msg = signed_to_bytes(&acc, &proof);
    acc.sig = match sec.sign_keys.sign(&msg) {
        Some(sig) => sig,
        None => return Err(err_of(ErrorKind::SignatureValidationFailure)),
    };
    Ok((acc, proof))
}

/// The verdict on a newly created account.
pub open spec fn account_verdict(a: PubAccount, p: AssetMembershipProof, asset_ids: Vec<Scalar>, generators: OooNProofGenerators, gens: PedersenBases) -> Fallible<()> {
    let wv = WellformednessVerifier { pub_key: a.memo.owner_enc_pub_key, cipher: a.enc_asset_id };
    let mv = MembershipProofVerifier { secret_element_com: a.enc_asset_id.y, elements_set: asset_ids };
    let cv = CorrectnessVerifier { value: 0, pub_key: a.memo.owner_enc_pub_key, cipher: a.enc_balance };
    let wp = a.asset_wellformedness_proof;
    let cp = a.initial_balance_correctness_proof;
    if wellformedness_proof_verdict(wv, gens, wp.init, wp.response).is_err() {
        wellformedness_proof_verdict(wv, gens, wp.init, wp.response)
    } else if membership_proof_verdict(generators, mv, p.init, p.response).is_err() {
        membership_proof_verdict(generators, mv, p.init, p.response)
    } else if correctness_proof_verdict(cv, gens, cp.init, cp.response@).is_err() {
        correctness_proof_verdict(cv, gens, cp.init, cp.response@)
    } else if !signs(a.memo.owner_sign_pub_key.bytes@, signed_bytes(a, p), a.sig.bytes@) {
        Err(err_of_spec(ErrorKind::SignatureValidationFailure))
    } else {
        Ok(())
    }
}

/// Verifies a newly created account: the asset id's wellformedness and membership in
/// `asset_ids`, the zero balance, and the owner's signature, in that order.
pub fn verify_account(
    a: &PubAccount,
    p: &AssetMembershipProof,
    asset_ids: &Vec<Scalar>,
    generators: &OooNProofGenerators,
    gens: &PedersenBases,
) -> (r: Fallible<()>)
    requires
        gens.wf(),
        generators.wf(),
        a.wf(),
        p.wf(),
        forall|i: int| 0 <= i < asset_ids@.len() ==> (#[trigger] asset_ids@[i]).wf(),
    ensures
        r == account_verdict(*a, *p, *asset_ids, *generators, *gens),
{
    let wv = WellformednessVerifier { pub_key: a.memo.owner_enc_pub_key, cipher: a.enc_asset_id };
    let wp = a.asset_wellformedness_proof;
    verify_wellformedness(&wv, gens, &wp.init, &wp.response)?;
    let mv = MembershipProofVerifier { secret_element_com: a.enc_asset_id.y, elements_set: asset_ids.clone() };
    let ghost same = MembershipProofVerifier { secret_element_com: a.enc_asset_id.y, elements_set: *asset_ids };
    assert(mv.elements_set@ == asset_ids@);
    proof {
        crate::membership_proof::lemma_verdict_depends_on_set_view(*generators, mv, same, p.init, p.response);
    }
    verify_membership(&mv, generators, &p.init, &p.response)?;
    let cv = CorrectnessVerifier::new(&0, &a.memo.owner_enc_pub_key, &a.enc_balance);
    let cp = a.initial_balance_correctness_proof;
    verify_correctness(&cv, gens, &cp.init, &cp.response)?;
    let msg = signed_to_bytes(a, p);
    if !a.memo.owner_sign_pub_key.verify(&msg, &a.sig) {
        return Err(err_of(ErrorKind::SignatureValidationFailure));
    }
    Ok(())
}

} // verus!
