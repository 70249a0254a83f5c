//! Asset issuance: the issuer mints an encrypted amount into its account, the mediator
//! justifies it, and validators check both.

use vstd::prelude::*;
use crate::correctness_proof::{
    correctness_proof_verdict, prove_correctness, verify_correctness,
    CorrectnessProverAwaitingChallenge, CorrectnessVerifier,
};
use crate::elgamal::{
    decrypts_to, encryption_of, opens, unique_opening, CipherText, DecryptionTable, ElgamalPublicKey,
};
use crate::encrypting_same_value_proof::{
    esv_proof_verdict, prove_encrypting_same_value, verify_encrypting_same_value,
    EncryptingSameValueProverAwaitingChallenge, EncryptingSameValueVerifier,
};
use crate::errors::{err_of, ErrorKind, Fallible};
use crate::group::{point_add_of, PedersenBases};
use crate::mercat::{
    cipher_bytes, push_cipher, AssetTxState, CipherEqualDifferentPubKeyProof, CorrectnessProof,
    EncryptionKeys, PubAccount, SecAccount, TxSubstate, WellformednessProof,
};
use crate::codec::{le4, push_array, push_u32};
use crate::signing::{signs, Signature, SigningKeys, SigningPubKey};
use crate::transcript::err_of_spec;
use crate::wellformedness_proof::{
    prove_wellformedness, verify_wellformedness, wellformedness_proof_verdict,
    WellformednessProverAwaitingChallenge, WellformednessVerifier,
};

verus! {

/// What the issuer signs.
#[derive(Clone, Copy, Debug)]
pub struct AssetTxContent {
    pub account_id: u32,
    /// The asset id under the mediator's key.
    pub enc_asset_id: CipherText,
    /// The amount under the mediator's key.
    pub enc_amount: CipherText,
    /// The amount under the issuer's key.
    pub memo: CipherText,
    pub asset_id_equal_cipher_proof: CipherEqualDifferentPubKeyProof,
    pub balance_wellformedness_proof: WellformednessProof,
    pub balance_correctness_proof: CorrectnessProof,
}

/// An issuance signed by the issuer.
#[derive(Clone, Copy, Debug)]
pub struct InitializedAssetTx {
    pub content: AssetTxContent,
    pub sig: Signature,
}

/// An issuance countersigned by the mediator.
#[derive(Clone, Copy, Debug)]
pub struct JustifiedAssetTx {
    pub content: InitializedAssetTx,
    pub sig: Signature,
}

impl AssetTxContent {
    pub open spec fn wf(&self) -> bool {
        &&& self.enc_asset_id.wf()
        &&& self.enc_amount.wf()
        &&& self.memo.wf()
        &&& self.asset_id_equal_cipher_proof.wf()
        &&& self.balance_wellformedness_proof.wf()
        &&& self.balance_correctness_proof.wf()
    }

    pub open spec fn spec_bytes(&self) -> Seq<u8> {
        le4(self.account_id) + cipher_bytes(self.enc_asset_id) + cipher_bytes(self.enc_amount)
            + cipher_bytes(self.memo) + self.asset_id_equal_cipher_proof.spec_bytes()
            + self.balance_wellformedness_proof.spec_bytes() + self.balance_correctness_proof.spec_bytes()
    }

    /// The encoding that the issuer signs.
    pub fn to_bytes(&self) -> (r: Vec<u8>)
        ensures
            r@ == self.spec_bytes(),
    {
        let mut out: Vec<u8> = Vec::new();
        push_u32(&mut out, self.account_id);
        push_cipher(&mut out, &self.enc_asset_id);
        push_cipher(&mut out, &self.enc_amount);
        push_cipher(&mut out, &self.memo);
        self.asset_id_equal_cipher_proof.to_bytes(&mut out);
        self.balance_wellformedness_proof.to_bytes(&mut out);
        self.balance_correctness_proof.to_bytes(&mut out);
        assert(out@ =~= self.spec_bytes());
        out
    }
}

impl InitializedAssetTx {
    pub open spec fn spec_bytes(&self) -> Seq<u8> {
        self.content.spec_bytes() + self.sig.bytes@
    }

    /// The encoding that the mediator signs.
    pub fn to_bytes(&self) -> (r: Vec<u8>)
        ensures
            r@ == self.spec_bytes(),
    {
        let mut out = self.content.to_bytes();
        crate::codec::push_bytes(&mut out, &self.sig.bytes);
        out
    }
}

/// The issuer.
pub struct CtxIssuer {}

impl CtxIssuer {
    /// Encrypts the asset id and the amount to the mediator and the amount to the issuer
    /// itself, proves that the two asset-id cipher texts match and that the issuer's amount
    /// cipher text is well formed and holds `amount`, and signs.
    pub fn initialize(
        &self,
        issr_account_id: u32,
        issr_account: &SecAccount,
        mdtr_pub_key: &ElgamalPublicKey,
        amount: u32,
        gens: &PedersenBases,
        rng: &mut rand::rngs::StdRng,
    ) -> (r: Fallible<(InitializedAssetTx, AssetTxState)>)
        requires
            gens.wf(),
            issr_account.wf(),
            mdtr_pub_key.wf(),
        ensures
            r.is_ok() ==> ({
                let (tx, state) = r.unwrap();
                &&& state == AssetTxState::Initialization(TxSubstate::Started)
                &&& tx.content.wf()
                &&& tx.content.account_id == issr_account_id
                &&& (tx.content.enc_asset_id.x@, tx.content.enc_asset_id.y@) == encryption_of(*gens, mdtr_pub_key.pub_key@, issr_account.asset_id, issr_account.asset_id_witness.blinding@)
                &&& exists|b: Seq<u8>| (tx.content.enc_amount.x@, tx.content.enc_amount.y@) == encryption_of(*gens, mdtr_pub_key.pub_key@, amount, b)
                &&& exists|b: Seq<u8>| (tx.content.memo.x@, tx.content.memo.y@) == encryption_of(*gens, issr_account.enc_keys.pblc.pub_key@, amount, b)
            }),
            r.is_ok() ==> signs(issr_account.sign_keys.public_view(), r.unwrap().0.content.spec_bytes(), r.unwrap().0.sig.bytes@),
            r.is_err() ==> r == Err::<(InitializedAssetTx, AssetTxState), crate::errors::Error>(err_of_spec(ErrorKind::VerificationError))
                || r == Err::<(InitializedAssetTx, AssetTxState), crate::errors::Error>(err_of_spec(ErrorKind::SignatureValidationFailure)),
    {
        let mdtr_enc_asset_id = mdtr_pub_key.encrypt(gens, &issr_account.asset_id_witness);
        let (mdtr_w, mdtr_enc_amount) = mdtr_pub_key.encrypt_value(gens, amount, rng);
        let issr_pk = issr_account.enc_keys.pblc;
        let (issr_w, issr_enc_amount) = issr_pk.encrypt_value(gens, amount, rng);
        let esv = EncryptingSameValueProverAwaitingChallenge {
            pub_key1: issr_pk,
            pub_key2: *mdtr_pub_key,
            w: issr_account.asset_id_witness,
        };
        let (ei, er) = prove_encrypting_same_value(&esv, gens, rng)?;
        let wprover = WellformednessProverAwaitingChallenge { pub_key: issr_pk, w: issr_w };
        let (wi, wr) = prove_wellformedness(&wprover, gens, rng)?;
        let cprover = CorrectnessProverAwaitingChallenge::new(&issr_pk, &issr_w);
        let (ci, cz) = prove_correctness(&cprover, gens, rng)?;
        let content = AssetTxContent {
            account_id: issr_account_id,
            enc_asset_id: mdtr_enc_asset_id,
            enc_amount: mdtr_enc_amount,
            memo: issr_enc_amount,
            asset_id_equal_cipher_proof: CipherEqualDifferentPubKeyProof { init: ei, response: er },
            balance_wellformedness_proof: WellformednessProof { init: wi, response: wr },
            balance_correctness_proof: CorrectnessProof { init: ci, response: cz },
        };
        let message = content.to_bytes();
        let sig = match issr_account.sign_keys.sign(&message) {
            Some(sig) => sig,
            None => return Err(err_of(ErrorKind::SignatureValidationFailure)),
        };
        Ok((InitializedAssetTx { content, sig }, AssetTxState::Initialization(TxSubstate::Started)))
    }
}

/// The verdict on an issuance's signature and the proofs that need no decryption.
pub open spec fn init_verdict(tx: InitializedAssetTx, issr: PubAccount, mdtr_pub_key: ElgamalPublicKey, gens: PedersenBases) -> Fallible<()> {
    let ev = EncryptingSameValueVerifier {
        pub_key1: issr.memo.owner_enc_pub_key,
        pub_key2: mdtr_pub_key,
        cipher1: issr.enc_asset_id,
        cipher2: tx.content.enc_asset_id,
    };
    let wv = WellformednessVerifier { pub_key: issr.memo.owner_enc_pub_key, cipher: tx.content.memo };
    let ep = tx.content.asset_id_equal_cipher_proof;
    let wp = tx.content.balance_wellformedness_proof;
    if !signs(issr.memo.owner_sign_pub_key.bytes@, tx.content.spec_bytes(), tx.sig.bytes@) {
        Err(err_of_spec(ErrorKind::SignatureValidationFailure))
    } else if esv_proof_verdict(ev, gens, ep.init, ep.response).is_err() {
        esv_proof_verdict(ev, gens, ep.init, ep.response)
    } else {
        wellformedness_proof_verdict(wv, gens, wp.init, wp.response)
    }
}

/// Checks the issuer's signature, that the asset id sent to the mediator matches the
/// account's, and that the issuer's amount cipher text is well formed.
pub fn asset_issuance_init_verify(asset_tx: &InitializedAssetTx, issr_pub_account: &PubAccount, mdtr_enc_pub_key: &ElgamalPublicKey, gens: &PedersenBases) -> (r: Fallible<()>)
    requires
        gens.wf(),
        asset_tx.content.wf(),
        issr_pub_account.wf(),
        mdtr_enc_pub_key.wf(),
    ensures
        r == init_verdict(*asset_tx, *issr_pub_account, *mdtr_enc_pub_key, *gens),
{
    let message = asset_tx.content.to_bytes();
    if !issr_pub_account.memo.owner_sign_pub_key.verify(&message, &asset_tx.sig) {
        return Err(err_of(ErrorKind::SignatureValidationFailure));
    }
    let ev = EncryptingSameValueVerifier {
        pub_key1: issr_pub_account.memo.owner_enc_pub_key,
        pub_key2: *mdtr_enc_pub_key,
        cipher1: issr_pub_account.enc_asset_id,
        cipher2: asset_tx.content.enc_asset_id,
    };
    let ep = asset_tx.content.asset_id_equal_cipher_proof;
    verify_encrypting_same_value(&ev, gens, &ep.init, &ep.response)?;
    let wv = WellformednessVerifier { pub_key: issr_pub_account.memo.owner_enc_pub_key, cipher: asset_tx.content.memo };
    let wp = asset_tx.content.balance_wellformedness_proof;
    verify_wellformedness(&wv, gens, &wp.init, &wp.response)
}

/// Checks the state, then the issuance's signature and proofs.
pub fn verify_initialization(asset_tx: &InitializedAssetTx, state: AssetTxState, issr_pub_account: &PubAccount, mdtr_enc_pub_key: &ElgamalPublicKey, gens: &PedersenBases) -> (r: Fallible<AssetTxState>)
    requires
        gens.wf(),
        asset_tx.content.wf(),
        issr_pub_account.wf(),
        mdtr_enc_pub_key.wf(),
    ensures
        state != AssetTxState::Initialization(TxSubstate::Started) ==> r == Err::<AssetTxState, crate::errors::Error>(
            err_of_spec(ErrorKind::InvalidPreviousAssetTransactionState { state }),
        ),
        state == AssetTxState::Initialization(TxSubstate::Started) ==> (r.is_ok() <==> init_verdict(*asset_tx, *issr_pub_account, *mdtr_enc_pub_key, *gens).is_ok()),
        state == AssetTxState::Initialization(TxSubstate::Started) && r.is_err() ==> r == Err::<AssetTxState, crate::errors::Error>(
            init_verdict(*asset_tx, *issr_pub_account, *mdtr_enc_pub_key, *gens)->Err_0,
        ),
        r.is_ok() ==> r.unwrap() == AssetTxState::Initialization(TxSubstate::Validated),
{
    if state != AssetTxState::Initialization(TxSubstate::Started) {
        return Err(err_of(ErrorKind::InvalidPreviousAssetTransactionState { state }));
    }
    asset_issuance_init_verify(asset_tx, issr_pub_account, mdtr_enc_pub_key, gens)?;
    Ok(AssetTxState::Initialization(TxSubstate::Validated))
}

/// The mediator.
pub struct AssetTxIssueMediator {}

impl AssetTxIssueMediator {
    /// Re-checks the issuance, decrypts the amount sent to it, checks that the issuer's
    /// cipher text holds that amount, adds the issuer's cipher text to the account's
    /// balance, and countersigns.
    pub fn justify(
        &self,
        asset_tx: InitializedAssetTx,
        issr_pub_account: &PubAccount,
        state: AssetTxState,
        mdtr_enc_keys: &EncryptionKeys,
        mdtr_sign_keys: &SigningKeys,
        table: &DecryptionTable,
        gens: &PedersenBases,
    ) -> (r: Fallible<(JustifiedAssetTx, PubAccount)>)
        requires
            gens.wf(),
            table.wf(),
            asset_tx.content.wf(),
            issr_pub_account.wf(),
            mdtr_enc_keys.wf(),
        ensures
            state != AssetTxState::Initialization(TxSubstate::Started) ==> r == Err::<(JustifiedAssetTx, PubAccount), crate::errors::Error>(
                err_of_spec(ErrorKind::InvalidPreviousAssetTransactionState { state }),
            ),
            state == AssetTxState::Initialization(TxSubstate::Started) && init_verdict(asset_tx, *issr_pub_account, mdtr_enc_keys.pblc, *gens).is_err()
                ==> r == Err::<(JustifiedAssetTx, PubAccount), crate::errors::Error>(init_verdict(asset_tx, *issr_pub_account, mdtr_enc_keys.pblc, *gens)->Err_0),
            state == AssetTxState::Initialization(TxSubstate::Started) && init_verdict(asset_tx, *issr_pub_account, mdtr_enc_keys.pblc, *gens).is_ok()
                && !opens(*gens, mdtr_enc_keys.scrt.secret@, asset_tx.content.enc_amount)
                ==> r == Err::<(JustifiedAssetTx, PubAccount), crate::errors::Error>(err_of_spec(ErrorKind::CipherTextDecryptionError)),
            forall|amount: u32| state == AssetTxState::Initialization(TxSubstate::Started)
                && init_verdict(asset_tx, *issr_pub_account, mdtr_enc_keys.pblc, *gens).is_ok()
                && unique_opening(*gens, mdtr_enc_keys.scrt.secret@, asset_tx.content.enc_amount, amount)
                ==> ({
                    let v = correctness_proof_verdict(
                        CorrectnessVerifier { value: amount, pub_key: issr_pub_account.memo.owner_enc_pub_key, cipher: asset_tx.content.memo },
                        *gens,
                        asset_tx.content.balance_correctness_proof.init,
                        asset_tx.content.balance_correctness_proof.response@,
                    );
                    &&& v.is_err() ==> r == Err::<(JustifiedAssetTx, PubAccount), crate::errors::Error>(v->Err_0)
                    &&& v.is_ok() ==> r.is_ok() || r == Err::<(JustifiedAssetTx, PubAccount), crate::errors::Error>(
                        err_of_spec(ErrorKind::SignatureValidationFailure),
                    )
                }),
            r.is_ok() ==> ({
                let (jtx, updated) = r.unwrap();
                &&& state == AssetTxState::Initialization(TxSubstate::Started)
                &&& init_verdict(asset_tx, *issr_pub_account, mdtr_enc_keys.pblc, *gens).is_ok()
                &&& jtx.content == asset_tx
                &&& exists|amount: u32| decrypts_to(*gens, mdtr_enc_keys.scrt.secret@, asset_tx.content.enc_amount, amount)
                    && correctness_proof_verdict(
                        CorrectnessVerifier { value: amount, pub_key: issr_pub_account.memo.owner_enc_pub_key, cipher: asset_tx.content.memo },
                        *gens,
                        asset_tx.content.balance_correctness_proof.init,
                        asset_tx.content.balance_correctness_proof.response@,
                    ).is_ok()
                &&& updated == (PubAccount { enc_balance: updated.enc_balance, ..*issr_pub_account })
                &&& updated.wf()
                &&& updated.enc_balance.x@ == point_add_of(issr_pub_account.enc_balance.x@, asset_tx.content.memo.x@)
                &&& updated.enc_balance.y@ == point_add_of(issr_pub_account.enc_balance.y@, asset_tx.content.memo.y@)
                &&& signs(mdtr_sign_keys.public_view(), asset_tx.spec_bytes(), jtx.sig.bytes@)
            }),
    {
        if state != AssetTxState::Initialization(TxSubstate::Started) {
            return Err(err_of(ErrorKind::InvalidPreviousAssetTransactionState { state }));
        }
        asset_issuance_init_verify(&asset_tx, issr_pub_account, &mdtr_enc_keys.pblc, gens)?;
        let amount = mdtr_enc_keys.scrt.decrypt_with_table(table, gens, &asset_tx.content.enc_amount)?;
        let cv = CorrectnessVerifier::new(&amount, &issr_pub_account.memo.owner_enc_pub_key, &asset_tx.content.memo);
        let cp = asset_tx.content.balance_correctness_proof;
        verify_correctness(&cv, gens, &cp.init, &cp.response)?;
        let mut updated = *issr_pub_account;
        updated.enc_balance = issr_pub_account.enc_balance.add(&asset_tx.content.memo);
        let message = asset_tx.to_bytes();
        let sig = match mdtr_sign_keys.sign(&message) {
            Some(sig) => sig,
            None => return Err(err_of(ErrorKind::SignatureValidationFailure)),
        };
        Ok((JustifiedAssetTx { content: asset_tx, sig }, updated))
    }
}

/// The validator.
pub struct AssetTxIssueValidator {}

impl AssetTxIssueValidator {
    /// Checks the mediator's countersignature, then the issuer's signature and proofs.
    pub fn verify(
        &self,
        asset_tx: &JustifiedAssetTx,
        issr_account: &PubAccount,
        mdtr_enc_pub_key: &ElgamalPublicKey,
        mdtr_sign_pub_key: &SigningPubKey,
        gens: &PedersenBases,
    ) -> (r: Fallible<AssetTxState>)
        requires
            gens.wf(),
            asset_tx.content.content.wf(),
            issr_account.wf(),
            mdtr_enc_pub_key.wf(),
        ensures
            !signs(mdtr_sign_pub_key.bytes@, asset_tx.content.spec_bytes(), asset_tx.sig.bytes@) ==> r == Err::<AssetTxState, crate::errors::Error>(
                err_of_spec(ErrorKind::SignatureValidationFailure),
            ),
            signs(mdtr_sign_pub_key.bytes@, asset_tx.content.spec_bytes(), asset_tx.sig.bytes@) ==> (
                r.is_ok() <==> init_verdict(asset_tx.content, *issr_account, *mdtr_enc_pub_key, *gens).is_ok()),
            signs(mdtr_sign_pub_key.bytes@, asset_tx.content.spec_bytes(), asset_tx.sig.bytes@)
                && init_verdict(asset_tx.content, *issr_account, *mdtr_enc_pub_key, *gens).is_err()
                ==> r == Err::<AssetTxState, crate::errors::Error>(init_verdict(asset_tx.content, *issr_account, *mdtr_enc_pub_key, *gens)->Err_0),
            r.is_ok() ==> r.unwrap() == AssetTxState::Justification(TxSubstate::Validated),
    {
        let message = asset_tx.content.to_bytes();
        if !mdtr_sign_pub_key.verify(&message, &asset_tx.sig) {
            return Err(err_of(ErrorKind::SignatureValidationFailure));
        }
        verify_initialization(&asset_tx.content, AssetTxState::Initialization(TxSubstate::Started), issr_account, mdtr_enc_pub_key, gens)?;
        Ok(AssetTxState::Justification(TxSubstate::Validated))
    }
}

} // verus!
