//! Confidential transfers: the sender encrypts the amount to both parties and proves the
//! transfer sound, the mediator countersigns, the receiver checks what it gets and binds
//! the asset, and validators re-check every step.

use vstd::prelude::*;
use crate::ciphertext_refreshment_proof::{
    prove_refreshment, refreshment_proof_verdict, verify_refreshment,
    CipherTextRefreshmentProverAwaitingChallenge, CipherTextRefreshmentVerifier,
};
use crate::codec::{le4, push_bytes, push_u32};
use crate::elgamal::{
    decrypts_to, encrypt_using_two_pub_keys, encryption_of, opens, unique_opening, CipherText,
    CommitmentWitness, DecryptionTable, ElgamalPublicKey,
};
use crate::encrypting_same_value_proof::{
    esv_proof_verdict, prove_encrypting_same_value, verify_encrypting_same_value,
    EncryptingSameValueProverAwaitingChallenge, EncryptingSameValueVerifier,
};
use crate::errors::{err_of, ErrorKind, Fallible};
use crate::group::{point_add_of, point_sub_of, PedersenBases, Scalar};
use crate::mercat::{
    cipher_bytes, push_cipher, push_range, range_bytes, CipherEqualDifferentPubKeyProof,
    CipherEqualSamePubKeyProof, ConfidentialTxState, EncryptionKeys, PubAccount, TxSubstate,
};
use crate::range_proof::{prove_within_range, verify_within_range, InRangeProof};
use crate::signing::{signs, Signature, SigningKeys};
use crate::transcript::err_of_spec;

verus! {

/// The public part of a transfer.
#[derive(Clone, Copy, Debug)]
pub struct ConfidentialTxMemo {
    pub sndr_account_id: u32,
    pub rcvr_account_id: u32,
    pub enc_amount_using_sndr: CipherText,
    pub enc_amount_using_rcvr: CipherText,
    pub sndr_pub_key: ElgamalPublicKey,
    pub rcvr_pub_key: ElgamalPublicKey,
    pub refreshed_enc_balance: CipherText,
    pub refreshed_enc_asset_id: CipherText,
    pub enc_asset_id_using_rcvr: CipherText,
}

impl ConfidentialTxMemo {
    pub open spec fn wf(&self) -> bool {
        &&& self.enc_amount_using_sndr.wf()
        &&& self.enc_amount_using_rcvr.wf()
        &&& self.sndr_pub_key.wf()
        &&& self.rcvr_pub_key.wf()
        &&& self.refreshed_enc_balance.wf()
        &&& self.refreshed_enc_asset_id.wf()
        &&& self.enc_asset_id_using_rcvr.wf()
    }

    pub open spec fn spec_bytes(&self) -> Seq<u8> {
        le4(self.sndr_account_id) + le4(self.rcvr_account_id) + cipher_bytes(self.enc_amount_using_sndr)
            + cipher_bytes(self.enc_amount_using_rcvr) + self.sndr_pub_key.pub_key@ + self.rcvr_pub_key.pub_key@
            + cipher_bytes(self.refreshed_enc_balance) + cipher_bytes(self.refreshed_enc_asset_id)
            + cipher_bytes(self.enc_asset_id_using_rcvr)
    }

    pub fn to_bytes(&self, out: &mut Vec<u8>)
        ensures
            final(out)@ == old(out)@ + self.spec_bytes(),
    {
        push_u32(out, self.sndr_account_id);
        push_u32(out, self.rcvr_account_id);
        push_cipher(out, &self.enc_amount_using_sndr);
        push_cipher(out, &self.enc_amount_using_rcvr);
        crate::codec::push_array(out, &self.sndr_pub_key.pub_key.bytes);
        crate::codec::push_array(out, &self.rcvr_pub_key.pub_key.bytes);
        push_cipher(out, &self.refreshed_enc_balance);
        push_cipher(out, &self.refreshed_enc_asset_id);
        push_cipher(out, &self.enc_asset_id_using_rcvr);
        assert(final(out)@ =~= old(out)@ + self.spec_bytes());
    }
}

/// What the sender signs: the memo and six proofs.
#[derive(Clone, Debug)]
pub struct PubInitConfidentialTxDataContent {
    pub memo: ConfidentialTxMemo,
    pub amount_equal_cipher_proof: CipherEqualDifferentPubKeyProof,
    pub non_neg_amount_proof: InRangeProof,
    pub enough_fund_proof: InRangeProof,
    pub balance_refreshed_same_proof: CipherEqualSamePubKeyProof,
    pub asset_id_refreshed_same_proof: CipherEqualSamePubKeyProof,
    pub asset_id_equal_cipher_proof: CipherEqualDifferentPubKeyProof,
}

impl PubInitConfidentialTxDataContent {
    pub open spec fn wf(&self) -> bool {
        &&& self.memo.wf()
        &&& self.amount_equal_cipher_proof.wf()
        &&& self.non_neg_amount_proof.wf()
        &&& self.enough_fund_proof.wf()
        &&& self.balance_refreshed_same_proof.wf()
        &&& self.asset_id_refreshed_same_proof.wf()
        &&& self.asset_id_equal_cipher_proof.wf()
    }

    pub open spec fn spec_bytes(&self) -> Seq<u8> {
        self.memo.spec_bytes() + self.amount_equal_cipher_proof.spec_bytes() + range_bytes(self.non_neg_amount_proof)
            + range_bytes(self.enough_fund_proof) + self.balance_refreshed_same_proof.spec_bytes()
            + self.asset_id_refreshed_same_proof.spec_bytes() + self.asset_id_equal_cipher_proof.spec_bytes()
    }

    /// The encoding that the sender signs.
    pub fn to_bytes(&self) -> (r: Vec<u8>)
        requires
            self.wf(),
        ensures
            r@ == self.spec_bytes(),
    {
        let mut out: Vec<u8> = Vec::new();
        self.memo.to_bytes(&mut out);
        self.amount_equal_cipher_proof.to_bytes(&mut out);
        push_range(&mut out, &self.non_neg_amount_proof);
        push_range(&mut out, &self.enough_fund_proof);
        self.balance_refreshed_same_proof.to_bytes(&mut out);
        self.asset_id_refreshed_same_proof.to_bytes(&mut out);
        self.asset_id_equal_cipher_proof.to_bytes(&mut out);
        assert(out@ =~= self.spec_bytes());
        out
    }
}

/// A transfer signed by its sender.
#[derive(Clone, Debug)]
pub struct PubInitConfidentialTxData {
    pub content: PubInitConfidentialTxDataContent,
    pub sig: Signature,
}

impl PubInitConfidentialTxData {
    pub open spec fn spec_bytes(&self) -> Seq<u8> {
        self.content.spec_bytes() + self.sig.bytes@
    }

    pub fn to_bytes(&self) -> (r: Vec<u8>)
        requires
            self.content.wf(),
        ensures
            r@ == self.spec_bytes(),
    {
        let mut out = self.content.to_bytes();
        push_bytes(&mut out, &self.sig.bytes);
        out
    }
}

/// A transfer countersigned by the mediator.
#[derive(Clone, Debug)]
pub struct JustifiedInitConfidentialTxData {
    pub content: PubInitConfidentialTxData,
    pub sig: Signature,
}

/// What the receiver signs: the sender's transfer and its asset-id binding.
#[derive(Clone, Debug)]
pub struct PubFinalConfidentialTxDataContent {
    pub init_data: PubInitConfidentialTxData,
    pub asset_id_equal_cipher_proof: CipherEqualSamePubKeyProof,
}

impl PubFinalConfidentialTxDataContent {
    pub open spec fn spec_bytes(&self) -> Seq<u8> {
        self.init_data.spec_bytes() + self.asset_id_equal_cipher_proof.spec_bytes()
    }

    pub fn to_bytes(&self) -> (r: Vec<u8>)
        requires
            self.init_data.content.wf(),
        ensures
            r@ == self.spec_bytes(),
    {
        let mut out = self.init_data.to_bytes();
        self.asset_id_equal_cipher_proof.to_bytes(&mut out);
        out
    }
}

/// A transfer signed by its receiver.
#[derive(Clone, Debug)]
pub struct PubFinalConfidentialTxData {
    pub content: PubFinalConfidentialTxDataContent,
    pub sig: Signature,
}

/// The sender.
pub struct CtxSender {}

/// The verdicts of the sender's four Σ-proofs, and the commitments of its range proofs,
/// against the sender's account.
pub open spec fn init_sigma_proofs_hold(c: PubInitConfidentialTxDataContent, sndr: PubAccount, gens: PedersenBases) -> bool {
    let m = c.memo;
    let key = sndr.memo.owner_enc_pub_key;
    &&& esv_proof_verdict(
        EncryptingSameValueVerifier { pub_key1: key, pub_key2: m.rcvr_pub_key, cipher1: m.enc_amount_using_sndr, cipher2: m.enc_amount_using_rcvr },
        gens, c.amount_equal_cipher_proof.init, c.amount_equal_cipher_proof.response,
    ).is_ok()
    &&& c.non_neg_amount_proof.commitment@ == m.enc_amount_using_sndr.y@
    &&& refreshment_proof_verdict(
        CipherTextRefreshmentVerifier { pub_key: key, cipher1: sndr.enc_balance, cipher2: m.refreshed_enc_balance },
        gens, c.balance_refreshed_same_proof.init, c.balance_refreshed_same_proof.response@,
    ).is_ok()
    &&& c.enough_fund_proof.commitment@ == point_sub_of(m.refreshed_enc_balance.y@, m.enc_amount_using_sndr.y@)
    &&& refreshment_proof_verdict(
        CipherTextRefreshmentVerifier { pub_key: key, cipher1: sndr.enc_asset_id, cipher2: m.refreshed_enc_asset_id },
        gens, c.asset_id_refreshed_same_proof.init, c.asset_id_refreshed_same_proof.response@,
    ).is_ok()
    &&& esv_proof_verdict(
        EncryptingSameValueVerifier { pub_key1: key, pub_key2: m.rcvr_pub_key, cipher1: m.refreshed_enc_asset_id, cipher2: m.enc_asset_id_using_rcvr },
        gens, c.asset_id_equal_cipher_proof.init, c.asset_id_equal_cipher_proof.response,
    ).is_ok()
}

/// The verdict of the sender's proofs against the sender's account, given the outcomes of
/// the two range-proof checks (which draw random weights): the account id and key, the
/// matching amount cipher texts, the amount's range, the refreshed balance, its cover of
/// the amount, the refreshed asset id, and the asset id sent to the receiver, in order.
pub open spec fn init_proofs_verdict(c: PubInitConfidentialTxDataContent, sndr: PubAccount, gens: PedersenBases, range1: bool, range2: bool) -> Fallible<()> {
    let m = c.memo;
    let key = sndr.memo.owner_enc_pub_key;
    let amounts = EncryptingSameValueVerifier { pub_key1: key, pub_key2: m.rcvr_pub_key, cipher1: m.enc_amount_using_sndr, cipher2: m.enc_amount_using_rcvr };
    let balance = CipherTextRefreshmentVerifier { pub_key: key, cipher1: sndr.enc_balance, cipher2: m.refreshed_enc_balance };
    let asset = CipherTextRefreshmentVerifier { pub_key: key, cipher1: sndr.enc_asset_id, cipher2: m.refreshed_enc_asset_id };
    let assets = EncryptingSameValueVerifier { pub_key1: key, pub_key2: m.rcvr_pub_key, cipher1: m.refreshed_enc_asset_id, cipher2: m.enc_asset_id_using_rcvr };
    if sndr.id != m.sndr_account_id {
        Err(err_of_spec(ErrorKind::AccountIdMismatch))
    } else if m.sndr_pub_key.pub_key@ != key.pub_key@ {
        Err(err_of_spec(ErrorKind::InputPubKeyMismatch))
    } else if esv_proof_verdict(amounts, gens, c.amount_equal_cipher_proof.init, c.amount_equal_cipher_proof.response).is_err() {
        esv_proof_verdict(amounts, gens, c.amount_equal_cipher_proof.init, c.amount_equal_cipher_proof.response)
    } else if !range1 {
        Err(err_of_spec(ErrorKind::VerificationError))
    } else if refreshment_proof_verdict(balance, gens, c.balance_refreshed_same_proof.init, c.balance_refreshed_same_proof.response@).is_err() {
        refreshment_proof_verdict(balance, gens, c.balance_refreshed_same_proof.init, c.balance_refreshed_same_proof.response@)
    } else if !range2 {
        Err(err_of_spec(ErrorKind::VerificationError))
    } else if refreshment_proof_verdict(asset, gens, c.asset_id_refreshed_same_proof.init, c.asset_id_refreshed_same_proof.response@).is_err() {
        refreshment_proof_verdict(asset, gens, c.asset_id_refreshed_same_proof.init, c.asset_id_refreshed_same_proof.response@)
    } else {
        esv_proof_verdict(assets, gens, c.asset_id_equal_cipher_proof.init, c.asset_id_equal_cipher_proof.response)
    }
}

/// What an accepting range check guarantees: the proof is about the commitment that the
/// verifier derived (the sender's amount, or the refreshed balance minus it).
pub open spec fn range_outcomes_sound(c: PubInitConfidentialTxDataContent, range1: bool, range2: bool) -> bool {
    &&& range1 ==> c.non_neg_amount_proof.commitment@ == c.memo.enc_amount_using_sndr.y@
    &&& range2 ==> c.enough_fund_proof.commitment@ == point_sub_of(c.memo.refreshed_enc_balance.y@, c.memo.enc_amount_using_sndr.y@)
}

/// The outcome of a verdict, carried into a state on success.
pub open spec fn lift(v: Fallible<()>, s: ConfidentialTxState) -> Fallible<ConfidentialTxState> {
    match v {
        Ok(_) => Ok(s),
        Err(e) => Err(e),
    }
}

impl CtxSender {
    /// Creates a transfer of `amount` of `asset_id` from the sender's account: fails when
    /// the balance does not decrypt, when it does not cover the amount, and when the
    /// account's encrypted asset id is not `asset_id`.
    pub fn create(
        &self,
        sndr_enc_keys: &EncryptionKeys,
        sndr_sign_keys: &SigningKeys,
        sndr_account: &PubAccount,
        rcvr_pub_key: &ElgamalPublicKey,
        rcvr_account: &PubAccount,
        asset_id: u32,
        amount: u32,
        table: &DecryptionTable,
        gens: &PedersenBases,
        rng: &mut rand::rngs::StdRng,
    ) -> (r: Fallible<(PubInitConfidentialTxData, ConfidentialTxState)>)
        requires
            gens.wf(),
            table.wf(),
            sndr_enc_keys.wf(),
            sndr_account.wf(),
            rcvr_pub_key.wf(),
        ensures
            !opens(*gens, sndr_enc_keys.scrt.secret@, sndr_account.enc_balance)
                ==> r == Err::<(PubInitConfidentialTxData, ConfidentialTxState), crate::errors::Error>(err_of_spec(ErrorKind::CipherTextDecryptionError)),
            forall|balance: u32| unique_opening(*gens, sndr_enc_keys.scrt.secret@, sndr_account.enc_balance, balance) && balance < amount
                ==> r == Err::<(PubInitConfidentialTxData, ConfidentialTxState), crate::errors::Error>(
                    err_of_spec(ErrorKind::NotEnoughFund { balance, transaction_amount: amount }),
                ),
            forall|balance: u32| unique_opening(*gens, sndr_enc_keys.scrt.secret@, sndr_account.enc_balance, balance) && balance >= amount
                && !decrypts_to(*gens, sndr_enc_keys.scrt.secret@, sndr_account.enc_asset_id, asset_id)
                ==> r == Err::<(PubInitConfidentialTxData, ConfidentialTxState), crate::errors::Error>(err_of_spec(ErrorKind::AccountIdMismatch)),
            forall|balance: u32| unique_opening(*gens, sndr_enc_keys.scrt.secret@, sndr_account.enc_balance, balance) && balance >= amount
                && decrypts_to(*gens, sndr_enc_keys.scrt.secret@, sndr_account.enc_asset_id, asset_id)
                ==> r.is_ok()
                || r == Err::<(PubInitConfidentialTxData, ConfidentialTxState), crate::errors::Error>(err_of_spec(ErrorKind::ProvingError))
                || r == Err::<(PubInitConfidentialTxData, ConfidentialTxState), crate::errors::Error>(err_of_spec(ErrorKind::VerificationError))
                || r == Err::<(PubInitConfidentialTxData, ConfidentialTxState), crate::errors::Error>(err_of_spec(ErrorKind::SignatureValidationFailure)),
            r.is_ok() ==> ({
                let (tx, state) = r.unwrap();
                let m = tx.content.memo;
                &&& state == ConfidentialTxState::Initialization(TxSubstate::Started)
                &&& tx.content.wf()
                &&& m.sndr_account_id == sndr_account.id
                &&& m.rcvr_account_id == rcvr_account.id
                &&& m.sndr_pub_key == sndr_enc_keys.pblc
                &&& m.rcvr_pub_key == *rcvr_pub_key
                &&& exists|b: Seq<u8>|
                    (m.enc_amount_using_sndr.x@, m.enc_amount_using_sndr.y@) == encryption_of(*gens, sndr_enc_keys.pblc.pub_key@, amount, b)
                    && (m.enc_amount_using_rcvr.x@, m.enc_amount_using_rcvr.y@) == encryption_of(*gens, rcvr_pub_key.pub_key@, amount, b)
                &&& exists|b: Seq<u8>|
                    (m.refreshed_enc_asset_id.x@, m.refreshed_enc_asset_id.y@) == encryption_of(*gens, sndr_enc_keys.pblc.pub_key@, asset_id, b)
                    && (m.enc_asset_id_using_rcvr.x@, m.enc_asset_id_using_rcvr.y@) == encryption_of(*gens, rcvr_pub_key.pub_key@, asset_id, b)
                &&& exists|balance: u32, b: Seq<u8>|
                    decrypts_to(*gens, sndr_enc_keys.scrt.secret@, sndr_account.enc_balance, balance) && balance >= amount
                    && (m.refreshed_enc_balance.x@, m.refreshed_enc_balance.y@) == encryption_of(*gens, sndr_enc_keys.pblc.pub_key@, balance, b)
                &&& decrypts_to(*gens, sndr_enc_keys.scrt.secret@, sndr_account.enc_asset_id, asset_id)
                &&& tx.content.non_neg_amount_proof.commitment@ == m.enc_amount_using_sndr.y@
                &&& tx.content.enough_fund_proof.commitment@ == point_sub_of(m.refreshed_enc_balance.y@, m.enc_amount_using_sndr.y@)
                &&& signs(sndr_sign_keys.public_view(), tx.content.spec_bytes(), tx.sig.bytes@)
            }),
    {
        let balance = sndr_enc_keys.scrt.decrypt_with_table(table, gens, &sndr_account.enc_balance)?;
        if balance < amount {
            return Err(err_of(ErrorKind::NotEnoughFund { balance, transaction_amount: amount }));
        }
        let held = sndr_account.enc_asset_id;
        let held_point = held.y.sub(&held.x.mul(&sndr_enc_keys.scrt.secret.invert()));
        if !gens.b.mul(&Scalar::from_u32(asset_id)).equals(&held_point) {
            return Err(err_of(ErrorKind::AccountIdMismatch));
        }
        let sndr_pk = sndr_enc_keys.pblc;
        let amount_w = CommitmentWitness::new(amount, Scalar::random(rng));
        let (enc_amount_using_sndr, enc_amount_using_rcvr) = encrypt_using_two_pub_keys(gens, &amount_w, &sndr_pk, rcvr_pub_key);
        let amount_prover = EncryptingSameValueProverAwaitingChallenge { pub_key1: sndr_pk, pub_key2: *rcvr_pub_key, w: amount_w };
        let (ai, ar) = prove_encrypting_same_value(&amount_prover, gens, rng)?;
        let non_neg_amount_proof = prove_within_range(gens, amount, &amount_w.blinding, rng)?;

        let balance_w = CommitmentWitness::new(balance, Scalar::random(rng));
        let refreshed_enc_balance = sndr_pk.encrypt(gens, &balance_w);
        let balance_prover = CipherTextRefreshmentProverAwaitingChallenge::new(sndr_enc_keys.scrt, sndr_account.enc_balance, refreshed_enc_balance);
        let (bi, br) = prove_refreshment(&balance_prover, gens, rng)?;
        let fund_blinding = balance_w.blinding.sub(&amount_w.blinding);
        let mut enough_fund_proof = prove_within_range(gens, balance - amount, &fund_blinding, rng)?;
        enough_fund_proof.commitment = refreshed_enc_balance.y.sub(&enc_amount_using_sndr.y);

        let asset_w = CommitmentWitness::new(asset_id, Scalar::random(rng));
        let refreshed_enc_asset_id = sndr_pk.encrypt(gens, &asset_w);
        let asset_prover = CipherTextRefreshmentProverAwaitingChallenge::new(sndr_enc_keys.scrt, sndr_account.enc_asset_id, refreshed_enc_asset_id);
        let (si, sr) = prove_refreshment(&asset_prover, gens, rng)?;
        let enc_asset_id_using_rcvr = rcvr_pub_key.encrypt(gens, &asset_w);
        let asset_equal_prover = EncryptingSameValueProverAwaitingChallenge { pub_key1: sndr_pk, pub_key2: *rcvr_pub_key, w: asset_w };
        let (qi, qr) = prove_encrypting_same_value(&asset_equal_prover, gens, rng)?;

        let content = PubInitConfidentialTxDataContent {
            memo: ConfidentialTxMemo {
                sndr_account_id: sndr_account.id,
                rcvr_account_id: rcvr_account.id,
                enc_amount_using_sndr,
                enc_amount_using_rcvr,
                sndr_pub_key: sndr_pk,
                rcvr_pub_key: *rcvr_pub_key,
                refreshed_enc_balance,
                refreshed_enc_asset_id,
                enc_asset_id_using_rcvr,
            },
            amount_equal_cipher_proof: CipherEqualDifferentPubKeyProof { init: ai, response: ar },
            non_neg_amount_proof,
            enough_fund_proof,
            balance_refreshed_same_proof: CipherEqualSamePubKeyProof { init: bi, response: br },
            asset_id_refreshed_same_proof: CipherEqualSamePubKeyProof { init: si, response: sr },
            asset_id_equal_cipher_proof: CipherEqualDifferentPubKeyProof { init: qi, response: qr },
        };
        let message = content.to_bytes();
        let sig = match sndr_sign_keys.sign(&message) {
            Some(sig) => sig,
            None => return Err(err_of(ErrorKind::SignatureValidationFailure)),
        };
        Ok((PubInitConfidentialTxData { content, sig }, ConfidentialTxState::Initialization(TxSubstate::Started)))
    }
}

/// Checks the sender's proofs against the sender's account; see `init_proofs_verdict`.
pub fn verify_initial_transaction_proofs(transaction: &PubInitConfidentialTxData, sndr_account: &PubAccount, gens: &PedersenBases) -> (r: Fallible<()>)
    requires
        gens.wf(),
        transaction.content.wf(),
        sndr_account.wf(),
    ensures
        exists|range1: bool, range2: bool| range_outcomes_sound(transaction.content, range1, range2)
            && r == init_proofs_verdict(transaction.content, *sndr_account, *gens, range1, range2),
        r.is_ok() ==> init_sigma_proofs_hold(transaction.content, *sndr_account, *gens),
{
    let c = &transaction.content;
    let m = &c.memo;
    if sndr_account.id != m.sndr_account_id {
        assert(range_outcomes_sound(*c, false, false));
        return Err(err_of(ErrorKind::AccountIdMismatch));
    }
    if !m.sndr_pub_key.pub_key.equals(&sndr_account.memo.owner_enc_pub_key.pub_key) {
        assert(range_outcomes_sound(*c, false, false));
        return Err(err_of(ErrorKind::InputPubKeyMismatch));
    }
    let key = sndr_account.memo.owner_enc_pub_key;
    let ev = EncryptingSameValueVerifier { pub_key1: key, pub_key2: m.rcvr_pub_key, cipher1: m.enc_amount_using_sndr, cipher2: m.enc_amount_using_rcvr };
    if let Err(e) = verify_encrypting_same_value(&ev, gens, &c.amount_equal_cipher_proof.init, &c.amount_equal_cipher_proof.response) {
        assert(range_outcomes_sound(*c, false, false));
        return Err(e);
    }
    let range1 = verify_within_range(gens, &c.non_neg_amount_proof, &m.enc_amount_using_sndr.y);
    if range1.is_err() {
        assert(range_outcomes_sound(*c, false, false));
        return Err(err_of(ErrorKind::VerificationError));
    }
    let bv = CipherTextRefreshmentVerifier::new(key, sndr_account.enc_balance, m.refreshed_enc_balance);
    if let Err(e) = verify_refreshment(&bv, gens, &c.balance_refreshed_same_proof.init, &c.balance_refreshed_same_proof.response) {
        assert(range_outcomes_sound(*c, true, false));
        return Err(e);
    }
    let fund = m.refreshed_enc_balance.y.sub(&m.enc_amount_using_sndr.y);
    let range2 = verify_within_range(gens, &c.enough_fund_proof, &fund);
    if range2.is_err() {
        assert(range_outcomes_sound(*c, true, false));
        return Err(err_of(ErrorKind::VerificationError));
    }
    assert(range_outcomes_sound(*c, true, true));
    let av = CipherTextRefreshmentVerifier::new(key, sndr_account.enc_asset_id, m.refreshed_enc_asset_id);
    if let Err(e) = verify_refreshment(&av, gens, &c.asset_id_refreshed_same_proof.init, &c.asset_id_refreshed_same_proof.response) {
        return Err(e);
    }
    let qv = EncryptingSameValueVerifier { pub_key1: key, pub_key2: m.rcvr_pub_key, cipher1: m.refreshed_enc_asset_id, cipher2: m.enc_asset_id_using_rcvr };
    verify_encrypting_same_value(&qv, gens, &c.asset_id_equal_cipher_proof.init, &c.asset_id_equal_cipher_proof.response)
}

/// Validates the sender's step.
pub struct CtxSenderValidator {}

impl CtxSenderValidator {
    /// Checks the state, the sender's signature, then the sender's proofs.
    pub fn verify(&self, transaction: &PubInitConfidentialTxData, sndr_account: &PubAccount, state: ConfidentialTxState, gens: &PedersenBases) -> (r: Fallible<ConfidentialTxState>)
        requires
            gens.wf(),
            transaction.content.wf(),
            sndr_account.wf(),
        ensures
            state != ConfidentialTxState::Initialization(TxSubstate::Started) ==> r == Err::<ConfidentialTxState, crate::errors::Error>(
                err_of_spec(ErrorKind::InvalidPreviousState { state }),
            ),
            state == ConfidentialTxState::Initialization(TxSubstate::Started)
                && !signs(sndr_account.memo.owner_sign_pub_key.bytes@, transaction.content.spec_bytes(), transaction.sig.bytes@)
                ==> r == Err::<ConfidentialTxState, crate::errors::Error>(err_of_spec(ErrorKind::SignatureValidationFailure)),
            state == ConfidentialTxState::Initialization(TxSubstate::Started)
                && signs(sndr_account.memo.owner_sign_pub_key.bytes@, transaction.content.spec_bytes(), transaction.sig.bytes@)
                ==> exists|range1: bool, range2: bool| range_outcomes_sound(transaction.content, range1, range2)
                    && r == lift(init_proofs_verdict(transaction.content, *sndr_account, *gens, range1, range2), ConfidentialTxState::Initialization(TxSubstate::Validated)),
            r.is_ok() ==> r.unwrap() == ConfidentialTxState::Initialization(TxSubstate::Validated)
                && init_sigma_proofs_hold(transaction.content, *sndr_account, *gens),
    {
        if state != ConfidentialTxState::Initialization(TxSubstate::Started) {
            return Err(err_of(ErrorKind::InvalidPreviousState { state }));
        }
        let message = transaction.content.to_bytes();
        if !sndr_account.memo.owner_sign_pub_key.verify(&message, &transaction.sig) {
            return Err(err_of(ErrorKind::SignatureValidationFailure));
        }
        match verify_initial_transaction_proofs(transaction, sndr_account, gens) {
            Ok(()) => Ok(ConfidentialTxState::Initialization(TxSubstate::Validated)),
            Err(e) => Err(e),
        }
    }
}

/// The mediator of a transfer.
pub struct CtxMediator {}

impl CtxMediator {
    /// Re-checks the sender's proofs of a validated transfer, and countersigns it.
    pub fn justify(
        &self,
        transaction: PubInitConfidentialTxData,
        sndr_account: &PubAccount,
        state: ConfidentialTxState,
        mdtr_sign_keys: &SigningKeys,
        gens: &PedersenBases,
    ) -> (r: Fallible<(JustifiedInitConfidentialTxData, ConfidentialTxState)>)
        requires
            gens.wf(),
            transaction.content.wf(),
            sndr_account.wf(),
        ensures
            state != ConfidentialTxState::Initialization(TxSubstate::Validated) ==> r == Err::<(JustifiedInitConfidentialTxData, ConfidentialTxState), crate::errors::Error>(
                err_of_spec(ErrorKind::InvalidPreviousState { state }),
            ),
            state == ConfidentialTxState::Initialization(TxSubstate::Validated) ==> exists|range1: bool, range2: bool|
                range_outcomes_sound(transaction.content, range1, range2) && ({
                    let v = init_proofs_verdict(transaction.content, *sndr_account, *gens, range1, range2);
                    &&& v.is_err() ==> r == Err::<(JustifiedInitConfidentialTxData, ConfidentialTxState), crate::errors::Error>(v->Err_0)
                    &&& v.is_ok() ==> r.is_ok() || r == Err::<(JustifiedInitConfidentialTxData, ConfidentialTxState), crate::errors::Error>(
                        err_of_spec(ErrorKind::SignatureValidationFailure),
                    )
                }),
            r.is_ok() ==> r.unwrap().1 == ConfidentialTxState::InitializationJustification(TxSubstate::Validated)
                && init_sigma_proofs_hold(transaction.content, *sndr_account, *gens)
                && r.unwrap().0.content == transaction
                && signs(mdtr_sign_keys.public_view(), transaction.spec_bytes(), r.unwrap().0.sig.bytes@),
    {
        if state != ConfidentialTxState::Initialization(TxSubstate::Validated) {
            return Err(err_of(ErrorKind::InvalidPreviousState { state }));
        }
        if let Err(e) = verify_initial_transaction_proofs(&transaction, sndr_account, gens) {
            return Err(e);
        }
        let message = transaction.to_bytes();
        let sig = match mdtr_sign_keys.sign(&message) {
            Some(sig) => sig,
            None => return Err(err_of(ErrorKind::SignatureValidationFailure)),
        };
        Ok((JustifiedInitConfidentialTxData { content: transaction, sig }, ConfidentialTxState::InitializationJustification(TxSubstate::Validated)))
    }
}

/// The receiver.
pub struct CtxReceiver {}

impl CtxReceiver {
    /// Checks that the transfer was justified, that it carries `expected_amount`, and that
    /// it is addressed to this account's key; then proves that the asset id sent along is
    /// the account's own, and signs.
    pub fn finalize_by_receiver(
        &self,
        conf_tx_init_data: PubInitConfidentialTxData,
        rcvr_enc_keys: &EncryptionKeys,
        rcvr_sign_keys: &SigningKeys,
        rcvr_account: &PubAccount,
        state: ConfidentialTxState,
        expected_amount: u32,
        table: &DecryptionTable,
        gens: &PedersenBases,
        rng: &mut rand::rngs::StdRng,
    ) -> (r: Fallible<(PubFinalConfidentialTxData, ConfidentialTxState)>)
        requires
            gens.wf(),
            table.wf(),
            conf_tx_init_data.content.wf(),
            rcvr_enc_keys.wf(),
            rcvr_account.wf(),
        ensures
            state != ConfidentialTxState::InitializationJustification(TxSubstate::Validated) ==> r == Err::<(PubFinalConfidentialTxData, ConfidentialTxState), crate::errors::Error>(
                err_of_spec(ErrorKind::InvalidPreviousState { state }),
            ),
            state == ConfidentialTxState::InitializationJustification(TxSubstate::Validated)
                && !opens(*gens, rcvr_enc_keys.scrt.secret@, conf_tx_init_data.content.memo.enc_amount_using_rcvr)
                ==> r == Err::<(PubFinalConfidentialTxData, ConfidentialTxState), crate::errors::Error>(err_of_spec(ErrorKind::CipherTextDecryptionError)),
            forall|received: u32| state == ConfidentialTxState::InitializationJustification(TxSubstate::Validated)
                && unique_opening(*gens, rcvr_enc_keys.scrt.secret@, conf_tx_init_data.content.memo.enc_amount_using_rcvr, received)
                && received != expected_amount
                ==> r == Err::<(PubFinalConfidentialTxData, ConfidentialTxState), crate::errors::Error>(
                    err_of_spec(ErrorKind::TransactionAmountMismatch { expected_amount, received_amount: received }),
                ),
            state == ConfidentialTxState::InitializationJustification(TxSubstate::Validated)
                && unique_opening(*gens, rcvr_enc_keys.scrt.secret@, conf_tx_init_data.content.memo.enc_amount_using_rcvr, expected_amount)
                && conf_tx_init_data.content.memo.rcvr_pub_key.pub_key@ != rcvr_account.memo.owner_enc_pub_key.pub_key@
                ==> r == Err::<(PubFinalConfidentialTxData, ConfidentialTxState), crate::errors::Error>(err_of_spec(ErrorKind::InputPubKeyMismatch)),
            state == ConfidentialTxState::InitializationJustification(TxSubstate::Validated)
                && unique_opening(*gens, rcvr_enc_keys.scrt.secret@, conf_tx_init_data.content.memo.enc_amount_using_rcvr, expected_amount)
                && conf_tx_init_data.content.memo.rcvr_pub_key.pub_key@ == rcvr_account.memo.owner_enc_pub_key.pub_key@
                ==> r.is_ok()
                || r == Err::<(PubFinalConfidentialTxData, ConfidentialTxState), crate::errors::Error>(err_of_spec(ErrorKind::VerificationError))
                || r == Err::<(PubFinalConfidentialTxData, ConfidentialTxState), crate::errors::Error>(err_of_spec(ErrorKind::SignatureValidationFailure)),
            r.is_ok() ==> ({
                let (f, s) = r.unwrap();
                &&& s == ConfidentialTxState::Finalization(TxSubstate::Started)
                &&& f.content.init_data == conf_tx_init_data
                &&& f.content.asset_id_equal_cipher_proof.wf()
                &&& decrypts_to(*gens, rcvr_enc_keys.scrt.secret@, conf_tx_init_data.content.memo.enc_amount_using_rcvr, expected_amount)
                &&& conf_tx_init_data.content.memo.rcvr_pub_key.pub_key@ == rcvr_account.memo.owner_enc_pub_key.pub_key@
                &&& signs(rcvr_sign_keys.public_view(), f.content.spec_bytes(), f.sig.bytes@)
            }),
    {
        if state != ConfidentialTxState::InitializationJustification(TxSubstate::Validated) {
            return Err(err_of(ErrorKind::InvalidPreviousState { state }));
        }
        let memo = conf_tx_init_data.content.memo;
        let received_amount = rcvr_enc_keys.scrt.decrypt_with_table(table, gens, &memo.enc_amount_using_rcvr)?;
        if received_amount != expected_amount {
            return Err(err_of(ErrorKind::TransactionAmountMismatch { expected_amount, received_amount }));
        }
        if !memo.rcvr_pub_key.pub_key.equals(&rcvr_account.memo.owner_enc_pub_key.pub_key) {
            return Err(err_of(ErrorKind::InputPubKeyMismatch));
        }
        let prover = CipherTextRefreshmentProverAwaitingChallenge::new(rcvr_enc_keys.scrt, rcvr_account.enc_asset_id, memo.enc_asset_id_using_rcvr);
        let (init, response) = prove_refreshment(&prover, gens, rng)?;
        let content = PubFinalConfidentialTxDataContent {
            init_data: conf_tx_init_data,
            asset_id_equal_cipher_proof: CipherEqualSamePubKeyProof { init, response },
        };
        let message = content.to_bytes();
        let sig = match rcvr_sign_keys.sign(&message) {
            Some(sig) => sig,
            None => return Err(err_of(ErrorKind::SignatureValidationFailure)),
        };
        Ok((PubFinalConfidentialTxData { content, sig }, ConfidentialTxState::Finalization(TxSubstate::Started)))
    }
}

/// The verdict on the receiver's step after the sender's signature checked out, given
/// the outcomes of the two range-proof checks.
pub open spec fn final_verdict(f: PubFinalConfidentialTxData, sndr: PubAccount, rcvr: PubAccount, gens: PedersenBases, range1: bool, range2: bool) -> Fallible<ConfidentialTxState> {
    let c = f.content;
    let m = c.init_data.content.memo;
    let binding = CipherTextRefreshmentVerifier { pub_key: rcvr.memo.owner_enc_pub_key, cipher1: rcvr.enc_asset_id, cipher2: m.enc_asset_id_using_rcvr };
    let p = c.asset_id_equal_cipher_proof;
    if init_proofs_verdict(c.init_data.content, sndr, gens, range1, range2).is_err() {
        lift(init_proofs_verdict(c.init_data.content, sndr, gens, range1, range2), ConfidentialTxState::Finalization(TxSubstate::Validated))
    } else if refreshment_proof_verdict(binding, gens, p.init, p.response@).is_err() {
        lift(refreshment_proof_verdict(binding, gens, p.init, p.response@), ConfidentialTxState::Finalization(TxSubstate::Validated))
    } else if !signs(rcvr.memo.owner_sign_pub_key.bytes@, c.spec_bytes(), f.sig.bytes@) {
        Err(err_of_spec(ErrorKind::SignatureValidationFailure))
    } else {
        Ok(ConfidentialTxState::Finalization(TxSubstate::Validated))
    }
}

/// Validates the receiver's step.
pub struct CtxReceiverValidator {}

impl CtxReceiverValidator {
    /// Checks the state, the sender's signature and proofs, the receiver's asset-id binding,
    /// and the receiver's signature.
    pub fn verify_finalize_by_receiver(
        &self,
        sndr_account: &PubAccount,
        rcvr_account: &PubAccount,
        conf_tx_final_data: &PubFinalConfidentialTxData,
        state: ConfidentialTxState,
        gens: &PedersenBases,
    ) -> (r: Fallible<ConfidentialTxState>)
        requires
            gens.wf(),
            conf_tx_final_data.content.init_data.content.wf(),
            conf_tx_final_data.content.asset_id_equal_cipher_proof.wf(),
            sndr_account.wf(),
            rcvr_account.wf(),
        ensures
            state != ConfidentialTxState::Finalization(TxSubstate::Started) ==> r == Err::<ConfidentialTxState, crate::errors::Error>(
                err_of_spec(ErrorKind::InvalidPreviousState { state }),
            ),
            state == ConfidentialTxState::Finalization(TxSubstate::Started)
                && !signs(sndr_account.memo.owner_sign_pub_key.bytes@, conf_tx_final_data.content.init_data.content.spec_bytes(), conf_tx_final_data.content.init_data.sig.bytes@)
                ==> r == Err::<ConfidentialTxState, crate::errors::Error>(err_of_spec(ErrorKind::SignatureValidationFailure)),
            state == ConfidentialTxState::Finalization(TxSubstate::Started)
                && signs(sndr_account.memo.owner_sign_pub_key.bytes@, conf_tx_final_data.content.init_data.content.spec_bytes(), conf_tx_final_data.content.init_data.sig.bytes@)
                ==> exists|range1: bool, range2: bool| range_outcomes_sound(conf_tx_final_data.content.init_data.content, range1, range2)
                    && r == final_verdict(*conf_tx_final_data, *sndr_account, *rcvr_account, *gens, range1, range2),
            r.is_ok() ==> ({
                let f = conf_tx_final_data.content;
                let m = f.init_data.content.memo;
                let p = f.asset_id_equal_cipher_proof;
                &&& r.unwrap() == ConfidentialTxState::Finalization(TxSubstate::Validated)
                &&& signs(sndr_account.memo.owner_sign_pub_key.bytes@, f.init_data.content.spec_bytes(), f.init_data.sig.bytes@)
                &&& init_sigma_proofs_hold(f.init_data.content, *sndr_account, *gens)
                &&& refreshment_proof_verdict(
                    CipherTextRefreshmentVerifier { pub_key: rcvr_account.memo.owner_enc_pub_key, cipher1: rcvr_account.enc_asset_id, cipher2: m.enc_asset_id_using_rcvr },
                    *gens, p.init, p.response@,
                ).is_ok()
                &&& signs(rcvr_account.memo.owner_sign_pub_key.bytes@, f.spec_bytes(), conf_tx_final_data.sig.bytes@)
            }),
    {
        if state != ConfidentialTxState::Finalization(TxSubstate::Started) {
            return Err(err_of(ErrorKind::InvalidPreviousState { state }));
        }
        let f = &conf_tx_final_data.content;
        let init_message = f.init_data.content.to_bytes();
        if !sndr_account.memo.owner_sign_pub_key.verify(&init_message, &f.init_data.sig) {
            return Err(err_of(ErrorKind::SignatureValidationFailure));
        }
        if let Err(e) = verify_initial_transaction_proofs(&f.init_data, sndr_account, gens) {
            return Err(e);
        }
        let m = f.init_data.content.memo;
        let v = CipherTextRefreshmentVerifier::new(rcvr_account.memo.owner_enc_pub_key, rcvr_account.enc_asset_id, m.enc_asset_id_using_rcvr);
        if let Err(e) = verify_refreshment(&v, gens, &f.asset_id_equal_cipher_proof.init, &f.asset_id_equal_cipher_proof.response) {
            return Err(e);
        }
        let final_message = f.to_bytes();
        if !rcvr_account.memo.owner_sign_pub_key.verify(&final_message, &conf_tx_final_data.sig) {
            return Err(err_of(ErrorKind::SignatureValidationFailure));
        }
        Ok(ConfidentialTxState::Finalization(TxSubstate::Validated))
    }
}

/// Applies a validated transfer: the sender's balance becomes its refreshed balance minus
/// the amount under its key, and the receiver's balance gains the amount under its key.
pub fn process_transfer(memo: &ConfidentialTxMemo, sndr_account: &PubAccount, rcvr_account: &PubAccount) -> (r: (PubAccount, PubAccount))
    requires
        memo.wf(),
        rcvr_account.wf(),
    ensures
        r.0 == (PubAccount { enc_balance: r.0.enc_balance, ..*sndr_account }),
        r.1 == (PubAccount { enc_balance: r.1.enc_balance, ..*rcvr_account }),
        r.0.enc_balance.wf() && r.1.enc_balance.wf(),
        r.0.enc_balance.x@ == point_sub_of(memo.refreshed_enc_balance.x@, memo.enc_amount_using_sndr.x@),
        r.0.enc_balance.y@ == point_sub_of(memo.refreshed_enc_balance.y@, memo.enc_amount_using_sndr.y@),
        r.1.enc_balance.x@ == point_add_of(rcvr_account.enc_balance.x@, memo.enc_amount_using_rcvr.x@),
        r.1.enc_balance.y@ == point_add_of(rcvr_account.enc_balance.y@, memo.enc_amount_using_rcvr.y@),
{
    let mut s = *sndr_account;
    s.enc_balance = memo.refreshed_enc_balance.sub(&memo.enc_amount_using_sndr);
    let mut t = *rcvr_account;
    t.enc_balance = rcvr_account.enc_balance.add(&memo.enc_amount_using_rcvr);
    (s, t)
}

} // verus!
