use mercat::conf_tx::{
    process_transfer, ConfidentialTxMemo, CtxMediator, CtxReceiver, CtxReceiverValidator, CtxSender,
    CtxSenderValidator, PubInitConfidentialTxData, PubInitConfidentialTxDataContent,
};
use mercat::correctness_proof::CorrectnessInitialMessage;
use mercat::elgamal::{CipherText, DecryptionTable, ElgamalPublicKey, ElgamalSecretKey};
use mercat::encrypting_same_value_proof::{EncryptingSameValueFinalResponse, EncryptingSameValueInitialMessage};
use mercat::ciphertext_refreshment_proof::CipherTextRefreshmentInitialMessage;
use mercat::errors::ErrorKind;
use mercat::group::{PedersenBases, Point, Scalar};
use mercat::mercat::{
    AccountMemo, CipherEqualDifferentPubKeyProof, CipherEqualSamePubKeyProof, ConfidentialTxState,
    CorrectnessProof, EncryptionKeys, PubAccount, TxSubstate, WellformednessProof,
};
use mercat::range_proof::InRangeProof;
use mercat::signing::{Signature, SigningKeys, SigningPubKey};
use mercat::wellformedness_proof::{WellformednessFinalResponse, WellformednessInitialMessage};
use rand::rngs::StdRng;
use rand::SeedableRng;

fn mock_gen_enc_key_pair(seed: u8, gens: &PedersenBases) -> EncryptionKeys {
    let mut rng = StdRng::from_seed([seed; 32]);
    let elg_secret = ElgamalSecretKey::new(Scalar::random(&mut rng));
    EncryptionKeys { pblc: elg_secret.get_public_key(gens), scrt: elg_secret }
}

fn mock_gen_sign_key_pair(seed: u8) -> (SigningKeys, SigningPubKey) {
    let keys = SigningKeys::from_seed(&[seed; 32]);
    let public = keys.public();
    (keys, public)
}

fn base_cipher() -> CipherText {
    CipherText { x: Point::basepoint(), y: Point::basepoint() }
}

fn mock_esv() -> CipherEqualDifferentPubKeyProof {
    let b = Point::basepoint();
    CipherEqualDifferentPubKeyProof {
        init: EncryptingSameValueInitialMessage { a1: b, a2: b, b },
        response: EncryptingSameValueFinalResponse { z1: Scalar::zero(), z2: Scalar::zero() },
    }
}

fn mock_same_key() -> CipherEqualSamePubKeyProof {
    let b = Point::basepoint();
    CipherEqualSamePubKeyProof { init: CipherTextRefreshmentInitialMessage { a: b, b }, response: Scalar::zero() }
}

fn encrypt(key: &ElgamalPublicKey, v: u32, gens: &PedersenBases, seed: u8) -> CipherText {
    key.encrypt_value(gens, v, &mut StdRng::from_seed([seed; 32])).1
}

fn mock_gen_account(enc: ElgamalPublicKey, sign: SigningPubKey, asset_id: u32, balance: u32, gens: &PedersenBases) -> PubAccount {
    PubAccount {
        id: 1,
        enc_asset_id: encrypt(&enc, asset_id, gens, 1),
        enc_balance: encrypt(&enc, balance, gens, 2),
        asset_wellformedness_proof: WellformednessProof {
            init: WellformednessInitialMessage::default(),
            response: WellformednessFinalResponse { z1: Scalar::zero(), z2: Scalar::zero() },
        },
        initial_balance_correctness_proof: CorrectnessProof { init: CorrectnessInitialMessage::default(), response: Scalar::zero() },
        memo: AccountMemo { owner_enc_pub_key: enc, owner_sign_pub_key: sign, timestamp: 0 },
        sig: Signature { bytes: [0u8; 64] },
    }
}

fn mock_ctx_init_data(rcvr_pub_key: ElgamalPublicKey, amount: u32, asset_id: u32, gens: &PedersenBases) -> PubInitConfidentialTxData {
    let range = InRangeProof { commitment: Point::basepoint(), proof: vec![] };
    PubInitConfidentialTxData {
        content: PubInitConfidentialTxDataContent {
            memo: ConfidentialTxMemo {
                sndr_account_id: 0,
                rcvr_account_id: 0,
                enc_amount_using_sndr: base_cipher(),
                enc_amount_using_rcvr: encrypt(&rcvr_pub_key, amount, gens, 3),
                sndr_pub_key: ElgamalPublicKey { pub_key: Point::basepoint() },
                rcvr_pub_key,
                refreshed_enc_balance: base_cipher(),
                refreshed_enc_asset_id: base_cipher(),
                enc_asset_id_using_rcvr: encrypt(&rcvr_pub_key, asset_id, gens, 4),
            },
            amount_equal_cipher_proof: mock_esv(),
            non_neg_amount_proof: range.clone(),
            enough_fund_proof: range,
            balance_refreshed_same_proof: mock_same_key(),
            asset_id_refreshed_same_proof: mock_same_key(),
            asset_id_equal_cipher_proof: mock_esv(),
        },
        sig: Signature { bytes: [0u8; 64] },
    }
}

fn finalize_with(
    init_amount: u32,
    expected_amount: u32,
    state: ConfidentialTxState,
    account_key_seed: u8,
) -> Result<(), ErrorKind> {
    let gens = PedersenBases::standard();
    let asset_id = 20;
    let rcvr_enc_keys = mock_gen_enc_key_pair(17u8, &gens);
    let account_keys = mock_gen_enc_key_pair(account_key_seed, &gens);
    let (rcvr_sign_keys, rcvr_sign_pub_key) = mock_gen_sign_key_pair(18u8);
    let ctx_init_data = mock_ctx_init_data(rcvr_enc_keys.pblc, init_amount, asset_id, &gens);
    let rcvr_account = mock_gen_account(account_keys.pblc, rcvr_sign_pub_key, asset_id, 0, &gens);
    CtxReceiver {}
        .finalize_by_receiver(
            ctx_init_data,
            &rcvr_enc_keys,
            &rcvr_sign_keys,
            &rcvr_account,
            state,
            expected_amount,
            &DecryptionTable::new(&gens, 10),
            &gens,
            &mut StdRng::from_seed([17u8; 32]),
        )
        .map(|_| ())
        .map_err(|e| *e.kind())
}

const JUSTIFIED: ConfidentialTxState = ConfidentialTxState::InitializationJustification(TxSubstate::Validated);

#[test]
fn test_finalize_ctx_success() {
    assert_eq!(finalize_with(10, 10, JUSTIFIED, 17), Ok(()));
}

#[test]
fn test_finalize_ctx_prev_state_error() {
    let invalid_state = ConfidentialTxState::InitializationJustification(TxSubstate::Started);
    assert_eq!(
        finalize_with(10, 10, invalid_state, 17),
        Err(ErrorKind::InvalidPreviousState { state: invalid_state })
    );
}

#[test]
fn test_finalize_ctx_amount_mismatch_error() {
    assert_eq!(
        finalize_with(20, 10, JUSTIFIED, 17),
        Err(ErrorKind::TransactionAmountMismatch { expected_amount: 10, received_amount: 20 })
    );
}

#[test]
fn transfer_amount_mismatch_reports_both_amounts() {
    assert_eq!(
        finalize_with(10, 20, JUSTIFIED, 17),
        Err(ErrorKind::TransactionAmountMismatch { expected_amount: 20, received_amount: 10 })
    );
}

#[test]
fn test_finalize_ctx_pub_key_mismatch_error() {
    assert_eq!(finalize_with(10, 10, JUSTIFIED, 18), Err(ErrorKind::InputPubKeyMismatch));
}

#[test]
fn test_ctx_create_finalize_validate_success() {
    let gens = PedersenBases::standard();
    let asset_id = 20;
    let sndr_balance = 40;
    let rcvr_balance = 0;
    let amount = 30;
    let mut rng = StdRng::from_seed([17u8; 32]);

    let sndr_enc_keys = mock_gen_enc_key_pair(10u8, &gens);
    let (sndr_sign_keys, sndr_sign_pub_key) = mock_gen_sign_key_pair(11u8);
    let rcvr_enc_keys = mock_gen_enc_key_pair(12u8, &gens);
    let (rcvr_sign_keys, rcvr_sign_pub_key) = mock_gen_sign_key_pair(13u8);
    let (mdtr_sign_keys, _) = mock_gen_sign_key_pair(14u8);

    let rcvr_account = mock_gen_account(rcvr_enc_keys.pblc, rcvr_sign_pub_key, asset_id, rcvr_balance, &gens);
    let sndr_account = mock_gen_account(sndr_enc_keys.pblc, sndr_sign_pub_key, asset_id, sndr_balance, &gens);

    let (ctx_init_data, state) = CtxSender {}
        .create(&sndr_enc_keys, &sndr_sign_keys, &sndr_account, &rcvr_enc_keys.pblc, &rcvr_account, asset_id, amount, &DecryptionTable::new(&gens, 10), &gens, &mut rng)
        .unwrap();
    assert_eq!(state, ConfidentialTxState::Initialization(TxSubstate::Started));

    let state = CtxSenderValidator {}.verify(&ctx_init_data, &sndr_account, state, &gens).unwrap();
    assert_eq!(state, ConfidentialTxState::Initialization(TxSubstate::Validated));

    let (justified, state) = CtxMediator {}
        .justify(ctx_init_data, &sndr_account, state, &mdtr_sign_keys, &gens)
        .unwrap();
    assert_eq!(state, JUSTIFIED);

    let (ctx_finalized_data, finalized_state) = CtxReceiver {}
        .finalize_by_receiver(justified.content, &rcvr_enc_keys, &rcvr_sign_keys, &rcvr_account, state, amount, &DecryptionTable::new(&gens, 10), &gens, &mut rng)
        .unwrap();
    assert_eq!(finalized_state, ConfidentialTxState::Finalization(TxSubstate::Started));

    let state = CtxReceiverValidator {}
        .verify_finalize_by_receiver(&sndr_account, &rcvr_account, &ctx_finalized_data, finalized_state, &gens)
        .unwrap();
    assert_eq!(state, ConfidentialTxState::Finalization(TxSubstate::Validated));

    let (new_sndr, new_rcvr) = process_transfer(&ctx_finalized_data.content.init_data.content.memo, &sndr_account, &rcvr_account);
    assert_eq!(sndr_enc_keys.scrt.decrypt(&gens, &new_sndr.enc_balance).unwrap(), 10);
    assert_eq!(rcvr_enc_keys.scrt.decrypt(&gens, &new_rcvr.enc_balance).unwrap(), 30);

    let mut tampered = ctx_finalized_data.clone();
    tampered.sig = Signature { bytes: [128u8; 64] };
    assert_eq!(
        *CtxReceiverValidator {}
            .verify_finalize_by_receiver(&sndr_account, &rcvr_account, &tampered, ConfidentialTxState::Finalization(TxSubstate::Started), &gens)
            .unwrap_err()
            .kind(),
        ErrorKind::SignatureValidationFailure
    );
}

#[test]
fn transfer_with_insufficient_funds() {
    let gens = PedersenBases::standard();
    let mut rng = StdRng::from_seed([5u8; 32]);
    let sndr_enc_keys = mock_gen_enc_key_pair(10u8, &gens);
    let (sndr_sign_keys, sndr_sign_pub_key) = mock_gen_sign_key_pair(11u8);
    let rcvr_enc_keys = mock_gen_enc_key_pair(12u8, &gens);
    let (_, rcvr_sign_pub_key) = mock_gen_sign_key_pair(13u8);
    let sndr_account = mock_gen_account(sndr_enc_keys.pblc, sndr_sign_pub_key, 20, 5, &gens);
    let rcvr_account = mock_gen_account(rcvr_enc_keys.pblc, rcvr_sign_pub_key, 20, 0, &gens);
    let err = CtxSender {}
        .create(&sndr_enc_keys, &sndr_sign_keys, &sndr_account, &rcvr_enc_keys.pblc, &rcvr_account, 20, 10, &DecryptionTable::new(&gens, 10), &gens, &mut rng)
        .err()
        .unwrap();
    assert_eq!(*err.kind(), ErrorKind::NotEnoughFund { balance: 5, transaction_amount: 10 });
}

#[test]
fn transfer_of_another_asset_is_refused() {
    let gens = PedersenBases::standard();
    let mut rng = StdRng::from_seed([15u8; 32]);
    let sndr_enc_keys = mock_gen_enc_key_pair(10u8, &gens);
    let (sndr_sign_keys, sndr_sign_pub_key) = mock_gen_sign_key_pair(11u8);
    let rcvr_enc_keys = mock_gen_enc_key_pair(12u8, &gens);
    let (_, rcvr_sign_pub_key) = mock_gen_sign_key_pair(13u8);
    let sndr_account = mock_gen_account(sndr_enc_keys.pblc, sndr_sign_pub_key, 20, 40, &gens);
    let rcvr_account = mock_gen_account(rcvr_enc_keys.pblc, rcvr_sign_pub_key, 20, 0, &gens);
    let err = CtxSender {}
        .create(&sndr_enc_keys, &sndr_sign_keys, &sndr_account, &rcvr_enc_keys.pblc, &rcvr_account, 21, 10, &DecryptionTable::new(&gens, 10), &gens, &mut rng)
        .err()
        .unwrap();
    assert_eq!(*err.kind(), ErrorKind::AccountIdMismatch);
}
