use mercat::account::{create_account, verify_account};
use mercat::one_out_of_many::OooNProofGenerators;
use mercat::asset::{AssetTxIssueMediator, AssetTxIssueValidator, CtxIssuer};
use mercat::elgamal::{CommitmentWitness, DecryptionTable, ElgamalSecretKey};
use mercat::errors::ErrorKind;
use mercat::group::{PedersenBases, Scalar};
use mercat::mercat::{AssetTxState, EncryptionKeys, PubAccount, SecAccount, TxSubstate};
use mercat::signing::{Signature, SigningKeys};
use rand::rngs::StdRng;
use rand::{RngCore, SeedableRng};

fn secret_account(asset_id: u32, rng: &mut StdRng, gens: &PedersenBases) -> SecAccount {
    let secret = ElgamalSecretKey::new(Scalar::random(rng));
    let enc_keys = EncryptionKeys { pblc: secret.get_public_key(gens), scrt: secret };
    let mut seed = [0u8; 32];
    rng.fill_bytes(&mut seed);
    SecAccount {
        enc_keys,
        sign_keys: SigningKeys::from_seed(&seed),
        asset_id,
        asset_id_witness: CommitmentWitness::new(asset_id, Scalar::random(rng)),
    }
}

fn ticker_list() -> Vec<Scalar> {
    (1..=64u32).map(Scalar::from_u32).collect()
}

#[test]
fn account_creation() {
    let gens = PedersenBases::standard();
    let generators = OooNProofGenerators::new(3, 4, &gens);
    let mut rng = StdRng::from_seed([42u8; 32]);
    let sec = secret_account(1, &mut rng, &gens);
    let tickers = ticker_list();
    let (account, membership) = create_account(&sec, 7, 0, &tickers, &generators, &gens, &mut rng).unwrap();
    assert!(verify_account(&account, &membership, &tickers, &generators, &gens).is_ok());
    assert_eq!(sec.enc_keys.scrt.decrypt(&gens, &account.enc_balance).unwrap(), 0);
    assert_eq!(sec.enc_keys.scrt.decrypt(&gens, &account.enc_asset_id).unwrap(), 1);

    let mut forged = account;
    forged.sig = Signature { bytes: [128u8; 64] };
    assert_eq!(
        *verify_account(&forged, &membership, &tickers, &generators, &gens).unwrap_err().kind(),
        ErrorKind::SignatureValidationFailure
    );
    let other_tickers: Vec<Scalar> = (65..=128u32).map(Scalar::from_u32).collect();
    assert_eq!(
        *verify_account(&account, &membership, &other_tickers, &generators, &gens).unwrap_err().kind(),
        ErrorKind::MembershipProofVerificationError { check: 2 }
    );
    let unlisted = secret_account(99, &mut rng, &gens);
    assert_eq!(
        *create_account(&unlisted, 8, 0, &tickers, &generators, &gens, &mut rng).err().unwrap().kind(),
        ErrorKind::MembershipProofInvalidAssetError
    );
}

#[test]
fn asset_issuance_and_validation() {
    let gens = PedersenBases::standard();
    let mut rng = StdRng::from_seed([10u8; 32]);
    let issued_amount = 20u32;
    let table = DecryptionTable::new(&gens, 10);

    let issuer_secret_account = secret_account(1, &mut rng, &gens);
    let generators = OooNProofGenerators::new(3, 4, &gens);
    let (issuer_public_account, _): (PubAccount, _) =
        create_account(&issuer_secret_account, 1, 0, &ticker_list(), &generators, &gens, &mut rng).unwrap();

    let mediator_secret = ElgamalSecretKey::new(Scalar::random(&mut rng));
    let mediator_enc_key = EncryptionKeys { pblc: mediator_secret.get_public_key(&gens), scrt: mediator_secret };
    let mut seed = [0u8; 32];
    rng.fill_bytes(&mut seed);
    let mediator_signing_pair = SigningKeys::from_seed(&seed);

    let issuer = CtxIssuer {};
    let (asset_tx, state) = issuer
        .initialize(1234u32, &issuer_secret_account, &mediator_enc_key.pblc, issued_amount, &gens, &mut rng)
        .unwrap();

    let mediator = AssetTxIssueMediator {};
    let (justified_tx, updated_issuer_account) = mediator
        .justify(asset_tx, &issuer_public_account, state, &mediator_enc_key, &mediator_signing_pair, &table, &gens)
        .unwrap();

    let validator = AssetTxIssueValidator {};
    let state = validator
        .verify(&justified_tx, &updated_issuer_account, &mediator_enc_key.pblc, &mediator_signing_pair.public(), &gens)
        .unwrap();
    assert_eq!(state, AssetTxState::Justification(TxSubstate::Validated));

    let mut invalid_tx = asset_tx;
    invalid_tx.sig = Signature { bytes: [128u8; 64] };
    let result = mediator.justify(
        invalid_tx,
        &issuer_public_account,
        AssetTxState::Initialization(TxSubstate::Started),
        &mediator_enc_key,
        &mediator_signing_pair,
        &table,
        &gens,
    );
    assert_eq!(*result.err().unwrap().kind(), ErrorKind::SignatureValidationFailure);

    let mut invalid_justified_tx = justified_tx;
    invalid_justified_tx.sig = Signature { bytes: [128u8; 64] };
    let result = validator.verify(
        &invalid_justified_tx,
        &updated_issuer_account,
        &mediator_enc_key.pblc,
        &mediator_signing_pair.public(),
        &gens,
    );
    assert_eq!(*result.unwrap_err().kind(), ErrorKind::SignatureValidationFailure);

    let mut invalid_justified_tx = justified_tx;
    invalid_justified_tx.content.sig = Signature { bytes: [128u8; 64] };
    let result = validator.verify(
        &invalid_justified_tx,
        &updated_issuer_account,
        &mediator_enc_key.pblc,
        &mediator_signing_pair.public(),
        &gens,
    );
    assert_eq!(*result.unwrap_err().kind(), ErrorKind::SignatureValidationFailure);

    let wrong_state = mediator.justify(
        asset_tx,
        &issuer_public_account,
        AssetTxState::Justification(TxSubstate::Started),
        &mediator_enc_key,
        &mediator_signing_pair,
        &table,
        &gens,
    );
    assert_eq!(
        *wrong_state.err().unwrap().kind(),
        ErrorKind::InvalidPreviousAssetTransactionState { state: AssetTxState::Justification(TxSubstate::Started) }
    );

    assert_eq!(
        issuer_secret_account.enc_keys.scrt.decrypt(&gens, &updated_issuer_account.enc_balance).unwrap(),
        issued_amount
    );
    assert_eq!(updated_issuer_account.enc_asset_id.x.to_bytes(), issuer_public_account.enc_asset_id.x.to_bytes());
    assert_eq!(updated_issuer_account.enc_asset_id.y.to_bytes(), issuer_public_account.enc_asset_id.y.to_bytes());
}
