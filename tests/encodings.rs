use mercat::account_cli::{AccountGenInfo, CLI};
use mercat::group::{PedersenBases, Point, Scalar};
use mercat::mediator_cli;

#[test]
fn invalid_encodings_are_refused() {
    assert!(Scalar::from_bytes([255u8; 32]).is_none());
    assert!(Scalar::from_bytes(Scalar::from_u32(7).to_bytes()).is_some());
    assert!(Point::from_bytes([255u8; 32]).is_none());
    let b = Point::basepoint();
    assert!(Point::from_bytes(b.to_bytes()).is_some());
    assert!(Point { bytes: [0u8; 32] }.is_identity());
    assert!(!b.is_identity());
}

#[test]
fn group_operations_change_their_inputs() {
    let gens = PedersenBases::standard();
    let two = Scalar::from_u32(2);
    let b2 = gens.b.mul(&two);
    assert_ne!(b2.to_bytes(), gens.b.to_bytes());
    assert_eq!(gens.b.add(&gens.b).to_bytes(), b2.to_bytes());
    assert_eq!(b2.sub(&gens.b).to_bytes(), gens.b.to_bytes());
    assert_eq!(two.add(&two).to_bytes(), Scalar::from_u32(4).to_bytes());
    assert_eq!(two.mul(&Scalar::from_u32(3)).to_bytes(), Scalar::from_u32(6).to_bytes());
    assert_eq!(Scalar::from_u32(5).sub(&two).to_bytes(), Scalar::from_u32(3).to_bytes());
    assert_eq!(two.invert().mul(&two).to_bytes(), Scalar::one().to_bytes());
    assert_eq!(Scalar::from_u32(0x0102_0304).to_bytes()[..4], [4u8, 3, 2, 1]);
}

#[test]
fn command_line_defaults_are_filled_in() {
    let cli = CLI::Create(AccountGenInfo {
        user: String::from("alice"),
        db_dir: None,
        account_id: 3,
        ticker_id: String::from("ACME"),
        seed: None,
        save_config: None,
        loag_config: None,
    });
    match cli.with_defaults(Some(String::from("/tmp/db")), String::from("c2VlZA==")) {
        CLI::Create(info) => {
            assert_eq!(info.db_dir, Some(String::from("/tmp/db")));
            assert_eq!(info.seed, Some(String::from("c2VlZA==")));
            assert_eq!(info.account_id, 3);
        }
        _ => panic!("expected a create command"),
    }
    let destroy = CLI::Destroy { user: String::from("bob"), db_dir: Some(String::from("here")) };
    match destroy.with_defaults(Some(String::from("/tmp/db")), String::from("x")) {
        CLI::Destroy { db_dir, .. } => assert_eq!(db_dir, Some(String::from("here"))),
        _ => panic!("expected a destroy command"),
    }
    let justify = mediator_cli::CLI::JustifyTransaction(mediator_cli::JustifyTransactionInfo {
        db_dir: None,
        tx_id: 1,
        ticker_id: String::from("ACME"),
        sender: String::from("alice"),
        receiver: String::from("bob"),
        mediator: String::from("carol"),
        reject: false,
        save_config: None,
    });
    match justify.with_defaults(None, String::from("x")) {
        mediator_cli::CLI::JustifyTransaction(info) => assert_eq!(info.db_dir, None),
        _ => panic!("expected a justification"),
    }
}
