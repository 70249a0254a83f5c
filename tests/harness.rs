use mercat::claim_data::make_message;
use mercat::harness::{HarnessError, Issue, Transfer};
use blake2::Digest;
use mercat::harness::{cheater_flag, Party};

#[test]
fn party_with_cheat_marker() {
    let p = Party::from_segment("alice(cheat)");
    assert_eq!(p.name, "alice");
    assert!(p.cheater);
    assert_eq!(cheater_flag(true), "--cheater");
}


#[test]
fn party_name_is_first_word() {
    let p = Party::from_segment("bob");
    assert_eq!(p.name, "bob");
    assert!(!p.cheater);
    let q = Party::from_segment("(x)carol2(cheat)");
    assert_eq!(q.name, "x");
    assert!(!q.cheater);
    assert_eq!(cheater_flag(false), "");
}

#[test]
fn transaction_lines_are_checked() {
    let t = Transfer::parse(3, "Bob(cheat) 40 ACME Carol approve Marry reject").unwrap();
    assert_eq!(t.id, 3);
    assert_eq!(t.amount, 40);
    assert_eq!(t.ticker, "ACME");
    assert!(t.sender.cheater);
    assert_eq!(t.receiver.name, "Carol");
    assert!(t.receiver_approves);
    assert_eq!(t.mediator.name, "Marry");
    assert!(!t.mediator_approves);
    assert_eq!(t.send().command, "todo-send-transaction 3");
    assert_eq!(t.order().len(), 4);
    assert_eq!(Transfer::parse(1, "Bob 40 ACME Carol approve").err(), Some(HarnessError::RegexError));
    assert_eq!(Transfer::parse(1, "Bob 4294967296 ACME Carol approve Marry reject").err(), Some(HarnessError::RegexError));
    assert_eq!(Transfer::parse(1, "Bob  40 ACME Carol approve Marry reject").err(), Some(HarnessError::RegexError));
    let i = Issue::parse(12, "Alice 4294967295 ACME Carol reject").unwrap();
    assert_eq!(i.amount, u32::MAX);
    assert!(!i.mediator_approves);
    assert_eq!(i.mediate().command, "todo-mediate-issue-transaction 12");
    assert_eq!(Issue::parse(1, "Alice 40 ACME Carol maybe").err(), Some(HarnessError::RegexError));
}

#[test]
fn claim_message_is_blake2s_of_both_ids() {
    let did = [7u8; 32];
    let scope = [1u8; 12];
    let mut both = did.to_vec();
    both.extend_from_slice(&scope);
    let expected: [u8; 32] = blake2::Blake2s::digest(&both).into();
    assert_eq!(make_message(&did, &scope), expected);
    assert_ne!(make_message(&did, &scope)[..], did[..]);
}
