use mercat::config::{make_empty_accounts, parse_config, parse_transactions, ConfigEntry, ConfigNode};
use mercat::harness::{
    accounts_are_equal, Account, Create, HarnessError, Issue, Party, StepAction, Transaction,
    TransactionMode, Transfer,
};
use rand::rngs::StdRng;
use rand::SeedableRng;

fn create(id: u32, owner: &str, ticker: &str) -> TransactionMode {
    TransactionMode::Transaction(Transaction::Create(Create {
        id,
        seed: String::from("c2VlZA=="),
        chain_db_dir: String::from("chain"),
        account_id: id,
        owner: Party { name: String::from(owner), cheater: false },
        ticker: String::from(ticker),
    }))
}

fn created_accounts(mode: &TransactionMode, rng: &mut StdRng) -> (usize, Vec<Account>) {
    let steps = mode.sequence(rng);
    let mut accounts = vec![];
    for step in &steps {
        if let StepAction::CreateAccount { ticker, owner, .. } = &step.action {
            accounts.push(Account { owner: owner.clone(), ticker: ticker.clone(), balance: 0 });
        }
    }
    (steps.len(), accounts)
}

fn st(s: &str) -> ConfigNode {
    ConfigNode::Str(String::from(s))
}

fn entry(k: &str, v: ConfigNode) -> ConfigEntry {
    ConfigEntry { key: st(k), value: v }
}

fn scenario(time_limit: i64) -> ConfigNode {
    ConfigNode::Hash(vec![
        entry("title", st("simple node scenario")),
        entry("tickers", ConfigNode::Array(vec![st("ACME")])),
        entry(
            "accounts",
            ConfigNode::Array(vec![
                ConfigNode::Hash(vec![entry("alice", ConfigNode::Array(vec![st("ACME")]))]),
                ConfigNode::Hash(vec![entry("bob", ConfigNode::Array(vec![st("ACME")]))]),
            ]),
        ),
        entry(
            "transactions",
            ConfigNode::Array(vec![ConfigNode::Hash(vec![entry(
                "sequence",
                ConfigNode::Array(vec![
                    st("alice 40 ACME carol approve"),
                    ConfigNode::Hash(vec![entry(
                        "concurrent",
                        ConfigNode::Array(vec![st("alice 10 ACME bob approve carol approve"), st("not a transaction")]),
                    )]),
                ]),
            )])]),
        ),
        entry(
            "outcome",
            ConfigNode::Array(vec![
                ConfigNode::Hash(vec![entry("alice", ConfigNode::Array(vec![ConfigNode::Hash(vec![entry("ACME", ConfigNode::Int(0))])]))]),
                ConfigNode::Hash(vec![entry("bob", ConfigNode::Array(vec![ConfigNode::Hash(vec![entry("ACME", ConfigNode::Int(0))])]))]),
                ConfigNode::Hash(vec![entry("time-limit", ConfigNode::Int(time_limit))]),
            ]),
        ),
    ])
}

#[test]
fn scenario_file_is_read_and_run() {
    let mut rng = StdRng::from_seed([9u8; 32]);
    let case = parse_config(&scenario(5000), String::from("chain"), &mut rng).unwrap();
    assert_eq!(case.title, "simple node scenario");
    assert_eq!(case.ticker_names, vec![String::from("ACME")]);
    assert_eq!(case.timing_limit, 5000);
    let (n, got) = created_accounts(&case.transactions, &mut rng);
    assert_eq!(n, 2 * 2 + 3 + 4);
    assert!(accounts_are_equal(&case.accounts_outcome, &got));
    assert!(case.check_time_limit(4999).is_ok());
    assert_eq!(case.check_time_limit(5001).err(), Some(HarnessError::TimeLimitExceeded));
    assert_eq!(
        parse_config(&scenario(-1), String::from("chain"), &mut rng).err(),
        Some(HarnessError::BalanceTooBig)
    );
}

#[test]
fn transaction_ids_follow_document_order() {
    let list = ConfigNode::Array(vec![
        st("alice 40 ACME carol approve"),
        ConfigNode::Hash(vec![entry("sequence", ConfigNode::Array(vec![st("alice 10 ACME bob approve carol reject")]))]),
        ConfigNode::Hash(vec![entry("unknown", ConfigNode::Array(vec![st("bob 1 ACME carol approve")]))]),
    ]);
    let (next, modes) = parse_transactions(&list, 5).unwrap();
    assert_eq!(next, 8);
    assert_eq!(modes.len(), 2);
    assert_eq!(parse_transactions(&st("alice"), 0).err(), Some(HarnessError::ErrorParsingTestHarnessConfig));
    let bad_key = ConfigNode::Array(vec![ConfigNode::Hash(vec![ConfigEntry { key: ConfigNode::Int(1), value: ConfigNode::Array(vec![]) }])]);
    assert_eq!(parse_transactions(&bad_key, 0).err(), Some(HarnessError::ErrorParsingTestHarnessConfig));
    assert_eq!(parse_transactions(&ConfigNode::Array(vec![st("alice 40 ACME carol approve")]), u32::MAX).err(), Some(HarnessError::ErrorParsingTestHarnessConfig));
}

#[test]
fn empty_accounts_are_created_in_order() {
    let mut rng = StdRng::from_seed([2u8; 32]);
    let accounts = vec![
        Account { owner: String::from("alice"), ticker: String::from("ACME"), balance: 0 },
        Account { owner: String::from("bob"), ticker: String::from("ACME"), balance: 0 },
    ];
    let (n, mode) = make_empty_accounts(&accounts, &String::from("dir"), &mut rng).unwrap();
    assert_eq!(n, 2);
    let steps = mode.sequence(&mut rng);
    assert_eq!(steps[0].command, "mercat-account create --account-id 0 --ticker ACME --user alice ");
    assert_eq!(steps[2].command, "mercat-account create --account-id 1 --ticker ACME --user bob ");
    assert_eq!(steps[3].command, "todo-validate-account --account-id=1");
    if let StepAction::CreateAccount { seed, .. } = &steps[0].action {
        assert_eq!(seed.len(), 44);
    } else {
        panic!("expected an account creation");
    }
}

#[test]
fn test_on_fast_node() {
    let issue = Issue::parse(2, "alice 40 ACME carol approve").unwrap();
    let transfer = Transfer::parse(3, "alice 10 ACME bob approve carol reject").unwrap();
    let mode = TransactionMode::Sequence {
        repeat: 1,
        steps: vec![
            TransactionMode::Sequence { repeat: 1, steps: vec![create(0, "alice", "ACME"), create(1, "bob", "ACME")] },
            TransactionMode::Transaction(Transaction::Issue(issue)),
            TransactionMode::Transaction(Transaction::Transfer(transfer)),
        ],
    };
    let mut rng = StdRng::from_seed([7u8; 32]);
    let (n, got) = created_accounts(&mode, &mut rng);
    assert_eq!(n, 2 + 2 + 3 + 4);
    let want = vec![
        Account { owner: String::from("bob"), ticker: String::from("ACME"), balance: 0 },
        Account { owner: String::from("alice"), ticker: String::from("ACME"), balance: 0 },
    ];
    assert!(accounts_are_equal(&want, &got));
}

#[test]
fn test_on_wasm() {
    let transfer = Transfer::parse(2, "alice(cheat) 5 ACME bob reject carol approve").unwrap();
    assert!(transfer.sender.cheater);
    let mode = TransactionMode::Sequence {
        repeat: 1,
        steps: vec![
            TransactionMode::Concurrent { repeat: 1, steps: vec![create(0, "alice", "ACME"), create(1, "bob", "ACME")] },
            TransactionMode::Transaction(Transaction::Transfer(transfer)),
        ],
    };
    let mut rng = StdRng::from_seed([3u8; 32]);
    let (n, got) = created_accounts(&mode, &mut rng);
    assert_eq!(n, 2 + 2 + 4);
    let want = vec![
        Account { owner: String::from("alice"), ticker: String::from("ACME"), balance: 0 },
        Account { owner: String::from("bob"), ticker: String::from("ACME"), balance: 0 },
    ];
    assert!(accounts_are_equal(&want, &got));
    let wrong = vec![Account { owner: String::from("alice"), ticker: String::from("ACME"), balance: 1 }];
    assert!(!accounts_are_equal(&wrong, &got));
}

#[test]
fn test_on_slow_pc() {
    let mut rng = StdRng::from_seed([5u8; 32]);
    let case = parse_config(&scenario(60000), String::from("chain"), &mut rng).unwrap();
    let (n, got) = created_accounts(&case.transactions, &mut rng);
    assert_eq!(n, 11);
    assert!(accounts_are_equal(&case.accounts_outcome, &got));
    let mut missing_title = scenario(1);
    if let ConfigNode::Hash(entries) = &mut missing_title {
        entries.remove(0);
    }
    assert_eq!(
        parse_config(&missing_title, String::from("chain"), &mut rng).err(),
        Some(HarnessError::ErrorParsingTestHarnessConfig)
    );
}
