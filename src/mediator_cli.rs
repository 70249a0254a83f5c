use vstd::prelude::*;
use crate::account_cli::or_default;

verus! {

/// The settings of the mediator tool's `create` command.
#[derive(Clone, Debug)]
pub struct CreateMediatorAccountInfo {
    pub user: String,
    pub db_dir: Option<String>,
    pub seed: Option<String>,
    pub save_config: Option<String>,
}

/// The settings of the mediator tool's `justify-issuance` command.
#[derive(Clone, Debug)]
pub struct JustifyIssuanceInfo {
    pub db_dir: Option<String>,
    pub tx_id: u32,
    pub issuer: String,
    pub mediator: String,
    pub seed: Option<String>,
    pub reject: bool,
    pub save_config: Option<String>,
}

/// The settings of the mediator tool's `justify-transaction` command.
#[derive(Clone, Debug)]
pub struct JustifyTransactionInfo {
    pub db_dir: Option<String>,
    pub tx_id: u32,
    pub ticker_id: String,
    pub sender: String,
    pub receiver: String,
    pub mediator: String,
    pub reject: bool,
    pub save_config: Option<String>,
}

/// The commands of the mediator tool.
#[derive(Clone, Debug)]
pub enum CLI {
    Create(CreateMediatorAccountInfo),
    JustifyIssuance(JustifyIssuanceInfo),
    JustifyTransaction(JustifyTransactionInfo),
}

fn pick<T>(given: Option<T>, fallback: Option<T>) -> (r: Option<T>)
    ensures
        r == or_default(given, fallback),
{
    match given {
        Some(v) => Some(v),
        None => fallback,
    }
}

impl CLI {
    /// Fills in what the command line left out: the database directory defaults to
    /// `current_dir`, and a missing seed to `fresh_seed` (a transaction justification
    /// takes no seed).
    pub fn with_defaults(self, current_dir: Option<String>, fresh_seed: String) -> (r: CLI)
        ensures
            match self {
                CLI::Create(c) => r == CLI::Create(
                    CreateMediatorAccountInfo {
                        db_dir: or_default(c.db_dir, current_dir),
                        seed: or_default(c.seed, Some(fresh_seed)),
                        ..c
                    },
                ),
                CLI::JustifyIssuance(c) => r == CLI::JustifyIssuance(
                    JustifyIssuanceInfo {
                        db_dir: or_default(c.db_dir, current_dir),
                        seed: or_default(c.seed, Some(fresh_seed)),
                        ..c
                    },
                ),
                CLI::JustifyTransaction(c) => r == CLI::JustifyTransaction(
                    JustifyTransactionInfo { db_dir: or_default(c.db_dir, current_dir), ..c },
                ),
            },
    {
        match self {
            CLI::Create(c) => {
                let CreateMediatorAccountInfo { user, db_dir, seed, save_config } = c;
                CLI::Create(
                    CreateMediatorAccountInfo {
                        user,
                        db_dir: pick(db_dir, current_dir),
                        seed: pick(seed, Some(fresh_seed)),
                        save_config,
                    },
                )
            },
            CLI::JustifyIssuance(c) => {
                let JustifyIssuanceInfo {
                    db_dir,
                    tx_id,
                    issuer,
                    mediator,
                    seed,
                    reject,
                    save_config,
                } = c;
                CLI::JustifyIssuance(
                    JustifyIssuanceInfo {
                        db_dir: pick(db_dir, current_dir),
                        tx_id,
                        issuer,
                        mediator,
                        seed: pick(seed, Some(fresh_seed)),
                        reject,
                        save_config,
                    },
                )
            },
            CLI::JustifyTransaction(c) => {
                let JustifyTransactionInfo {
                    db_dir,
                    tx_id,
                    ticker_id,
                    sender,
                    receiver,
                    mediator,
                    reject,
                    save_config,
                } = c;
                CLI::JustifyTransaction(
                    JustifyTransactionInfo {
                        db_dir: pick(db_dir, current_dir),
                        tx_id,
                        ticker_id,
                        sender,
                        receiver,
                        mediator,
                        reject,
                        save_config,
                    },
                )
            },
        }
    }
}

} // verus!
