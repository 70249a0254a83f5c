use vstd::prelude::*;

verus! {

/// The settings of the account tool's `create` command.
#[derive(Clone, Debug)]
pub struct AccountGenInfo {
    pub user: String,
    pub db_dir: Option<String>,
    pub account_id: u32,
    pub ticker_id: String,
    pub seed: Option<String>,
    pub save_config: Option<String>,
    pub loag_config: Option<String>,
}

/// The commands of the account tool.
#[derive(Clone, Debug)]
pub enum CLI {
    Create(AccountGenInfo),
    Destroy { user: String, db_dir: Option<String> },
}

/// `given` if there is one, else `fallback`.
pub open spec fn or_default<T>(given: Option<T>, fallback: Option<T>) -> Option<T> {
    if given.is_some() {
        given
    } else {
        fallback
    }
}

fn pick<T>(given: Option<T>, fallback: Option<T>) -> (r: Option<T>)
    ensures
        r == or_default(given, fallback),
{
    match given {
        Some(v) => Some(v),
        None => fallback,
    }
}

impl CLI {
    /// Fills in what the command line left out: the database directory defaults to
    /// `current_dir`, and a missing seed to `fresh_seed`.
    pub fn with_defaults(self, current_dir: Option<String>, fresh_seed: String) -> (r: CLI)
        ensures
            match self {
                CLI::Create(c) => r == CLI::Create(
                    AccountGenInfo {
                        db_dir: or_default(c.db_dir, current_dir),
                        seed: or_default(c.seed, Some(fresh_seed)),
                        ..c
                    },
                ),
                CLI::Destroy { user, db_dir } => r == CLI::Destroy {
                    user,
                    db_dir: or_default(db_dir, current_dir),
                },
            },
    {
        match self {
            CLI::Create(c) => {
                let AccountGenInfo {
                    user,
                    db_dir,
                    account_id,
                    ticker_id,
                    seed,
                    save_config,
                    loag_config,
                } = c;
                CLI::Create(
                    AccountGenInfo {
                        user,
                        db_dir: pick(db_dir, current_dir),
                        account_id,
                        ticker_id,
                        seed: pick(seed, Some(fresh_seed)),
                        save_config,
                        loag_config,
                    },
                )
            },
            CLI::Destroy { user, db_dir } => CLI::Destroy {
                user,
                db_dir: pick(db_dir, current_dir),
            },
        }
    }
}

} // verus!
