//! Reading a scenario description: a tree of strings, integers, arrays and ordered maps
//! (what a YAML document holds), turned into a test case.

use vstd::prelude::*;
use vstd::string::StringExecFns;
use crate::harness::{
    is_issue_line, is_transfer_line, Account, Create, HarnessError, Issue, Party, TestCase, Transaction,
    TransactionMode, Transfer,
};

verus! {

/// A node of a scenario description.
#[derive(Debug)]
pub enum ConfigNode {
    Str(String),
    Int(i64),
    Array(Vec<ConfigNode>),
    Hash(Vec<ConfigEntry>),
    Other,
}

/// One key and value of a map node, in document order.
#[derive(Debug)]
pub struct ConfigEntry {
    pub key: ConfigNode,
    pub value: ConfigNode,
}

/// A string that is an issuance or a transfer line.
pub open spec fn is_tx_line(s: Seq<char>) -> bool {
    is_issue_line(vstd::utf8::encode_utf8(s)) || is_transfer_line(vstd::utf8::encode_utf8(s))
}

/// A transaction list: an array whose map items have string keys and transaction lists as
/// values.
pub open spec fn node_ok(n: ConfigNode) -> bool
    decreases n, 2nat, 0nat,
{
    match n {
        ConfigNode::Array(items) => items_ok(items@, items@.len()),
        _ => false,
    }
}

/// The first `k` items are well shaped.
pub open spec fn items_ok(items: Seq<ConfigNode>, k: nat) -> bool
    decreases items, 1nat, k,
{
    if k == 0 || k > items.len() {
        k == 0
    } else {
        items_ok(items, (k - 1) as nat) && item_ok(items[k - 1])
    }
}

/// An item is well shaped: a map item's keys are strings and its values transaction lists.
pub open spec fn item_ok(i: ConfigNode) -> bool
    decreases i, 2nat, 0nat,
{
    match i {
        ConfigNode::Hash(es) => entries_ok(es@, es@.len()),
        _ => true,
    }
}

/// The first `k` entries are well shaped.
pub open spec fn entries_ok(es: Seq<ConfigEntry>, k: nat) -> bool
    decreases es, 1nat, k,
{
    if k == 0 || k > es.len() {
        k == 0
    } else {
        entries_ok(es, (k - 1) as nat) && es[k - 1].key is Str && node_ok(es[k - 1].value)
    }
}

/// The number of transactions a list holds, at any depth.
pub open spec fn node_count(n: ConfigNode) -> nat
    decreases n, 2nat, 0nat,
{
    match n {
        ConfigNode::Array(items) => items_count(items@, items@.len()),
        _ => 0,
    }
}

pub open spec fn items_count(items: Seq<ConfigNode>, k: nat) -> nat
    decreases items, 1nat, k,
{
    if k == 0 || k > items.len() {
        0
    } else {
        items_count(items, (k - 1) as nat) + item_count(items[k - 1])
    }
}

pub open spec fn item_count(i: ConfigNode) -> nat
    decreases i, 2nat, 0nat,
{
    match i {
        ConfigNode::Hash(es) => entries_count(es@, es@.len()),
        ConfigNode::Str(s) => if is_tx_line(s@) { 1 } else { 0 },
        _ => 0,
    }
}

pub open spec fn entries_count(es: Seq<ConfigEntry>, k: nat) -> nat
    decreases es, 1nat, k,
{
    if k == 0 || k > es.len() {
        0
    } else {
        entries_count(es, (k - 1) as nat) + node_count(es[k - 1].value)
    }
}

/// Whether a key opens a combination: `sequence` or `concurrent`.
pub open spec fn is_mode_key(k: Seq<char>) -> bool {
    k == "sequence"@ || k == "concurrent"@
}

/// The number of combinations a list holds at its top level.
pub open spec fn items_top(items: Seq<ConfigNode>, k: nat) -> nat
    decreases k,
{
    if k == 0 || k > items.len() {
        0
    } else {
        items_top(items, (k - 1) as nat) + match items[k - 1] {
            ConfigNode::Hash(es) => entries_top(es@, es@.len()),
            ConfigNode::Str(s) => if is_tx_line(s@) { 1nat } else { 0nat },
            _ => 0nat,
        }
    }
}

pub open spec fn entries_top(es: Seq<ConfigEntry>, k: nat) -> nat
    decreases k,
{
    if k == 0 || k > es.len() {
        0
    } else {
        entries_top(es, (k - 1) as nat) + match es[k - 1].key {
            ConfigNode::Str(s) => if is_mode_key(s@) { 1nat } else { 0nat },
            _ => 0nat,
        }
    }
}

/// The string a node holds.
pub fn to_string(value: &ConfigNode) -> (r: Result<String, HarnessError>)
    ensures
        r.is_ok() <==> value is Str,
        r.is_ok() ==> r.unwrap()@ == value->Str_0@,
        r.is_err() ==> r == Err::<String, HarnessError>(HarnessError::ErrorParsingTestHarnessConfig),
{
    match value {
        ConfigNode::Str(s) => Ok(s.clone()),
        _ => Err(HarnessError::ErrorParsingTestHarnessConfig),
    }
}

/// The items of an array node.
pub fn to_array(value: &ConfigNode) -> (r: Result<&Vec<ConfigNode>, HarnessError>)
    ensures
        r.is_ok() <==> value is Array,
        r.is_ok() ==> *r.unwrap() == value->Array_0,
        r.is_err() ==> r == Err::<&Vec<ConfigNode>, HarnessError>(HarnessError::ErrorParsingTestHarnessConfig),
{
    match value {
        ConfigNode::Array(a) => Ok(a),
        _ => Err(HarnessError::ErrorParsingTestHarnessConfig),
    }
}

/// The entries of a map node.
pub fn to_hash(value: &ConfigNode) -> (r: Result<&Vec<ConfigEntry>, HarnessError>)
    ensures
        r.is_ok() <==> value is Hash,
        r.is_ok() ==> *r.unwrap() == value->Hash_0,
        r.is_err() ==> r == Err::<&Vec<ConfigEntry>, HarnessError>(HarnessError::ErrorParsingTestHarnessConfig),
{
    match value {
        ConfigNode::Hash(h) => Ok(h),
        _ => Err(HarnessError::ErrorParsingTestHarnessConfig),
    }
}

proof fn lemma_items_prefix(items: Seq<ConfigNode>, j: nat, k: nat)
    requires
        j <= k <= items.len(),
    ensures
        items_ok(items, k) ==> items_ok(items, j),
        items_count(items, j) <= items_count(items, k),
    decreases k - j,
{
    if j < k {
        lemma_items_prefix(items, j, (k - 1) as nat);
    }
}

proof fn lemma_entries_prefix(es: Seq<ConfigEntry>, j: nat, k: nat)
    requires
        j <= k <= es.len(),
    ensures
        entries_ok(es, k) ==> entries_ok(es, j),
        entries_count(es, j) <= entries_count(es, k),
    decreases k - j,
{
    if j < k {
        lemma_entries_prefix(es, j, (k - 1) as nat);
    }
}

/// Reads a transaction list. Ids are handed out in document order from
/// `transaction_id`; a string that is neither an issuance nor a transfer line, and a map
/// key other than `sequence` and `concurrent`, are passed over.
pub fn parse_transactions(value: &ConfigNode, transaction_id: u32) -> (r: Result<(u32, Vec<TransactionMode>), HarnessError>)
    ensures
        r.is_ok() <==> node_ok(*value) && transaction_id + node_count(*value) <= u32::MAX,
        r.is_ok() ==> r.unwrap().0 == transaction_id + node_count(*value)
            && r.unwrap().1@.len() == items_top(value->Array_0@, value->Array_0@.len()),
        r.is_err() ==> r == Err::<(u32, Vec<TransactionMode>), HarnessError>(HarnessError::ErrorParsingTestHarnessConfig),
    decreases value, 2nat,
{
    let items = to_array(value)?;
    let mut list: Vec<TransactionMode> = Vec::new();
    let mut id: u32 = transaction_id;
    let mut i: usize = 0;
    while i < items.len()
        invariant
            *value is Array && value->Array_0 == *items,
            i <= items@.len(),
            items_ok(items@, i as nat),
            id == transaction_id + items_count(items@, i as nat),
            list@.len() == items_top(items@, i as nat),
        decreases items@.len() - i,
    {
        proof {
            assert(decreases_to!(*value => items@[i as int]));
            lemma_items_prefix(items@, (i + 1) as nat, items@.len());
        }
        let ghost id0 = id;
        let ghost top0 = list@.len();
        assert(items_ok(items@, (i + 1) as nat) == (items_ok(items@, i as nat) && item_ok(items@[i as int])));
        assert(items_count(items@, (i + 1) as nat) == items_count(items@, i as nat) + item_count(items@[i as int]));
        match &items[i] {
            ConfigNode::Hash(entries) => {
                let mut j: usize = 0;
                assert(items@[i as int] == ConfigNode::Hash(*entries));
                assert(item_count(items@[i as int]) == entries_count(entries@, entries@.len()));
                assert(item_ok(items@[i as int]) == entries_ok(entries@, entries@.len()));
                assert(items_top(items@, (i + 1) as nat) == items_top(items@, i as nat) + entries_top(entries@, entries@.len()));
                while j < entries.len()
                    invariant
                        *value is Array && value->Array_0 == *items,
                        i < items@.len(),
                        items@[i as int] is Hash && items@[i as int]->Hash_0 == *entries,
                        j <= entries@.len(),
                        entries_ok(entries@, j as nat),
                        id == id0 + entries_count(entries@, j as nat),
                        list@.len() == top0 + entries_top(entries@, j as nat),
                        items_ok(items@, i as nat),
                        id0 == transaction_id + items_count(items@, i as nat),
                        top0 == items_top(items@, i as nat),
                        items_ok(items@, items@.len()) ==> items_ok(items@, (i + 1) as nat),
                        items_count(items@, (i + 1) as nat) <= items_count(items@, items@.len()),
                        items_count(items@, (i + 1) as nat) == items_count(items@, i as nat) + entries_count(entries@, entries@.len()),
                        items_ok(items@, (i + 1) as nat) == (items_ok(items@, i as nat) && entries_ok(entries@, entries@.len())),
                    decreases entries@.len() - j,
                {
                    proof {
                        lemma_entries_prefix(entries@, (j + 1) as nat, entries@.len());
                        assert(decreases_to!(*value => entries@[j as int].value));
                    }
                    let key = match to_string(&entries[j].key) {
                        Ok(k) => k,
                        Err(e) => {
                            assert(!entries_ok(entries@, (j + 1) as nat));
                            assert(!items_ok(items@, (i + 1) as nat));
                            return Err(e);
                        },
                    };
                    let (next_id, steps) = match parse_transactions(&entries[j].value, id) {
                        Ok(x) => x,
                        Err(e) => {
                            assert(!node_ok(entries@[j as int].value) ==> !entries_ok(entries@, (j + 1) as nat));
                            assert(!node_ok(entries@[j as int].value) ==> !items_ok(items@, (i + 1) as nat));
                            assert(entries_count(entries@, (j + 1) as nat) == entries_count(entries@, j as nat) + node_count(entries@[j as int].value));
                            return Err(e);
                        },
                    };
                    id = next_id;
                    let seq_key = String::from_str("sequence");
                    let conc_key = String::from_str("concurrent");
                    if key == seq_key {
                        list.push(TransactionMode::Sequence { repeat: 1, steps });
                    } else if key == conc_key {
                        list.push(TransactionMode::Concurrent { repeat: 1, steps });
                    }
                    j = j + 1;
                }
                assert(item_ok(items@[i as int]));
            },
            ConfigNode::Str(s) => {
                assert(items@[i as int] == ConfigNode::Str(*s));
                assert(items_top(items@, (i + 1) as nat) == items_top(items@, i as nat) + item_count(items@[i as int]));
                match Issue::parse(id, s.as_str()) {
                    Ok(issue) => {
                        assert(item_count(items@[i as int]) == 1);
                        if id == u32::MAX {
                            return Err(HarnessError::ErrorParsingTestHarnessConfig);
                        }
                        id = id + 1;
                        list.push(TransactionMode::Transaction(Transaction::Issue(issue)));
                    },
                    Err(_) => {
                        match Transfer::parse(id, s.as_str()) {
                            Ok(transfer) => {
                                assert(item_count(items@[i as int]) == 1);
                                if id == u32::MAX {
                                    return Err(HarnessError::ErrorParsingTestHarnessConfig);
                                }
                                id = id + 1;
                                list.push(TransactionMode::Transaction(Transaction::Transfer(transfer)));
                            },
                            Err(_) => {
                                assert(item_count(items@[i as int]) == 0);
                            },
                        }
                    },
                }
            },
            _ => {
                assert(item_count(items@[i as int]) == 0);
                assert(items_top(items@, (i + 1) as nat) == items_top(items@, i as nat));
            },
        }
        i = i + 1;
    }
    Ok((id, list))
}

/// The standard base64 text of some bytes.
pub uninterp spec fn base64_of(b: Seq<u8>) -> Seq<char>;

/// Relies on rand_core's RngCore::fill_bytes for `StdRng`.
#[verifier::external_body]
fn random_seed(rng: &mut rand::rngs::StdRng) -> (r: [u8; 32]) {
    let mut seed = [0u8; 32];
    rand::RngCore::fill_bytes(rng, &mut seed);
    seed
}

/// Relies on base64's encode, whose result depends on the bytes alone.
#[verifier::external_body]
fn base64_encode(b: &[u8; 32]) -> (r: String)
    ensures
        r@ == base64_of(b@),
{
    base64::encode(b)
}

/// The creation `c` makes account number `k` of `accounts`, with a base64 seed.
pub open spec fn creates_account(c: Create, k: int, a: Account, chain_db_dir: Seq<char>) -> bool {
    &&& c.id == k
    &&& c.account_id == k
    &&& c.owner.name@ == a.owner@
    &&& !c.owner.cheater
    &&& c.ticker@ == a.ticker@
    &&& c.chain_db_dir@ == chain_db_dir
    &&& exists|b: Seq<u8>| c.seed@ == base64_of(b)
}

/// One account creation for each account, numbered from zero in order, each with a fresh
/// random seed, run one after the other.
pub fn make_empty_accounts(accounts: &Vec<Account>, chain_db_dir: &String, rng: &mut rand::rngs::StdRng) -> (r: Result<(u32, TransactionMode), HarnessError>)
    ensures
        r.is_ok() <==> accounts@.len() <= u32::MAX,
        r.is_ok() ==> ({
            let (n, m) = r.unwrap();
            &&& n == accounts@.len()
            &&& m is Sequence
            &&& m->Sequence_repeat == 1
            &&& m->Sequence_steps@.len() == accounts@.len()
            &&& forall|k: int| 0 <= k < accounts@.len() ==> {
                let s = #[trigger] m->Sequence_steps@[k];
                s is Transaction && s->Transaction_0 is Create
                    && creates_account(s->Transaction_0->Create_0, k, accounts@[k], chain_db_dir@)
            }
        }),
        r.is_err() ==> r == Err::<(u32, TransactionMode), HarnessError>(HarnessError::ErrorParsingTestHarnessConfig),
{
    if accounts.len() > 0xffff_ffff {
        return Err(HarnessError::ErrorParsingTestHarnessConfig);
    }
    let mut seq: Vec<TransactionMode> = Vec::new();
    let mut k: usize = 0;
    while k < accounts.len()
        invariant
            k <= accounts@.len() <= u32::MAX,
            seq@.len() == k,
            forall|j: int| 0 <= j < k ==> {
                let s = #[trigger] seq@[j];
                s is Transaction && s->Transaction_0 is Create
                    && creates_account(s->Transaction_0->Create_0, j, accounts@[j], chain_db_dir@)
            },
        decreases accounts@.len() - k,
    {
        let raw = random_seed(rng);
        let seed = base64_encode(&raw);
        let account = &accounts[k];
        let c = Create {
            id: k as u32,
            seed,
            chain_db_dir: chain_db_dir.clone(),
            account_id: k as u32,
            owner: Party { name: account.owner.clone(), cheater: false },
            ticker: account.ticker.clone(),
        };
        seq.push(TransactionMode::Transaction(Transaction::Create(c)));
        k = k + 1;
    }
    Ok((accounts.len() as u32, TransactionMode::Sequence { repeat: 1, steps: seq }))
}

/// The value of the first entry from `i` on whose key is the string `key`.
pub open spec fn first_entry(es: Seq<ConfigEntry>, key: Seq<char>, i: nat) -> Option<ConfigNode>
    decreases es.len() - i,
{
    if i >= es.len() {
        None
    } else if es[i as int].key is Str && es[i as int].key->Str_0@ == key {
        Some(es[i as int].value)
    } else {
        first_entry(es, key, i + 1)
    }
}

/// The value under a string key of a map node: the first entry with that key.
pub open spec fn lookup_spec(node: ConfigNode, key: Seq<char>) -> Option<ConfigNode> {
    match node {
        ConfigNode::Hash(es) => first_entry(es@, key, 0),
        _ => None,
    }
}

/// The value under a string key of a map node, if there is one.
pub fn lookup<'a>(node: &'a ConfigNode, key: &str) -> (r: Option<&'a ConfigNode>)
    ensures
        r.is_some() == lookup_spec(*node, key@).is_some(),
        r.is_some() ==> *r.unwrap() == lookup_spec(*node, key@)->Some_0,
{
    match node {
        ConfigNode::Hash(entries) => {
            let wanted = String::from_str(key);
            let mut i: usize = 0;
            while i < entries.len()
                invariant
                    i <= entries@.len(),
                    wanted@ == key@,
                    *node is Hash && node->Hash_0 == *entries,
                    first_entry(entries@, key@, 0) == first_entry(entries@, key@, i as nat),
                decreases entries@.len() - i,
            {
                match &entries[i].key {
                    ConfigNode::Str(k) => {
                        if *k == wanted {
                            return Some(&entries[i].value);
                        }
                    },
                    _ => {},
                }
                i = i + 1;
            }
            None
        },
        _ => None,
    }
}

/// Reads a test case: its title, tickers, accounts, expected outcome and time limit, and
/// its transactions, which run after one creation per account.
pub fn parse_config(config: &ConfigNode, chain_db_dir: String, rng: &mut rand::rngs::StdRng) -> (r: Result<TestCase, HarnessError>)
    ensures
        !(lookup_spec(*config, "title"@) matches Some(ConfigNode::Str(_))) ==> r == Err::<TestCase, HarnessError>(HarnessError::ErrorParsingTestHarnessConfig),
        r.is_ok() ==> ({
            let t = r.unwrap();
            &&& t.title@ == lookup_spec(*config, "title"@)->Some_0->Str_0@
            &&& t.chain_db_dir@ == chain_db_dir@
            &&& t.transactions is Sequence
            &&& t.transactions->Sequence_repeat == 1
            &&& t.transactions->Sequence_steps@.len() == 2
        }),
        r.is_err() ==> r == Err::<TestCase, HarnessError>(HarnessError::ErrorParsingTestHarnessConfig)
            || r == Err::<TestCase, HarnessError>(HarnessError::TopLevelTransaction)
            || r == Err::<TestCase, HarnessError>(HarnessError::BalanceTooBig),
{
    let missing = ConfigNode::Other;
    let title = to_string(match lookup(config, "title") { Some(n) => n, None => &missing })?;

    let mut ticker_names: Vec<String> = Vec::new();
    match lookup(config, "tickers") {
        Some(ConfigNode::Array(tickers)) => {
            let mut i: usize = 0;
            while i < tickers.len()
                invariant
                    lookup_spec(*config, "title"@) matches Some(ConfigNode::Str(_)),
                decreases tickers@.len() - i,
            {
                ticker_names.push(to_string(&tickers[i])?);
                i = i + 1;
            }
        },
        _ => {},
    }

    let mut all_accounts: Vec<Account> = Vec::new();
    let users = to_array(match lookup(config, "accounts") { Some(n) => n, None => &missing })?;
    let mut i: usize = 0;
    while i < users.len()
        invariant
            lookup_spec(*config, "title"@) matches Some(ConfigNode::Str(_)),
        decreases users@.len() - i,
    {
        let user = to_hash(&users[i])?;
        let mut j: usize = 0;
        while j < user.len()
            invariant
                lookup_spec(*config, "title"@) matches Some(ConfigNode::Str(_)),
            decreases user@.len() - j,
        {
            let owner = to_string(&user[j].key)?;
            let tickers = to_array(&user[j].value)?;
            let mut k: usize = 0;
            while k < tickers.len()
                invariant
                    lookup_spec(*config, "title"@) matches Some(ConfigNode::Str(_)),
                decreases tickers@.len() - k,
            {
                let ticker = to_string(&tickers[k])?;
                all_accounts.push(Account { owner: owner.clone(), ticker, balance: 0 });
                k = k + 1;
            }
            j = j + 1;
        }
        i = i + 1;
    }

    let mut accounts_outcome: Vec<Account> = Vec::new();
    let mut timing_limit: u128 = 0;
    let outcomes = to_array(match lookup(config, "outcome") { Some(n) => n, None => &missing })?;
    let time_key = String::from_str("time-limit");
    let mut i: usize = 0;
    while i < outcomes.len()
        invariant
            lookup_spec(*config, "title"@) matches Some(ConfigNode::Str(_)),
        decreases outcomes@.len() - i,
    {
        let outcome_type = to_hash(&outcomes[i])?;
        let mut j: usize = 0;
        while j < outcome_type.len()
            invariant
                lookup_spec(*config, "title"@) matches Some(ConfigNode::Str(_)),
            decreases outcome_type@.len() - j,
        {
            let key = to_string(&outcome_type[j].key)?;
            if key == time_key {
                match &outcome_type[j].value {
                    ConfigNode::Int(limit) => {
                        if *limit < 0 {
                            return Err(HarnessError::BalanceTooBig);
                        }
                        timing_limit = *limit as u128;
                    },
                    _ => {},
                }
            } else {
                let per_user = to_array(&outcome_type[j].value)?;
                let mut k: usize = 0;
                while k < per_user.len()
                    invariant
                        lookup_spec(*config, "title"@) matches Some(ConfigNode::Str(_)),
                    decreases per_user@.len() - k,
                {
                    let balances = to_hash(&per_user[k])?;
                    let mut m: usize = 0;
                    while m < balances.len()
                        invariant
                            lookup_spec(*config, "title"@) matches Some(ConfigNode::Str(_)),
                        decreases balances@.len() - m,
                    {
                        let ticker = to_string(&balances[m].key)?;
                        let balance = match &balances[m].value {
                            ConfigNode::Int(b) => *b,
                            _ => return Err(HarnessError::ErrorParsingTestHarnessConfig),
                        };
                        if balance < 0 || balance > 0xffff_ffff {
                            return Err(HarnessError::BalanceTooBig);
                        }
                        accounts_outcome.push(Account { owner: key.clone(), ticker, balance: balance as u32 });
                        m = m + 1;
                    }
                    k = k + 1;
                }
            }
            j = j + 1;
        }
        i = i + 1;
    }

    let (next_transaction_id, create_account_transactions) = make_empty_accounts(&all_accounts, &chain_db_dir, rng)?;
    let (_, mut transactions) = parse_transactions(match lookup(config, "transactions") { Some(n) => n, None => &missing }, next_transaction_id)?;
    if transactions.len() != 1 {
        return Err(HarnessError::TopLevelTransaction);
    }
    let top = transactions.remove(0);
    Ok(TestCase {
        title,
        ticker_names,
        transactions: TransactionMode::Sequence { repeat: 1, steps: vec![create_account_transactions, top] },
        accounts_outcome,
        timing_limit,
        chain_db_dir,
    })
}

} // verus!
