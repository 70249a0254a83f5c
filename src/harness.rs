use vstd::prelude::*;
use vstd::multiset::Multiset;
use vstd::string::StringSliceAdditionalSpecFns;
use vstd::string::StringExecFns;
use crate::text::{
    all_ascii, ascii_chars, ascii_to_string, decimal, decimal_bytes, decimal_value, is_alnum,
    is_number, parse_u32, split_on_spaces, split_spaces, str_bytes,
};

verus! {

broadcast use vstd::seq_lib::group_to_multiset_ensures, vstd::multiset::group_multiset_axioms;

/// The harness's own failures.
#[derive(Clone, Copy, Debug, PartialEq, Eq, Structural)]
pub enum HarnessError {
    /// A transaction line does not have the expected shape.
    RegexError,
    /// The scenario description is malformed.
    ErrorParsingTestHarnessConfig,
    /// The scenario does not hold exactly one top-level transaction.
    TopLevelTransaction,
    /// An expected balance does not fit in 32 bits.
    BalanceTooBig,
    /// The scenario took longer than allowed.
    TimeLimitExceeded,
}

// ------------------------------------------------------------------------------------------
// Parties
// ------------------------------------------------------------------------------------------

/// The bytes of the marker `(cheat)`.
pub open spec fn cheat_tag() -> Seq<u8> {
    seq![40u8, 99u8, 104u8, 101u8, 97u8, 116u8, 41u8]
}

/// The index of the first letter or digit at or after `i`, or the length.
pub open spec fn first_alnum(s: Seq<u8>, i: int) -> int
    decreases s.len() - i,
{
    if i >= s.len() || i < 0 {
        s.len() as int
    } else if is_alnum(s[i]) {
        i
    } else {
        first_alnum(s, i + 1)
    }
}

/// The end of the run of letters and digits that starts at `i`.
pub open spec fn run_end(s: Seq<u8>, i: int) -> int
    decreases s.len() - i,
{
    if i >= s.len() || i < 0 || !is_alnum(s[i]) {
        i
    } else {
        run_end(s, i + 1)
    }
}

/// The name of a party segment: its first run of letters and digits.
pub open spec fn party_name(s: Seq<u8>) -> Seq<u8> {
    s.subrange(first_alnum(s, 0), run_end(s, first_alnum(s, 0)))
}

/// Whether the name of a party segment is directly followed by `(cheat)`.
pub open spec fn party_cheats(s: Seq<u8>) -> bool {
    let e = run_end(s, first_alnum(s, 0));
    e + 7 <= s.len() && s.subrange(e, e + 7) == cheat_tag()
}

/// A segment names a party when it holds a letter or a digit.
pub open spec fn names_party(s: Seq<u8>) -> bool {
    first_alnum(s, 0) < s.len()
}

/// A generic party: sender, receiver, mediator or account owner.
#[derive(Debug)]
pub struct Party {
    pub name: String,
    pub cheater: bool,
}

proof fn lemma_first_alnum_bounds(s: Seq<u8>, i: int)
    requires
        0 <= i <= s.len(),
    ensures
        i <= first_alnum(s, i) <= s.len(),
        first_alnum(s, i) < s.len() ==> is_alnum(s[first_alnum(s, i)]),
    decreases s.len() - i,
{
    if i < s.len() && !is_alnum(s[i]) {
        lemma_first_alnum_bounds(s, i + 1);
    }
}

proof fn lemma_run_end_bounds(s: Seq<u8>, i: int)
    requires
        0 <= i <= s.len(),
    ensures
        i <= run_end(s, i) <= s.len(),
        forall|j: int| i <= j < run_end(s, i) ==> is_alnum(#[trigger] s[j]),
    decreases s.len() - i,
{
    if i < s.len() && is_alnum(s[i]) {
        lemma_run_end_bounds(s, i + 1);
    }
}

/// Whether a byte is an ASCII letter or digit.
fn alnum(c: u8) -> (r: bool)
    ensures
        r == is_alnum(c),
{
    (48 <= c && c <= 57) || (65 <= c && c <= 90) || (97 <= c && c <= 122)
}

/// The bytes of `s` from `a` to `b`.
fn sub_bytes(s: &Vec<u8>, a: usize, b: usize) -> (r: Vec<u8>)
    requires
        a <= b <= s@.len(),
    ensures
        r@ == s@.subrange(a as int, b as int),
{
    let mut r: Vec<u8> = Vec::new();
    let mut i: usize = a;
    while i < b
        invariant
            a <= i <= b,
            b <= s@.len(),
            r@ == s@.subrange(a as int, i as int),
        decreases b - i,
    {
        r.push(s[i]);
        i = i + 1;
        assert(r@ =~= s@.subrange(a as int, i as int));
    }
    r
}

impl Party {
    /// The party that a segment such as `alice` or `alice(cheat)` names.
    pub fn from_bytes(segment: &Vec<u8>) -> (r: Party)
        requires
            names_party(segment@),
        ensures
            r.name@ == ascii_chars(party_name(segment@)),
            r.cheater == party_cheats(segment@),
    {
        let ghost s = segment@;
        let mut i: usize = 0;
        while i < segment.len() && !alnum(segment[i])
            invariant
                0 <= i <= s.len(),
                s == segment@,
                first_alnum(s, 0) == first_alnum(s, i as int),
            decreases s.len() - i,
        {
            i = i + 1;
        }
        let start = i;
        proof {
            lemma_first_alnum_bounds(s, 0);
        }
        assert(start as int == first_alnum(s, 0));
        while i < segment.len() && alnum(segment[i])
            invariant
                start <= i <= s.len(),
                s == segment@,
                run_end(s, start as int) == run_end(s, i as int),
            decreases s.len() - i,
        {
            i = i + 1;
        }
        let end = i;
        proof {
            lemma_run_end_bounds(s, start as int);
        }
        let name = sub_bytes(segment, start, end);
        let mut cheater = false;
        if segment.len() >= 7 && end <= segment.len() - 7 {
            let tag: Vec<u8> = vec![40u8, 99u8, 104u8, 101u8, 97u8, 116u8, 41u8];
            let tail = sub_bytes(segment, end, end + 7);
            cheater = crate::text::bytes_eq(&tail, &tag);
            assert(tag@ =~= cheat_tag());
        }
        assert forall|j: int| 0 <= j < name@.len() implies (#[trigger] name@[j]) < 128 by {
            assert(name@[j] == s[start + j]);
        }
        Party { name: ascii_to_string(name), cheater }
    }

    /// The party that a segment such as `alice` or `alice(cheat)` names.
    pub fn from_segment(segment: &str) -> (r: Party)
        requires
            names_party(segment.spec_bytes()),
        ensures
            r.name@ == ascii_chars(party_name(segment.spec_bytes())),
            r.cheater == party_cheats(segment.spec_bytes()),
    {
        Party::from_bytes(&str_bytes(segment))
    }
}

// ------------------------------------------------------------------------------------------
// Transaction lines
// ------------------------------------------------------------------------------------------

/// A party token: letters, digits and parentheses, with at least one letter or digit.
pub open spec fn is_party_token(t: Seq<u8>) -> bool {
    &&& t.len() > 0
    &&& forall|i: int| 0 <= i < t.len() ==> (is_alnum(#[trigger] t[i]) || t[i] == 40u8 || t[i]
        == 41u8)
    &&& names_party(t)
}

/// A ticker token: letters and digits only.
pub open spec fn is_word_token(t: Seq<u8>) -> bool {
    t.len() > 0 && forall|i: int| 0 <= i < t.len() ==> is_alnum(#[trigger] t[i])
}

/// The bytes of `approve`.
pub open spec fn approve_word() -> Seq<u8> {
    seq![97u8, 112u8, 112u8, 114u8, 111u8, 118u8, 101u8]
}

/// The bytes of `reject`.
pub open spec fn reject_word() -> Seq<u8> {
    seq![114u8, 101u8, 106u8, 101u8, 99u8, 116u8]
}

/// A decision token: `approve` or `reject`.
pub open spec fn is_decision(t: Seq<u8>) -> bool {
    t == approve_word() || t == reject_word()
}

/// An amount token: digits whose value fits in 32 bits.
pub open spec fn is_amount(t: Seq<u8>) -> bool {
    is_number(t) && decimal_value(t) < 0x1_0000_0000
}

/// `sender amount ticker receiver decision mediator decision`, separated by single spaces.
pub open spec fn is_transfer_line(s: Seq<u8>) -> bool {
    let t = split_spaces(s);
    &&& t.len() == 7
    &&& is_party_token(t[0])
    &&& is_amount(t[1])
    &&& is_word_token(t[2])
    &&& is_party_token(t[3])
    &&& is_decision(t[4])
    &&& is_party_token(t[5])
    &&& is_decision(t[6])
}

/// `owner amount ticker mediator decision`, separated by single spaces.
pub open spec fn is_issue_line(s: Seq<u8>) -> bool {
    let t = split_spaces(s);
    &&& t.len() == 5
    &&& is_party_token(t[0])
    &&& is_amount(t[1])
    &&& is_word_token(t[2])
    &&& is_party_token(t[3])
    &&& is_decision(t[4])
}

/// The party a token names.
pub open spec fn party_matches(p: Party, t: Seq<u8>) -> bool {
    p.name@ == ascii_chars(party_name(t)) && p.cheater == party_cheats(t)
}

fn check_party_token(t: &Vec<u8>) -> (r: bool)
    ensures
        r <==> is_party_token(t@),
{
    if t.len() == 0 {
        return false;
    }
    let mut i: usize = 0;
    let mut seen = false;
    proof {
        lemma_first_alnum_bounds(t@, 0);
    }
    while i < t.len()
        invariant
            0 <= i <= t@.len(),
            forall|j: int| 0 <= j < i ==> (is_alnum(#[trigger] t@[j]) || t@[j] == 40u8 || t@[j]
                == 41u8),
            seen <==> first_alnum(t@, 0) < i,
            !seen ==> first_alnum(t@, 0) == first_alnum(t@, i as int),
        decreases t@.len() - i,
    {
        let c = t[i];
        let a = alnum(c);
        if !a && c != 40u8 && c != 41u8 {
            return false;
        }
        if a && !seen {
            seen = true;
        }
        proof {
            lemma_first_alnum_bounds(t@, 0);
        }
        i = i + 1;
    }
    seen
}

fn check_word_token(t: &Vec<u8>) -> (r: bool)
    ensures
        r <==> is_word_token(t@),
{
    if t.len() == 0 {
        return false;
    }
    let mut i: usize = 0;
    while i < t.len()
        invariant
            0 <= i <= t@.len(),
            forall|j: int| 0 <= j < i ==> is_alnum(#[trigger] t@[j]),
        decreases t@.len() - i,
    {
        let c = t[i];
        if !alnum(c) {
            return false;
        }
        i = i + 1;
    }
    true
}

/// Some(true) for `approve`, Some(false) for `reject`, None otherwise.
fn check_decision(t: &Vec<u8>) -> (r: Option<bool>)
    ensures
        r.is_some() <==> is_decision(t@),
        r == Some(true) <==> t@ == approve_word(),
{
    let a: Vec<u8> = vec![97u8, 112u8, 112u8, 114u8, 111u8, 118u8, 101u8];
    let j: Vec<u8> = vec![114u8, 101u8, 106u8, 101u8, 99u8, 116u8];
    assert(a@ =~= approve_word());
    assert(j@ =~= reject_word());
    if crate::text::bytes_eq(t, &a) {
        Some(true)
    } else if crate::text::bytes_eq(t, &j) {
        Some(false)
    } else {
        None
    }
}

/// Data of a transfer of balance.
#[derive(Debug)]
pub struct Transfer {
    pub id: u32,
    pub sender: Party,
    pub receiver: Party,
    pub receiver_approves: bool,
    pub mediator: Party,
    pub mediator_approves: bool,
    pub amount: u32,
    pub ticker: String,
}

/// Data of the creation of an empty account.
#[derive(Debug)]
pub struct Create {
    pub id: u32,
    pub seed: String,
    pub chain_db_dir: String,
    pub account_id: u32,
    pub owner: Party,
    pub ticker: String,
}

/// Data of the funding of an account by its issuer.
#[derive(Debug)]
pub struct Issue {
    pub id: u32,
    pub owner: Party,
    pub mediator: Party,
    pub mediator_approves: bool,
    pub ticker: String,
    pub amount: u32,
}

impl Transfer {
    /// Reads a line such as `Bob(cheat) 40 ACME Carol approve Marry reject`.
    pub fn parse(id: u32, segment: &str) -> (r: Result<Transfer, HarnessError>)
        ensures
            r.is_ok() <==> is_transfer_line(segment.spec_bytes()),
            r.is_err() ==> r == Err::<Transfer, HarnessError>(HarnessError::RegexError),
            r.is_ok() ==> ({
                let x = r.unwrap();
                let t = split_spaces(segment.spec_bytes());
                &&& x.id == id
                &&& party_matches(x.sender, t[0])
                &&& x.amount as nat == decimal_value(t[1])
                &&& x.ticker@ == ascii_chars(t[2])
                &&& party_matches(x.receiver, t[3])
                &&& x.receiver_approves == (t[4] == approve_word())
                &&& party_matches(x.mediator, t[5])
                &&& x.mediator_approves == (t[6] == approve_word())
            }),
    {
        let bytes = str_bytes(segment);
        let t = split_on_spaces(&bytes);
        if t.len() != 7 {
            return Err(HarnessError::RegexError);
        }
        if !check_party_token(&t[0]) || !check_word_token(&t[2]) || !check_party_token(&t[3])
            || !check_party_token(&t[5]) {
            return Err(HarnessError::RegexError);
        }
        let amount = match parse_u32(&t[1]) {
            Some(a) => a,
            None => return Err(HarnessError::RegexError),
        };
        let ra = match check_decision(&t[4]) {
            Some(d) => d,
            None => return Err(HarnessError::RegexError),
        };
        let ma = match check_decision(&t[6]) {
            Some(d) => d,
            None => return Err(HarnessError::RegexError),
        };
        let ticker = t[2].clone();
        assert(ticker@ == t@[2]@);
        Ok(Transfer {
            id,
            sender: Party::from_bytes(&t[0]),
            receiver: Party::from_bytes(&t[3]),
            receiver_approves: ra,
            mediator: Party::from_bytes(&t[5]),
            mediator_approves: ma,
            amount,
            ticker: ascii_to_string(ticker),
        })
    }
}

impl Issue {
    /// Reads a line such as `Alice 40 ACME Carol approve`.
    pub fn parse(id: u32, segment: &str) -> (r: Result<Issue, HarnessError>)
        ensures
            r.is_ok() <==> is_issue_line(segment.spec_bytes()),
            r.is_err() ==> r == Err::<Issue, HarnessError>(HarnessError::RegexError),
            r.is_ok() ==> ({
                let x = r.unwrap();
                let t = split_spaces(segment.spec_bytes());
                &&& x.id == id
                &&& party_matches(x.owner, t[0])
                &&& x.amount as nat == decimal_value(t[1])
                &&& x.ticker@ == ascii_chars(t[2])
                &&& party_matches(x.mediator, t[3])
                &&& x.mediator_approves == (t[4] == approve_word())
            }),
    {
        let bytes = str_bytes(segment);
        let t = split_on_spaces(&bytes);
        if t.len() != 5 {
            return Err(HarnessError::RegexError);
        }
        if !check_party_token(&t[0]) || !check_word_token(&t[2]) || !check_party_token(&t[3]) {
            return Err(HarnessError::RegexError);
        }
        let amount = match parse_u32(&t[1]) {
            Some(a) => a,
            None => return Err(HarnessError::RegexError),
        };
        let ma = match check_decision(&t[4]) {
            Some(d) => d,
            None => return Err(HarnessError::RegexError),
        };
        let ticker = t[2].clone();
        assert(ticker@ == t@[2]@);
        Ok(Issue {
            id,
            owner: Party::from_bytes(&t[0]),
            mediator: Party::from_bytes(&t[3]),
            mediator_approves: ma,
            ticker: ascii_to_string(ticker),
            amount,
        })
    }
}

// ------------------------------------------------------------------------------------------
// Steps
// ------------------------------------------------------------------------------------------

/// What running a step does besides reporting its command.
#[derive(Debug)]
pub enum StepAction {
    /// Nothing: the step is only reported.
    Report,
    /// Creates an account in the chain directory.
    CreateAccount { seed: String, chain_db_dir: String, ticker: String, account_id: u32, owner: String },
}

/// One step of a transaction: the command line that reproduces it, and its action.
#[derive(Debug)]
pub struct Step {
    pub command: String,
    pub action: StepAction,
}

/// The command of a reporting step: a fixed text followed by a transaction id.
pub open spec fn id_command(prefix: Seq<char>, id: u32) -> Seq<char> {
    prefix + ascii_chars(decimal(id as nat))
}

/// The digits of `v` as a string.
fn decimal_string(v: u32) -> (r: String)
    ensures
        r@ == ascii_chars(decimal(v as nat)),
{
    ascii_to_string(decimal_bytes(v))
}

fn report(prefix: &str, id: u32) -> (r: Step)
    ensures
        r.command@ == id_command(prefix@, id),
        r.action is Report,
{
    let mut c = String::from_str(prefix);
    let d = decimal_string(id);
    c.append(d.as_str());
    Step { command: c, action: StepAction::Report }
}

/// `--cheater` for a cheating party, and the empty string otherwise.
pub fn cheater_flag(is_cheater: bool) -> (r: String)
    ensures
        r@ == (if is_cheater { "--cheater"@ } else { ""@ }),
{
    if is_cheater {
        String::from_str("--cheater")
    } else {
        String::from_str("")
    }
}

/// The command that reproduces an account creation.
pub open spec fn create_command(c: Create) -> Seq<char> {
    "mercat-account create --account-id "@ + ascii_chars(decimal(c.account_id as nat))
        + " --ticker "@ + c.ticker@ + " --user "@ + c.owner.name@ + " "@ + (if c.owner.cheater {
        "--cheater"@
    } else {
        ""@
    })
}

impl Transfer {
    pub fn send(&self) -> (r: Step)
        ensures
            r.command@ == id_command("todo-send-transaction "@, self.id),
            r.action is Report,
    {
        report("todo-send-transaction ", self.id)
    }

    pub fn receive(&self) -> (r: Step)
        ensures
            r.command@ == id_command("todo-receive-transaction "@, self.id),
            r.action is Report,
    {
        report("todo-receive-transaction ", self.id)
    }

    pub fn mediate(&self) -> (r: Step)
        ensures
            r.command@ == id_command("todo-mediate-transaction "@, self.id),
            r.action is Report,
    {
        report("todo-mediate-transaction ", self.id)
    }

    pub fn validate(&self) -> (r: Step)
        ensures
            r.command@ == id_command("todo-validate-transaction "@, self.id),
            r.action is Report,
    {
        report("todo-validate-transaction ", self.id)
    }

    /// Send, receive, mediate, validate.
    pub fn order(&self) -> (r: Vec<Step>)
        ensures
            r@.len() == 4,
            r@[0].command@ == id_command("todo-send-transaction "@, self.id),
            r@[1].command@ == id_command("todo-receive-transaction "@, self.id),
            r@[2].command@ == id_command("todo-mediate-transaction "@, self.id),
            r@[3].command@ == id_command("todo-validate-transaction "@, self.id),
            forall|i: int| 0 <= i < 4 ==> r@[i].action is Report,
    {
        vec![self.send(), self.receive(), self.mediate(), self.validate()]
    }
}

/// The action creates the account that `c` describes.
pub open spec fn creates(a: StepAction, c: Create) -> bool {
    match a {
        StepAction::CreateAccount { seed, chain_db_dir, ticker, account_id, owner } => {
            &&& seed@ == c.seed@
            &&& chain_db_dir@ == c.chain_db_dir@
            &&& ticker@ == c.ticker@
            &&& account_id == c.account_id
            &&& owner@ == c.owner.name@
        },
        StepAction::Report => false,
    }
}

impl Create {
    /// The step that creates the account.
    pub fn create_account(&self) -> (r: Step)
        ensures
            r.command@ == create_command(*self),
            creates(r.action, *self),
    {
        let mut c = String::from_str("mercat-account create --account-id ");
        let d = decimal_string(self.account_id);
        c.append(d.as_str());
        c.append(" --ticker ");
        c.append(self.ticker.as_str());
        c.append(" --user ");
        c.append(self.owner.name.as_str());
        c.append(" ");
        let f = cheater_flag(self.owner.cheater);
        c.append(f.as_str());
        Step {
            command: c,
            action: StepAction::CreateAccount {
                seed: self.seed.clone(),
                chain_db_dir: self.chain_db_dir.clone(),
                ticker: self.ticker.clone(),
                account_id: self.account_id,
                owner: self.owner.name.clone(),
            },
        }
    }

    pub fn validate(&self) -> (r: Step)
        ensures
            r.command@ == id_command("todo-validate-account --account-id="@, self.account_id),
            r.action is Report,
    {
        report("todo-validate-account --account-id=", self.account_id)
    }

    /// Create, then validate.
    pub fn order(&self) -> (r: Vec<Step>)
        ensures
            r@.len() == 2,
            r@[0].command@ == create_command(*self),
            creates(r@[0].action, *self),
            r@[1].command@ == id_command("todo-validate-account --account-id="@, self.account_id),
            r@[1].action is Report,
    {
        vec![self.create_account(), self.validate()]
    }
}

impl Issue {
    pub fn issue(&self) -> (r: Step)
        ensures
            r.command@ == id_command("todo-issue-transaction "@, self.id),
            r.action is Report,
    {
        report("todo-issue-transaction ", self.id)
    }

    pub fn mediate(&self) -> (r: Step)
        ensures
            r.command@ == id_command("todo-mediate-issue-transaction "@, self.id),
            r.action is Report,
    {
        report("todo-mediate-issue-transaction ", self.id)
    }

    pub fn validate(&self) -> (r: Step)
        ensures
            r.command@ == id_command("todo-validate-issue-transaction "@, self.id),
            r.action is Report,
    {
        report("todo-validate-issue-transaction ", self.id)
    }

    /// Issue, mediate, validate.
    pub fn order(&self) -> (r: Vec<Step>)
        ensures
            r@.len() == 3,
            r@[0].command@ == id_command("todo-issue-transaction "@, self.id),
            r@[1].command@ == id_command("todo-mediate-issue-transaction "@, self.id),
            r@[2].command@ == id_command("todo-validate-issue-transaction "@, self.id),
            forall|i: int| 0 <= i < 3 ==> r@[i].action is Report,
    {
        vec![self.issue(), self.mediate(), self.validate()]
    }
}

// ------------------------------------------------------------------------------------------
// Transactions and their combinations
// ------------------------------------------------------------------------------------------

/// The three kinds of transactions.
#[derive(Debug)]
pub enum Transaction {
    /// Transfer a balance from one party to another, with a mediator.
    Transfer(Transfer),
    /// Create an account with a zero balance.
    Create(Create),
    /// Issue tokens for an account.
    Issue(Issue),
}

/// The commands of the steps of a transaction, in order.
pub open spec fn transaction_commands(t: Transaction) -> Seq<Seq<char>> {
    match t {
        Transaction::Transfer(x) => seq![
            id_command("todo-send-transaction "@, x.id),
            id_command("todo-receive-transaction "@, x.id),
            id_command("todo-mediate-transaction "@, x.id),
            id_command("todo-validate-transaction "@, x.id),
        ],
        Transaction::Create(c) => seq![
            create_command(c),
            id_command("todo-validate-account --account-id="@, c.account_id),
        ],
        Transaction::Issue(x) => seq![
            id_command("todo-issue-transaction "@, x.id),
            id_command("todo-mediate-issue-transaction "@, x.id),
            id_command("todo-validate-issue-transaction "@, x.id),
        ],
    }
}

/// The commands of a sequence of steps.
pub open spec fn commands_of(s: Seq<Step>) -> Seq<Seq<char>> {
    Seq::new(s.len(), |i: int| s[i].command@)
}

impl Transaction {
    /// The steps of this transaction, in order.
    pub fn order(&self) -> (r: Vec<Step>)
        ensures
            commands_of(r@) == transaction_commands(*self),
    {
        let r = match self {
            Transaction::Issue(fund) => fund.order(),
            Transaction::Transfer(transfer) => transfer.order(),
            Transaction::Create(create) => create.order(),
        };
        assert(commands_of(r@) =~= transaction_commands(*self));
        r
    }
}

/// The ways in which transactions combine.
#[derive(Debug)]
pub enum TransactionMode {
    /// `repeat` rounds; in each, the steps of one transaction all come before those of the next.
    Sequence { repeat: u32, steps: Vec<TransactionMode> },
    /// `repeat` rounds; in each, the steps of the transactions are interleaved at random.
    Concurrent { repeat: u32, steps: Vec<TransactionMode> },
    Transaction(Transaction),
}

/// The commands of `k` rounds over the modes `ms`, each round taking the modes in order.
pub open spec fn rounds_commands(ms: Seq<TransactionMode>, k: nat) -> Seq<Seq<char>>
    decreases ms, 1nat, k,
{
    if k == 0 {
        Seq::empty()
    } else {
        rounds_commands(ms, (k - 1) as nat) + modes_commands(ms, ms.len() as nat)
    }
}

/// The commands of the first `n` modes of `ms`, one after the other.
pub open spec fn modes_commands(ms: Seq<TransactionMode>, n: nat) -> Seq<Seq<char>>
    decreases ms, 0nat, n,
{
    if n == 0 || n > ms.len() {
        Seq::empty()
    } else {
        modes_commands(ms, (n - 1) as nat) + mode_commands(ms[n - 1])
    }
}

/// The commands of a combination of transactions, taken in order: for a sequence this is
/// the order in which its steps run; a concurrent combination runs the same steps in an
/// interleaved order.
pub open spec fn mode_commands(m: TransactionMode) -> Seq<Seq<char>>
    decreases m, 2nat, 0nat,
{
    match m {
        TransactionMode::Transaction(t) => transaction_commands(t),
        TransactionMode::Sequence { repeat, steps } => rounds_commands(steps@, repeat as nat),
        TransactionMode::Concurrent { repeat, steps } => rounds_commands(steps@, repeat as nat),
    }
}

/// The combination holds no concurrent part.
pub open spec fn is_sequential(m: TransactionMode) -> bool
    decreases m,
{
    match m {
        TransactionMode::Transaction(_) => true,
        TransactionMode::Sequence { repeat, steps } => forall|i: int|
            0 <= i < steps@.len() ==> is_sequential(#[trigger] steps@[i]),
        TransactionMode::Concurrent { .. } => false,
    }
}

/// Relies on rand's `Rng::gen_range` for `StdRng`: a value in `0..n`, which it needs `n > 0`
/// to give.
#[verifier::external_body]
fn random_index(rng: &mut rand::rngs::StdRng, n: usize) -> (r: usize)
    requires
        n > 0,
    ensures
        r < n,
{
    rand::Rng::gen_range(rng, 0..n)
}

/// The number of steps in a list of step sequences.
pub open spec fn total_len(s: Seq<Vec<Step>>) -> nat
    decreases s.len(),
{
    if s.len() == 0 {
        0
    } else {
        total_len(s.drop_last()) + s.last()@.len()
    }
}

proof fn lemma_total_len_concat(a: Seq<Vec<Step>>, b: Seq<Vec<Step>>)
    ensures
        total_len(a + b) == total_len(a) + total_len(b),
    decreases b.len(),
{
    if b.len() == 0 {
        assert(a + b =~= a);
    } else {
        lemma_total_len_concat(a, b.drop_last());
        assert((a + b).drop_last() =~= a + b.drop_last());
    }
}

proof fn lemma_total_len_split(s: Seq<Vec<Step>>, k: int)
    requires
        0 <= k < s.len(),
    ensures
        total_len(s) == total_len(s.subrange(0, k)) + s[k]@.len() + total_len(
            s.subrange(k + 1, s.len() as int),
        ),
{
    let a = s.subrange(0, k);
    let b = s.subrange(k + 1, s.len() as int);
    assert(s =~= a + seq![s[k]] + b);
    lemma_total_len_concat(a + seq![s[k]], b);
    lemma_total_len_concat(a, seq![s[k]]);
    assert(seq![s[k]].drop_last() =~= Seq::<Vec<Step>>::empty());
    reveal_with_fuel(total_len, 2);
    assert(total_len(seq![s[k]]) == s[k]@.len());
}

/// The commands of a list of step sequences, counted with multiplicity.
pub open spec fn all_commands(s: Seq<Vec<Step>>) -> Multiset<Seq<char>>
    decreases s.len(),
{
    if s.len() == 0 {
        Multiset::empty()
    } else {
        all_commands(s.drop_last()).add(commands_of(s.last()@).to_multiset())
    }
}

proof fn lemma_all_commands_concat(a: Seq<Vec<Step>>, b: Seq<Vec<Step>>)
    ensures
        all_commands(a + b) == all_commands(a).add(all_commands(b)),
    decreases b.len(),
{
    if b.len() == 0 {
        assert(a + b =~= a);
        assert(all_commands(a).add(Multiset::empty()) =~= all_commands(a));
    } else {
        lemma_all_commands_concat(a, b.drop_last());
        assert((a + b).drop_last() =~= a + b.drop_last());
        assert(all_commands(a + b) =~= all_commands(a).add(all_commands(b)));
    }
}

proof fn lemma_all_commands_single(x: Vec<Step>)
    ensures
        all_commands(seq![x]) == commands_of(x@).to_multiset(),
{
    assert(seq![x].drop_last() =~= Seq::<Vec<Step>>::empty());
    reveal_with_fuel(all_commands, 2);
    assert(Multiset::<Seq<char>>::empty().add(commands_of(x@).to_multiset()) =~= commands_of(x@).to_multiset());
}

/// The commands of two step sequences one after the other.
proof fn lemma_commands_concat(a: Seq<Step>, b: Seq<Step>)
    ensures
        commands_of(a + b) == commands_of(a) + commands_of(b),
        commands_of(a + b).to_multiset() == commands_of(a).to_multiset().add(commands_of(b).to_multiset()),
{
    assert(commands_of(a + b) =~= commands_of(a) + commands_of(b));
    vstd::seq_lib::lemma_multiset_commutative(commands_of(a), commands_of(b));
}

/// Takes steps off the fronts of the sequences, picking a sequence at random each time,
/// until none is left; the order within each sequence is kept.
fn interleave(seqs: Vec<Vec<Step>>, rng: &mut rand::rngs::StdRng) -> (r: Vec<Step>)
    ensures
        commands_of(r@).to_multiset() == all_commands(seqs@),
{
    let ghost total = total_len(seqs@);
    let ghost all0 = all_commands(seqs@);
    let mut seqs = seqs;
    let mut out: Vec<Step> = Vec::new();
    assert(commands_of(out@).to_multiset() =~= Multiset::empty());
    assert(Multiset::<Seq<char>>::empty().add(all0) =~= all0);
    while seqs.len() != 0
        invariant
            total_len(seqs@) + out@.len() == total,
            commands_of(out@).to_multiset().add(all_commands(seqs@)) == all0,
        decreases total_len(seqs@) + seqs@.len(),
    {
        let next = random_index(rng, seqs.len());
        let ghost before = seqs@;
        let ghost a = before.subrange(0, next as int);
        let ghost b = before.subrange(next + 1, before.len() as int);
        proof {
            lemma_total_len_split(before, next as int);
            lemma_total_len_concat(a, b);
            assert(before =~= a + seq![before[next as int]] + b);
            lemma_all_commands_concat(a + seq![before[next as int]], b);
            lemma_all_commands_concat(a, seq![before[next as int]]);
            lemma_all_commands_single(before[next as int]);
            lemma_all_commands_concat(a, b);
        }
        let ghost out0 = out@;
        let mut s = seqs.remove(next);
        assert(seqs@ =~= a + b);
        assert(s@.len() == before[next as int]@.len());
        if s.len() == 0 {
            assert(total_len(seqs@) == total_len(before));
            assert(commands_of(s@).to_multiset() =~= Multiset::empty());
            assert(all_commands(before) =~= all_commands(seqs@));
            continue;
        }
        let ghost s0 = s@;
        let x = s.remove(0);
        let ghost s2 = s;
        proof {
            assert(s0 =~= seq![x] + s2@);
            lemma_commands_concat(seq![x], s2@);
            assert(commands_of(seq![x]) =~= seq![x.command@]);
            assert(seq![x.command@].to_multiset() =~= Multiset::<Seq<char>>::empty().insert(x.command@)) by {
                assert(seq![x.command@] =~= Seq::<Seq<char>>::empty().push(x.command@));
                vstd::seq_lib::to_multiset_build(Seq::<Seq<char>>::empty(), x.command@);
                assert(Seq::<Seq<char>>::empty().to_multiset() =~= Multiset::empty());
            }
        }
        seqs.insert(next, s);
        proof {
            assert(seqs@ =~= a + seq![s2] + b);
            lemma_total_len_concat(a + seq![s2], b);
            lemma_total_len_concat(a, seq![s2]);
            assert(seq![s2].drop_last() =~= Seq::<Vec<Step>>::empty());
            reveal_with_fuel(total_len, 2);
            assert(total_len(seq![s2]) == s2@.len());
            assert(total_len(seqs@) + 1 == total_len(before));
            lemma_all_commands_concat(a + seq![s2], b);
            lemma_all_commands_concat(a, seq![s2]);
            lemma_all_commands_single(s2);
        }
        out.push(x);
        proof {
            assert(out@ =~= out0 + seq![x]);
            lemma_commands_concat(out0, seq![x]);
            assert(commands_of(out@).to_multiset().add(all_commands(seqs@)) =~= all0);
        }
    }
    assert(all_commands(seqs@) =~= Multiset::empty());
    assert(commands_of(out@).to_multiset().add(Multiset::empty()) =~= commands_of(out@).to_multiset());
    out
}

impl TransactionMode {
    /// The steps of this combination, in the order in which they run. A concurrent part
    /// interleaves its steps with draws from `rng`; whatever it draws, the same commands run,
    /// each as often as the transactions declare.
    pub fn sequence(&self, rng: &mut rand::rngs::StdRng) -> (r: Vec<Step>)
        ensures
            commands_of(r@).to_multiset() == mode_commands(*self).to_multiset(),
            r@.len() == mode_commands(*self).len(),
            is_sequential(*self) ==> commands_of(r@) == mode_commands(*self),
        decreases self,
    {
        match self {
            TransactionMode::Transaction(transaction) => transaction.order(),
            TransactionMode::Sequence { repeat, steps } => {
                let mut seq: Vec<Step> = Vec::new();
                let mut k: u32 = 0;
                assert(commands_of(seq@) =~= rounds_commands(steps@, 0));
                while k < *repeat
                    invariant
                        k <= *repeat,
                        *self is Sequence && self->Sequence_steps == *steps,
                        seq@.len() == rounds_commands(steps@, k as nat).len(),
                        commands_of(seq@).to_multiset() == rounds_commands(steps@, k as nat).to_multiset(),
                        is_sequential(*self) ==> commands_of(seq@) == rounds_commands(
                            steps@,
                            k as nat,
                        ),
                    decreases *repeat - k,
                {
                    let mut i: usize = 0;
                    let ghost base = seq@;
                    assert(commands_of(base).to_multiset().add(modes_commands(steps@, 0).to_multiset()) =~= commands_of(base).to_multiset());
                    while i < steps.len()
                        invariant
                            i <= steps@.len(),
                            *self is Sequence && self->Sequence_steps == *steps,
                            seq@.len() == base.len() + modes_commands(steps@, i as nat).len(),
                            commands_of(seq@).to_multiset() == commands_of(base).to_multiset().add(
                                modes_commands(steps@, i as nat).to_multiset(),
                            ),
                            is_sequential(*self) ==> commands_of(seq@) == commands_of(base)
                                + modes_commands(steps@, i as nat),
                        decreases steps@.len() - i,
                    {
                        proof {
                            assert(decreases_to!(*steps => steps@));
                            assert(decreases_to!(steps@ => steps@[i as int]));
                            assert(decreases_to!(*self => steps@[i as int]));
                        }
                        let part = steps[i].sequence(rng);
                        let ghost prev = seq@;
                        let ghost part_v = part@;
                        let mut part = part;
                        seq.append(&mut part);
                        proof {
                            assert(seq@ =~= prev + part_v);
                            lemma_commands_concat(prev, part_v);
                            if is_sequential(*self) {
                                assert(is_sequential(steps@[i as int]));
                            }
                            vstd::seq_lib::lemma_multiset_commutative(
                                modes_commands(steps@, i as nat),
                                mode_commands(steps@[i as int]),
                            );
                        }
                        i = i + 1;
                        proof {
                            assert(modes_commands(steps@, i as nat) == modes_commands(
                                steps@,
                                (i - 1) as nat,
                            ) + mode_commands(steps@[i - 1]));
                            assert(commands_of(seq@).to_multiset() =~= commands_of(base).to_multiset().add(
                                modes_commands(steps@, i as nat).to_multiset()));
                        }
                    }
                    k = k + 1;
                    proof {
                        vstd::seq_lib::lemma_multiset_commutative(
                            rounds_commands(steps@, (k - 1) as nat),
                            modes_commands(steps@, steps@.len() as nat),
                        );
                    }
                }
                seq
            },
            TransactionMode::Concurrent { repeat, steps } => {
                let mut seqs: Vec<Vec<Step>> = Vec::new();
                let mut k: u32 = 0;
                assert(rounds_commands(steps@, 0).to_multiset() =~= Multiset::empty());
                while k < *repeat
                    invariant
                        k <= *repeat,
                        *self is Concurrent && self->Concurrent_steps == *steps,
                        all_commands(seqs@) == rounds_commands(steps@, k as nat).to_multiset(),
                    decreases *repeat - k,
                {
                    let mut i: usize = 0;
                    let ghost base = all_commands(seqs@);
                    assert(base.add(modes_commands(steps@, 0).to_multiset()) =~= base);
                    while i < steps.len()
                        invariant
                            i <= steps@.len(),
                            *self is Concurrent && self->Concurrent_steps == *steps,
                            all_commands(seqs@) == base.add(modes_commands(steps@, i as nat).to_multiset()),
                        decreases steps@.len() - i,
                    {
                        proof {
                            assert(decreases_to!(*steps => steps@));
                            assert(decreases_to!(steps@ => steps@[i as int]));
                            assert(decreases_to!(*self => steps@[i as int]));
                        }
                        let part = steps[i].sequence(rng);
                        let ghost prev = seqs@;
                        seqs.push(part);
                        proof {
                            assert(seqs@.drop_last() =~= prev);
                            vstd::seq_lib::lemma_multiset_commutative(
                                modes_commands(steps@, i as nat),
                                mode_commands(steps@[i as int]),
                            );
                        }
                        i = i + 1;
                        proof {
                            assert(modes_commands(steps@, i as nat) == modes_commands(
                                steps@,
                                (i - 1) as nat,
                            ) + mode_commands(steps@[i - 1]));
                            assert(all_commands(seqs@) =~= base.add(modes_commands(steps@, i as nat).to_multiset()));
                        }
                    }
                    k = k + 1;
                    proof {
                        vstd::seq_lib::lemma_multiset_commutative(
                            rounds_commands(steps@, (k - 1) as nat),
                            modes_commands(steps@, steps@.len() as nat),
                        );
                    }
                }
                let r = interleave(seqs, rng);
                proof {
                    vstd::seq_lib::to_multiset_len(commands_of(r@));
                    vstd::seq_lib::to_multiset_len(mode_commands(*self));
                }
                r
            },
        }
    }
}

// ------------------------------------------------------------------------------------------
// Accounts and test cases
// ------------------------------------------------------------------------------------------

/// The human-readable form of an account: owner, ticker and balance.
#[derive(Debug)]
pub struct Account {
    pub owner: String,
    pub ticker: String,
    pub balance: u32,
}

/// What identifies an account's content.
pub open spec fn account_key(a: Account) -> (Seq<char>, Seq<char>, u32) {
    (a.owner@, a.ticker@, a.balance)
}

/// The set of account contents in a list, duplicates counting once.
pub open spec fn account_set(v: Seq<Account>) -> Set<(Seq<char>, Seq<char>, u32)> {
    Set::new(|k: (Seq<char>, Seq<char>, u32)| exists|i: int| 0 <= i < v.len() && account_key(#[trigger] v[i]) == k)
}

impl Account {
    /// Whether two accounts hold the same owner, ticker and balance.
    pub fn same_as(&self, o: &Account) -> (r: bool)
        ensures
            r <==> account_key(*self) == account_key(*o),
    {
        self.balance == o.balance && self.owner == o.owner && self.ticker == o.ticker
    }
}

/// Whether every account of `a` also stands in `b`.
fn all_contained(a: &Vec<Account>, b: &Vec<Account>) -> (r: bool)
    ensures
        r <==> account_set(a@).subset_of(account_set(b@)),
{
    let mut i: usize = 0;
    while i < a.len()
        invariant
            i <= a@.len(),
            forall|x: int| 0 <= x < i ==> account_set(b@).contains(account_key(#[trigger] a@[x])),
        decreases a@.len() - i,
    {
        let mut j: usize = 0;
        let mut found = false;
        while j < b.len() && !found
            invariant
                j <= b@.len(),
                i < a@.len(),
                found ==> account_set(b@).contains(account_key(a@[i as int])),
                !found ==> forall|y: int| 0 <= y < j ==> account_key(#[trigger] b@[y]) != account_key(a@[i as int]),
            decreases b@.len() - j,
        {
            if a[i].same_as(&b[j]) {
                found = true;
                assert(account_set(b@).contains(account_key(a@[i as int]))) by {
                    assert(account_key(b@[j as int]) == account_key(a@[i as int]));
                }
            }
            j = j + 1;
        }
        if !found {
            assert(!account_set(b@).contains(account_key(a@[i as int])));
            assert(account_set(a@).contains(account_key(a@[i as int])));
            return false;
        }
        i = i + 1;
    }
    assert forall|k| account_set(a@).contains(k) implies account_set(b@).contains(k) by {
        let x = choose|x: int| 0 <= x < a@.len() && account_key(#[trigger] a@[x]) == k;
        assert(account_set(b@).contains(account_key(a@[x])));
    }
    true
}

/// Whether the two lists hold the same accounts, as sets.
pub fn accounts_are_equal(want: &Vec<Account>, got: &Vec<Account>) -> (r: bool)
    ensures
        r <==> account_set(want@) == account_set(got@),
{
    let r = all_contained(want, got) && all_contained(got, want);
    proof {
        if account_set(want@) == account_set(got@) {
            assert(account_set(want@).subset_of(account_set(got@)));
            assert(account_set(got@).subset_of(account_set(want@)));
        }
        if r {
            assert(account_set(want@) =~= account_set(got@));
        }
    }
    r
}

/// A test case: the tickers, the transactions, the accounts expected at the end, and the
/// time allowed, in milliseconds.
pub struct TestCase {
    pub title: String,
    pub ticker_names: Vec<String>,
    pub transactions: TransactionMode,
    pub accounts_outcome: Vec<Account>,
    pub timing_limit: u128,
    pub chain_db_dir: String,
}

impl TestCase {
    /// The steps of the test case, in the order in which they run.
    pub fn steps(&self, rng: &mut rand::rngs::StdRng) -> (r: Vec<Step>)
        ensures
            commands_of(r@).to_multiset() == mode_commands(self.transactions).to_multiset(),
            r@.len() == mode_commands(self.transactions).len(),
            is_sequential(self.transactions) ==> commands_of(r@) == mode_commands(self.transactions),
    {
        self.transactions.sequence(rng)
    }

    /// Whether a run that took `elapsed_ms` milliseconds kept to the time limit.
    pub fn check_time_limit(&self, elapsed_ms: u128) -> (r: Result<(), HarnessError>)
        ensures
            r.is_ok() <==> elapsed_ms <= self.timing_limit,
            r.is_err() ==> r == Err::<(), HarnessError>(HarnessError::TimeLimitExceeded),
    {
        if elapsed_ms > self.timing_limit {
            Err(HarnessError::TimeLimitExceeded)
        } else {
            Ok(())
        }
    }
}

} // verus!
