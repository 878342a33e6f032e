//! Ledger requests: recognising them, extracting the action and its amount,
//! and rendering the ledger's answers.

use vstd::prelude::*;
use crate::amount::{is_amount, is_amount_text, is_number, number_start, number_syntax, starts_number};
use crate::text::{has_at, lit_at, same_text, word_at, word_end, word_end_at};

verus! {

#[derive(Clone, Copy, Debug, PartialEq, Eq, Structural)]
pub enum Category {
    Dining,
    Travel,
    Merchandise,
    Entertainment,
    Grocery,
    Other,
}

/// The category whose lowercase name occurs in `s` at position `i`, if any.
pub open spec fn category_at(s: Seq<char>, i: int) -> Option<Category> {
    if lit_at(s, i, "dining"@) {
        Some(Category::Dining)
    } else if lit_at(s, i, "travel"@) {
        Some(Category::Travel)
    } else if lit_at(s, i, "merchandise"@) {
        Some(Category::Merchandise)
    } else if lit_at(s, i, "entertainment"@) {
        Some(Category::Entertainment)
    } else if lit_at(s, i, "grocery"@) {
        Some(Category::Grocery)
    } else if lit_at(s, i, "other"@) {
        Some(Category::Other)
    } else {
        None
    }
}

/// The category a name stands for: its lowercase or capitalised spelling,
/// anything else being `Other`.
pub open spec fn category_named(s: Seq<char>) -> Category {
    if s == "Dining"@ || s == "dining"@ {
        Category::Dining
    } else if s == "Travel"@ || s == "travel"@ {
        Category::Travel
    } else if s == "Merchandise"@ || s == "merchandise"@ {
        Category::Merchandise
    } else if s == "Entertainment"@ || s == "entertainment"@ {
        Category::Entertainment
    } else if s == "Grocery"@ || s == "grocery"@ {
        Category::Grocery
    } else {
        Category::Other
    }
}

pub open spec fn category_label(c: Category) -> Seq<char> {
    match c {
        Category::Dining => "Dining"@,
        Category::Travel => "Travel"@,
        Category::Merchandise => "Merchandise"@,
        Category::Entertainment => "Entertainment"@,
        Category::Grocery => "Grocery"@,
        Category::Other => "Other"@,
    }
}

impl Category {
    /// The capitalised name of the category.
    pub fn name(&self) -> (r: &'static str)
        ensures
            r@ == category_label(*self),
    {
        match self {
            Category::Dining => "Dining",
            Category::Travel => "Travel",
            Category::Merchandise => "Merchandise",
            Category::Entertainment => "Entertainment",
            Category::Grocery => "Grocery",
            Category::Other => "Other",
        }
    }

    /// The category that a name stands for.
    pub fn from_name(s: &str) -> (r: Category)
        ensures
            r == category_named(s@),
    {
        if same_text(s, "Dining") || same_text(s, "dining") {
            Category::Dining
        } else if same_text(s, "Travel") || same_text(s, "travel") {
            Category::Travel
        } else if same_text(s, "Merchandise") || same_text(s, "merchandise") {
            Category::Merchandise
        } else if same_text(s, "Entertainment") || same_text(s, "entertainment") {
            Category::Entertainment
        } else if same_text(s, "Grocery") || same_text(s, "grocery") {
            Category::Grocery
        } else {
            Category::Other
        }
    }
}

/// The first word: the text up to its first blank.
pub open spec fn first_word(s: Seq<char>) -> Seq<char> {
    word_at(s, 0)
}

pub open spec fn is_spent_verb(s: Seq<char>) -> bool {
    first_word(s) == "spent"@ || first_word(s) == "Spent"@
}

pub open spec fn is_budget_verb(s: Seq<char>) -> bool {
    first_word(s) == "budget"@ || first_word(s) == "Budget"@
}

/// A blank follows the first word, so there is a second word, maybe empty.
pub open spec fn two_words(s: Seq<char>) -> bool {
    word_end(s, 0) < s.len()
}

/// Where the second word, the action or the amount, starts.
pub open spec fn action_start(s: Seq<char>) -> int {
    word_end(s, 0) + 1
}

/// The second word: the action or the amount.
pub open spec fn action_word(s: Seq<char>) -> Seq<char> {
    word_at(s, action_start(s))
}

/// A ledger verb followed by a blank: the start of every ledger request.
pub open spec fn verb_then_blank(s: Seq<char>) -> bool {
    (is_spent_verb(s) || is_budget_verb(s)) && two_words(s)
}

/// The text starts with `(spent|Spent|budget|Budget) (total|reset|<number>)`,
/// where a number starts with a digit, after an optional `+` and point.
pub open spec fn spent_shape(s: Seq<char>) -> bool {
    &&& verb_then_blank(s)
    &&& {
        let i = action_start(s);
        lit_at(s, i, "total"@) || lit_at(s, i, "reset"@) || number_start(s, i)
    }
}

/// The text starts with a ledger verb, a whole action word (`total`, `reset`
/// or a number), a blank and a category name.
pub open spec fn spent_category_shape(s: Seq<char>) -> bool {
    &&& verb_then_blank(s)
    &&& {
        let a = action_word(s);
        a == "total"@ || a == "reset"@ || number_syntax(a)
    }
    &&& word_end(s, action_start(s)) < s.len()
    &&& category_at(s, word_end(s, action_start(s)) + 1) is Some
}

/// The category named after the action word of a categorised request.
pub open spec fn spent_category(s: Seq<char>) -> Category {
    category_at(s, word_end(s, action_start(s)) + 1)->0
}

/// What a ledger request asks for.
pub enum ActionModel {
    Total,
    Reset,
    Record(Seq<char>),
    SetBudget(Seq<char>),
    InvalidAmount,
}

/// The action of a request of two or more words: a budget verb sets the
/// budget to the amount; any other first word reads the total, resets the
/// ledger or records an amount. An amount that is no finite, non-negative
/// number is a validation failure.
pub open spec fn spending_action_of(s: Seq<char>) -> ActionModel {
    let t = action_word(s);
    if is_budget_verb(s) {
        if is_amount(t) {
            ActionModel::SetBudget(t)
        } else {
            ActionModel::InvalidAmount
        }
    } else if t == "reset"@ {
        ActionModel::Reset
    } else if t == "total"@ {
        ActionModel::Total
    } else if is_amount(t) {
        ActionModel::Record(t)
    } else {
        ActionModel::InvalidAmount
    }
}

#[derive(Clone, Debug, PartialEq, Eq)]
pub enum SpendingAction {
    Total,
    Reset,
    /// Record an expense; the amount as written, a valid decimal number.
    Record(String),
    /// Set the budget; the amount as written, a valid decimal number.
    SetBudget(String),
    /// The amount could not be read as a number.
    InvalidAmount,
}

impl View for SpendingAction {
    type V = ActionModel;

    open spec fn view(&self) -> ActionModel {
        match self {
            SpendingAction::Total => ActionModel::Total,
            SpendingAction::Reset => ActionModel::Reset,
            SpendingAction::Record(a) => ActionModel::Record(a@),
            SpendingAction::SetBudget(a) => ActionModel::SetBudget(a@),
            SpendingAction::InvalidAmount => ActionModel::InvalidAmount,
        }
    }
}

#[derive(Clone, Debug, PartialEq, Eq)]
pub struct SpendingQuery {
    pub action: SpendingAction,
    pub category: Option<Category>,
}

fn first_word_is(s: &str, e0: usize, w: &str) -> (r: bool)
    requires
        e0 == word_end(s@, 0),
        e0 <= s@.len(),
    ensures
        r == (first_word(s@) == w@),
{
    same_text(s.substring_char(0, e0), w)
}

fn starts_with_verb_blank(s: &str) -> (r: bool)
    ensures
        r == verb_then_blank(s@),
{
    let e0 = word_end_at(s, 0);
    (first_word_is(s, e0, "spent") || first_word_is(s, e0, "Spent") || first_word_is(
        s,
        e0,
        "budget",
    ) || first_word_is(s, e0, "Budget")) && e0 < s.unicode_len()
}

/// Whether the message is a ledger request without a category.
pub fn is_spent_request(text: &str) -> (r: bool)
    ensures
        r == spent_shape(text@),
{
    if !starts_with_verb_blank(text) {
        return false;
    }
    let n = text.unicode_len();
    let i = word_end_at(text, 0) + 1;
    has_at(text, i, "total") || has_at(text, i, "reset") || starts_number(text, i)
}

fn category_from_text(s: &str, i: usize) -> (r: Option<Category>)
    ensures
        r == category_at(s@, i as int),
{
    if has_at(s, i, "dining") {
        Some(Category::Dining)
    } else if has_at(s, i, "travel") {
        Some(Category::Travel)
    } else if has_at(s, i, "merchandise") {
        Some(Category::Merchandise)
    } else if has_at(s, i, "entertainment") {
        Some(Category::Entertainment)
    } else if has_at(s, i, "grocery") {
        Some(Category::Grocery)
    } else if has_at(s, i, "other") {
        Some(Category::Other)
    } else {
        None
    }
}

/// The category of a categorised ledger request, or `None` where the message
/// is not one.
pub fn spent_category_of(text: &str) -> (r: Option<Category>)
    ensures
        r is Some == spent_category_shape(text@),
        r is Some ==> r->0 == spent_category(text@),
{
    if !starts_with_verb_blank(text) {
        return None;
    }
    let n = text.unicode_len();
    let i = word_end_at(text, 0) + 1;
    let e = word_end_at(text, i);
    let a = text.substring_char(i, e);
    if !(same_text(a, "total") || same_text(a, "reset") || is_number(a)) || e >= n {
        return None;
    }
    category_from_text(text, e + 1)
}

/// Whether the message is a ledger request that names a category.
pub fn is_spent_category_request(text: &str) -> (r: bool)
    ensures
        r == spent_category_shape(text@),
{
    spent_category_of(text).is_some()
}

/// Reads the action and amount of a request of two or more words.
pub fn parse_spent_request(input: &str, category: Option<Category>) -> (r: SpendingQuery)
    requires
        two_words(input@),
    ensures
        r.action@ == spending_action_of(input@),
        r.category == category,
{
    let n = input.unicode_len();
    let e0 = word_end_at(input, 0);
    let i = e0 + 1;
    let e = word_end_at(input, i);
    let t = input.substring_char(i, e);
    let action = if first_word_is(input, e0, "budget") || first_word_is(input, e0, "Budget") {
        if is_amount_text(t) {
            SpendingAction::SetBudget(String::from_str(t))
        } else {
            SpendingAction::InvalidAmount
        }
    } else if same_text(t, "reset") {
        SpendingAction::Reset
    } else if same_text(t, "total") {
        SpendingAction::Total
    } else if is_amount_text(t) {
        SpendingAction::Record(String::from_str(t))
    } else {
        SpendingAction::InvalidAmount
    };
    SpendingQuery { action, category }
}

pub const HELP_SPENDING: &'static str = "Spending Tracker:\nspent total\nspent reset\nspent 10.67";

/// How to use the ledger commands.
pub fn help_spending() -> (r: &'static str)
    ensures
        r == HELP_SPENDING,
{
    HELP_SPENDING
}

/// The ledger's answer to recording an expense or setting a budget.
#[derive(Clone, Debug, PartialEq, Eq)]
pub struct SpentResponse {
    pub total: String,
}

impl SpentResponse {
    /// The reply line for this answer.
    pub fn render(&self) -> (r: String)
        ensures
            r@ == "total: "@ + self.total@,
    {
        String::from_str("total: ").concat(self.total.as_str())
    }
}

/// One expense as the ledger lists it.
#[derive(Clone, Debug, PartialEq, Eq)]
pub struct Transaction {
    pub amount: String,
    pub category: String,
    pub time: String,
}

/// What `<str as Debug>::fmt` writes for a text: the text quoted, with its
/// special characters escaped.
pub uninterp spec fn debug_of(s: Seq<char>) -> Seq<char>;

/// Relies on `<str as Debug>::fmt` through `format!("{:?}")`: the quoted,
/// escaped form of the text, which depends on its characters alone.
#[verifier::external_body]
fn debug_text(s: &str) -> (r: String)
    ensures
        r@ == debug_of(s@),
{
    format!("{:?}", s)
}

/// One transaction as its derived `Debug` writes it.
pub open spec fn transaction_text(t: Transaction) -> Seq<char> {
    "Transaction { amount: "@ + debug_of(t.amount@) + ", category: "@ + debug_of(t.category@)
        + ", time: "@ + debug_of(t.time@) + " }"@
}

/// The transactions in the order given, separated by `, `.
pub open spec fn transactions_joined(ts: Seq<Transaction>) -> Seq<char>
    decreases ts.len(),
{
    if ts.len() == 0 {
        Seq::empty()
    } else if ts.len() == 1 {
        transaction_text(ts[0])
    } else {
        transactions_joined(ts.drop_last()) + ", "@ + transaction_text(ts.last())
    }
}

/// The list of transactions as `Vec`'s `Debug` writes it.
pub open spec fn transactions_text(ts: Seq<Transaction>) -> Seq<char> {
    "["@ + transactions_joined(ts) + "]"@
}

/// The ledger's answer to a total or a reset.
#[derive(Clone, Debug, PartialEq, Eq)]
pub struct SpentTotalResponse {
    pub budget: String,
    pub total: String,
    pub transactions: Vec<Transaction>,
}

pub open spec fn ledger_text(r: SpentTotalResponse) -> Seq<char> {
    "budget: "@ + r.budget@ + "\ntotal: "@ + r.total@ + "\ntransactions: "@ + transactions_text(
        r.transactions@,
    )
}

impl SpentTotalResponse {
    /// The reply for this answer: budget, total and the transactions in the
    /// order the ledger gave them.
    pub fn render(&self) -> (r: String)
        ensures
            r@ == ledger_text(*self),
    {
        let mut out = String::from_str("budget: ");
        out.append(self.budget.as_str());
        out.append("\ntotal: ");
        out.append(self.total.as_str());
        out.append("\ntransactions: ");
        out.append("[");
        let ghost head = out@;
        let mut i: usize = 0;
        while i < self.transactions.len()
            invariant
                i <= self.transactions@.len(),
                head == "budget: "@ + self.budget@ + "\ntotal: "@ + self.total@ + "\ntransactions: "@ + "["@,
                out@ == head + transactions_joined(self.transactions@.subrange(0, i as int)),
            decreases self.transactions@.len() - i,
        {
            let t = &self.transactions[i];
            if i > 0 {
                out.append(", ");
            }
            out.append("Transaction { amount: ");
            out.append(debug_text(t.amount.as_str()).as_str());
            out.append(", category: ");
            out.append(debug_text(t.category.as_str()).as_str());
            out.append(", time: ");
            out.append(debug_text(t.time.as_str()).as_str());
            out.append(" }");
            proof {
                let ts = self.transactions@.subrange(0, i + 1);
                assert(ts.drop_last() =~= self.transactions@.subrange(0, i as int));
                assert(ts.last() == self.transactions@[i as int]);
                if i == 0 {
                    assert(ts[0] == self.transactions@[0]);
                    assert(self.transactions@.subrange(0, 0).len() == 0);
                }
                assert(out@ =~= head + transactions_joined(ts));
            }
            i = i + 1;
        }
        out.append("]");
        assert(self.transactions@.subrange(0, i as int) =~= self.transactions@);
        assert(out@ =~= ledger_text(*self));
        out
    }
}

} // verus!
