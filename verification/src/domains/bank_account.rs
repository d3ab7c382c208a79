//! Bank accounts: transaction types, the month filter, the account model, and
//! how the rows read from the database become accounts with their budgets,
//! expenses, credits and charges.

use crate::domains::common::dates::{
    calendar_date, days_in_month, is_valid_date, max_year, previous_date, CalendarDate,
};
use crate::domains::common::errors::joined;
use crate::domains::common::visibility::{Periodicity, Visibility};
use crate::text::{
    all_digits, digits_value, lemma_parse_digits, lemma_split_join, lemma_split_without_separator,
    decimal_string, decimal_text, parse_i32, parse_u8, parsed_i32, parsed_u8, same_text,
    signed_decimal_string, signed_decimal_text, split_on, split_text, texts,
};
use rust_decimal::Decimal;
use vstd::prelude::*;

verus! {

/// The decimal amounts of the accounts, as the database driver reads them.
#[verifier::external_type_specification]
#[verifier::external_body]
pub struct ExDecimal(rust_decimal::Decimal);

// ---------------------------------------------------------------------------
// Transaction types
// ---------------------------------------------------------------------------

/// The kind of a transaction row.
#[derive(Debug, PartialEq, Eq, Clone, Copy, Structural)]
pub enum TransactionType {
    Expense,
    Charge,
    Credit,
    Budget,
}

/// The text that stores a transaction type.
pub open spec fn transaction_type_text(t: TransactionType) -> Seq<char> {
    match t {
        TransactionType::Expense => "EXPENSE"@,
        TransactionType::Charge => "CHARGE"@,
        TransactionType::Credit => "CREDIT"@,
        TransactionType::Budget => "BUDGET"@,
    }
}

/// The transaction type a stored text names, if any.
pub open spec fn transaction_type_of(s: Seq<char>) -> Option<TransactionType> {
    if s == "EXPENSE"@ {
        Some(TransactionType::Expense)
    } else if s == "CHARGE"@ {
        Some(TransactionType::Charge)
    } else if s == "CREDIT"@ {
        Some(TransactionType::Credit)
    } else if s == "BUDGET"@ {
        Some(TransactionType::Budget)
    } else {
        None
    }
}

impl TransactionType {
    /// The stored text of the type, as it is displayed.
    pub fn to_string(&self) -> (r: String)
        ensures
            r@ == transaction_type_text(*self),
    {
        match self {
            TransactionType::Expense => String::from_str("EXPENSE"),
            TransactionType::Charge => String::from_str("CHARGE"),
            TransactionType::Credit => String::from_str("CREDIT"),
            TransactionType::Budget => String::from_str("BUDGET"),
        }
    }

    /// Reads a stored type; any other text is refused.
    pub fn try_from(s: &str) -> (r: Result<TransactionType, ()>)
        ensures
            r matches Ok(t) ==> transaction_type_of(s@) == Some(t),
            r is Err <==> transaction_type_of(s@) is None,
    {
        if same_text(s, "EXPENSE") {
            Ok(TransactionType::Expense)
        } else if same_text(s, "CHARGE") {
            Ok(TransactionType::Charge)
        } else if same_text(s, "CREDIT") {
            Ok(TransactionType::Credit)
        } else if same_text(s, "BUDGET") {
            Ok(TransactionType::Budget)
        } else {
            Err(())
        }
    }
}

/// Reading back the text of a transaction type gives the type.
pub proof fn lemma_transaction_type_round_trip(t: TransactionType)
    ensures
        transaction_type_of(transaction_type_text(t)) == Some(t),
{
    reveal_strlit("EXPENSE");
    reveal_strlit("CHARGE");
    reveal_strlit("CREDIT");
    reveal_strlit("BUDGET");
    assert("CHARGE"@[0] != "EXPENSE"@[0]);
    assert("CREDIT"@[1] != "CHARGE"@[1]);
    assert("BUDGET"@[0] != "CREDIT"@[0]);
    assert("BUDGET"@[0] != "CHARGE"@[0]);
}

// ---------------------------------------------------------------------------
// The month filter
// ---------------------------------------------------------------------------

/// The month whose transactions are read.
#[derive(Debug, Clone, Copy, PartialEq, Eq, Structural)]
pub struct BankAccountFilter {
    pub month: u8,
    pub year: i32,
}

/// The month as a request gives it: `YYYY-MM`.
#[derive(Debug, Clone)]
pub struct RequestFilter {
    pub date: String,
}

/// The date of a request filter holds a year and a month that `str::parse`
/// reads, in its first two `-`-separated pieces.
pub open spec fn is_readable_month(date: Seq<char>) -> bool {
    let pieces = split_on(date, '-');
    &&& pieces.len() >= 2
    &&& parsed_i32(pieces[0]) is Some
    &&& parsed_u8(pieces[1]) is Some
}

/// A date written `Y-M`, with `Y` and `M` non-empty strings of decimal digits
/// (leading zeros allowed, as in `2026-08`), is readable when `Y` is at most
/// `i32::MAX` and `M` at most 255, and the filter it gives has the decimal
/// values of `Y` and `M` as year and month.
pub proof fn lemma_month_filter_reads_digits(y: Seq<char>, m: Seq<char>)
    requires
        y.len() > 0,
        all_digits(y),
        digits_value(y) <= i32::MAX,
        m.len() > 0,
        all_digits(m),
        digits_value(m) <= 255,
    ensures
        is_readable_month(y + seq!['-'] + m),
        parsed_i32(split_on(y + seq!['-'] + m, '-')[0]) == Some(digits_value(y) as i32),
        parsed_u8(split_on(y + seq!['-'] + m, '-')[1]) == Some(digits_value(m) as u8),
{
    assert(!y.contains('-')) by {
        if y.contains('-') {
            let j = choose|j: int| 0 <= j < y.len() && y[j] == '-';
            assert(crate::text::is_digit(y[j]));
        }
    }
    assert(!m.contains('-')) by {
        if m.contains('-') {
            let j = choose|j: int| 0 <= j < m.len() && m[j] == '-';
            assert(crate::text::is_digit(m[j]));
        }
    }
    lemma_split_without_separator(y, '-');
    lemma_split_join(y, m, '-');
    assert(split_on(y + seq!['-'] + m, '-') =~= seq![y, m]);
    lemma_parse_digits(y);
    lemma_parse_digits(m);
}

/// The date can be read by `RequestFilter::to_bank_account_filter`.
pub fn is_readable_month_text(date: &String) -> (r: bool)
    ensures
        r == is_readable_month(date@),
{
    let parts = split_text(date.as_str(), '-');
    if parts.len() < 2 {
        return false;
    }
    proof {
        assert(parts@[0]@ == texts(parts@)[0]);
        assert(parts@[1]@ == texts(parts@)[1]);
    }
    parse_i32(parts[0].as_str()).is_some() && parse_u8(parts[1].as_str()).is_some()
}

impl RequestFilter {
    /// Reads `YYYY-MM` into a month filter: the year is the first piece and the
    /// month the second piece of the date split on `-`.
    pub fn to_bank_account_filter(&self) -> (r: BankAccountFilter)
        requires
            is_readable_month(self.date@),
        ensures
            r.year == parsed_i32(split_on(self.date@, '-')[0])->0,
            r.month == parsed_u8(split_on(self.date@, '-')[1])->0,
    {
        let parts = split_text(self.date.as_str(), '-');
        proof {
            assert(parts@[0]@ == texts(parts@)[0]);
            assert(parts@[1]@ == texts(parts@)[1]);
        }
        let year = match parse_i32(parts[0].as_str()) {
            Some(y) => y,
            None => 0,
        };
        let month = match parse_u8(parts[1].as_str()) {
            Some(m) => m,
            None => 0,
        };
        BankAccountFilter { month, year }
    }
}

/// Why the bounds of a month could not be computed.
#[derive(Debug, Clone, Copy, PartialEq, Eq, Structural)]
pub enum MonthBoundsError {
    /// The first day of the month does not exist.
    InvalidDate { year: i32, month: u8 },
    /// The month after it cannot be represented.
    DateOverflow,
}

impl MonthBoundsError {
    /// The message of the error.
    pub open spec fn message_spec(&self) -> Seq<char> {
        match *self {
            MonthBoundsError::InvalidDate { year, month } => "invalid date: year="@
                + signed_decimal_text(year as int) + ", month="@ + decimal_text(month as nat),
            MonthBoundsError::DateOverflow => "date overflow"@,
        }
    }

    /// The message of the error.
    pub fn message(&self) -> (r: String)
        ensures
            r@ == self.message_spec(),
    {
        match *self {
            MonthBoundsError::InvalidDate { year, month } => {
                let y = signed_decimal_string(year as i64);
                let m = decimal_string(month as u64);
                let mut s = joined("invalid date: year=", y.as_str());
                s.append(", month=");
                s.append(m.as_str());
                s
            },
            MonthBoundsError::DateOverflow => String::from_str("date overflow"),
        }
    }
}

// ---------------------------------------------------------------------------
// The account model
// ---------------------------------------------------------------------------

/// An expense of an account or of one of its budgets.
#[derive(Debug, PartialEq)]
pub struct Expense {
    pub id: i32,
    pub description: String,
    pub amount: Decimal,
    pub expense_date: CalendarDate,
    pub debit_date: CalendarDate,
}

/// A credit of an account.
#[derive(Debug, PartialEq)]
pub struct Credit {
    pub id: i32,
    pub description: String,
    pub amount: Decimal,
    pub date: CalendarDate,
}

/// A recurring charge of an account.
#[derive(Debug, PartialEq)]
pub struct Charge {
    pub id: i32,
    pub description: String,
    pub amount: Decimal,
    pub date: CalendarDate,
    pub periodicity: Periodicity,
}

/// A budget of an account, with the expenses made on it.
#[derive(Debug, PartialEq)]
pub struct Budget {
    pub id: i32,
    pub name: String,
    pub description: String,
    pub start_date: CalendarDate,
    pub end_date: Option<CalendarDate>,
    pub initial_amount: Decimal,
    pub expenses: Vec<Expense>,
}

/// A bank account with the transactions of a month.
#[derive(Debug, PartialEq)]
pub struct BankAccount {
    pub id: i32,
    pub name: String,
    pub description: String,
    pub visibility: Visibility,
    pub starting_amount: Decimal,
    pub start_date: CalendarDate,
    pub budgets: Vec<Budget>,
    pub charges: Vec<Charge>,
    pub credits: Vec<Credit>,
    pub expenses: Vec<Expense>,
}

/// What is needed to open a bank account.
#[derive(Debug)]
pub struct CreateBankAccountCommand {
    pub name: String,
    pub description: String,
    pub visibility: Visibility,
    pub starting_amount: Decimal,
    pub start_date: CalendarDate,
}

/// What is needed to add a budget to an account.
#[derive(Debug)]
pub struct AddBudgetToAccountCommand {
    pub account_id: i32,
    pub name: String,
    pub description: String,
    pub start_date: CalendarDate,
    pub end_date: Option<CalendarDate>,
    pub initial_amount: Decimal,
}

/// What is needed to add an expense to an account.
#[derive(Debug)]
pub struct AddExpenseToAccountCommand {
    pub account_id: i32,
    pub description: String,
    pub amount: Decimal,
    pub expense_date: CalendarDate,
    pub debit_date: CalendarDate,
}

/// What is needed to add an expense to a budget of an account.
#[derive(Debug)]
pub struct AddExpenseToBudgetCommand {
    pub account_id: i32,
    pub budget_id: i32,
    pub description: String,
    pub amount: Decimal,
    pub expense_date: CalendarDate,
    pub debit_date: CalendarDate,
}

/// What is needed to add a charge to an account.
#[derive(Debug)]
pub struct AddChargeToAccountCommand {
    pub account_id: i32,
    pub description: String,
    pub amount: Decimal,
    pub charge_date: CalendarDate,
    pub debit_date: CalendarDate,
    pub periodicity: Option<Periodicity>,
}

/// What is needed to add a credit to an account.
#[derive(Debug)]
pub struct AddCreditToAccountCommand {
    pub account_id: i32,
    pub description: String,
    pub amount: Decimal,
    pub credit_date: CalendarDate,
    pub debit_date: CalendarDate,
}

/// The mathematical value of a budget.
pub struct BudgetView {
    pub id: i32,
    pub name: Seq<char>,
    pub description: Seq<char>,
    pub start_date: CalendarDate,
    pub end_date: Option<CalendarDate>,
    pub initial_amount: Decimal,
    pub expenses: Seq<Expense>,
}

/// The mathematical value of a bank account.
pub struct BankAccountView {
    pub id: i32,
    pub name: Seq<char>,
    pub description: Seq<char>,
    pub visibility: Visibility,
    pub starting_amount: Decimal,
    pub start_date: CalendarDate,
    pub budgets: Seq<BudgetView>,
    pub charges: Seq<Charge>,
    pub credits: Seq<Credit>,
    pub expenses: Seq<Expense>,
}

impl View for Budget {
    type V = BudgetView;

    open spec fn view(&self) -> BudgetView {
        BudgetView {
            id: self.id,
            name: self.name@,
            description: self.description@,
            start_date: self.start_date,
            end_date: self.end_date,
            initial_amount: self.initial_amount,
            expenses: self.expenses@,
        }
    }
}

/// The values of a list of budgets.
pub open spec fn budget_views(v: Seq<Budget>) -> Seq<BudgetView> {
    v.map_values(|b: Budget| b@)
}

impl View for BankAccount {
    type V = BankAccountView;

    open spec fn view(&self) -> BankAccountView {
        BankAccountView {
            id: self.id,
            name: self.name@,
            description: self.description@,
            visibility: self.visibility,
            starting_amount: self.starting_amount,
            start_date: self.start_date,
            budgets: budget_views(self.budgets@),
            charges: self.charges@,
            credits: self.credits@,
            expenses: self.expenses@,
        }
    }
}

/// The values of a list of accounts.
pub open spec fn account_views(v: Seq<BankAccount>) -> Seq<BankAccountView> {
    v.map_values(|a: BankAccount| a@)
}

// ---------------------------------------------------------------------------
// The rows read from the database
// ---------------------------------------------------------------------------

/// One row of the accounts query: an account, maybe one of its budgets, and
/// maybe one transaction of the month.
#[derive(Debug)]
pub struct BankAccountEntity {
    pub ba_id: i32,
    pub ba_name: String,
    pub ba_description: Option<String>,
    pub ba_starting_amount: Decimal,
    pub ba_start_date: CalendarDate,
    pub b_id: Option<i32>,
    pub b_name: Option<String>,
    pub b_description: Option<String>,
    pub b_start_date: Option<CalendarDate>,
    pub b_end_date: Option<CalendarDate>,
    pub b_initial_amount: Option<Decimal>,
    pub t_id: Option<i32>,
    pub t_type: Option<String>,
    pub t_description: Option<String>,
    pub t_amount: Option<Decimal>,
    pub t_start_date: Option<CalendarDate>,
    pub t_end_date: Option<CalendarDate>,
    pub t_periodicity: Option<String>,
    pub t_budget_id: Option<i32>,
}

/// The account a row describes, with no budget nor transaction yet.
pub open spec fn account_of_row(row: BankAccountEntity) -> BankAccountView {
    BankAccountView {
        id: row.ba_id,
        name: row.ba_name@,
        description: match row.ba_description {
            Some(d) => d@,
            None => Seq::<char>::empty(),
        },
        visibility: Visibility::Personal,
        starting_amount: row.ba_starting_amount,
        start_date: row.ba_start_date,
        budgets: Seq::empty(),
        charges: Seq::empty(),
        credits: Seq::empty(),
        expenses: Seq::empty(),
    }
}

/// The budget a row describes, when its id, name, description, start date and
/// initial amount are all there.
pub open spec fn budget_of_row(row: BankAccountEntity) -> Option<BudgetView> {
    if row.b_id is Some && row.b_name is Some && row.b_description is Some
        && row.b_start_date is Some && row.b_initial_amount is Some {
        Some(
            BudgetView {
                id: row.b_id->0,
                name: row.b_name->0@,
                description: row.b_description->0@,
                start_date: row.b_start_date->0,
                end_date: row.b_end_date,
                initial_amount: row.b_initial_amount->0,
                expenses: Seq::empty(),
            },
        )
    } else {
        None
    }
}

/// The row holds a whole transaction: id, type, description, amount and both
/// dates.
pub open spec fn has_transaction(row: BankAccountEntity) -> bool {
    &&& row.t_id is Some
    &&& row.t_type is Some
    &&& row.t_description is Some
    &&& row.t_amount is Some
    &&& row.t_start_date is Some
    &&& row.t_end_date is Some
}

/// The expense a transaction row describes.
pub open spec fn expense_of_row(row: BankAccountEntity) -> Expense {
    Expense {
        id: row.t_id->0,
        description: row.t_description->0,
        amount: row.t_amount->0,
        expense_date: row.t_start_date->0,
        debit_date: row.t_end_date->0,
    }
}

/// The credit a transaction row describes.
pub open spec fn credit_of_row(row: BankAccountEntity) -> Credit {
    Credit {
        id: row.t_id->0,
        description: row.t_description->0,
        amount: row.t_amount->0,
        date: row.t_start_date->0,
    }
}

/// The periodicity a row stores: yearly only when it says `YEARLY`.
pub open spec fn periodicity_of(p: Option<String>) -> Periodicity {
    match p {
        Some(s) => if s@ == "YEARLY"@ {
            Periodicity::Yearly
        } else {
            Periodicity::Monthly
        },
        None => Periodicity::Monthly,
    }
}

/// The charge a transaction row describes.
pub open spec fn charge_of_row(row: BankAccountEntity) -> Charge {
    Charge {
        id: row.t_id->0,
        description: row.t_description->0,
        amount: row.t_amount->0,
        date: row.t_start_date->0,
        periodicity: periodicity_of(row.t_periodicity),
    }
}

// ---------------------------------------------------------------------------
// Ids and positions
// ---------------------------------------------------------------------------

/// The position of the first occurrence of `id` in `ids`, or -1.
pub open spec fn first_position(ids: Seq<i32>, id: i32) -> int
    decreases ids.len(),
{
    if ids.len() == 0 {
        -1
    } else if ids[0] == id {
        0
    } else {
        let r = first_position(ids.drop_first(), id);
        if r < 0 {
            -1
        } else {
            r + 1
        }
    }
}

/// `first_position` finds the first occurrence, and -1 exactly when there is
/// none.
pub proof fn lemma_first_position(ids: Seq<i32>, id: i32)
    ensures
        -1 <= first_position(ids, id) < ids.len(),
        first_position(ids, id) >= 0 ==> ids[first_position(ids, id)] == id,
        first_position(ids, id) >= 0 ==> forall|j: int|
            0 <= j < first_position(ids, id) ==> ids[j] != id,
        first_position(ids, id) < 0 <==> !ids.contains(id),
    decreases ids.len(),
{
    if ids.len() > 0 {
        lemma_first_position(ids.drop_first(), id);
        if ids[0] != id {
            let r = first_position(ids.drop_first(), id);
            if r >= 0 {
                assert forall|j: int| 0 <= j < r + 1 implies ids[j] != id by {
                    if j > 0 {
                        assert(ids[j] == ids.drop_first()[j - 1]);
                    }
                }
            } else {
                if ids.contains(id) {
                    let j = choose|j: int| 0 <= j < ids.len() && ids[j] == id;
                    assert(ids.drop_first()[j - 1] == id);
                }
            }
        }
    }
}

/// The first position found by a scan that saw no `id` before `i` and sees it
/// at `i`.
proof fn lemma_first_position_at(ids: Seq<i32>, id: i32, i: int)
    requires
        0 <= i < ids.len(),
        ids[i] == id,
        forall|j: int| 0 <= j < i ==> ids[j] != id,
    ensures
        first_position(ids, id) == i,
{
    lemma_first_position(ids, id);
    assert(ids.contains(id));
    let p = first_position(ids, id);
    if p < i {
        assert(ids[p] == id);
    }
    if p > i {
        assert(ids[i] != id);
    }
}

/// A scan that saw no `id` anywhere.
proof fn lemma_first_position_none(ids: Seq<i32>, id: i32)
    requires
        forall|j: int| 0 <= j < ids.len() ==> ids[j] != id,
    ensures
        first_position(ids, id) == -1,
{
    lemma_first_position(ids, id);
    if ids.contains(id) {
        let j = choose|j: int| 0 <= j < ids.len() && ids[j] == id;
        assert(ids[j] != id);
    }
}

/// The ids of a list of accounts.
pub open spec fn account_ids(s: Seq<BankAccountView>) -> Seq<i32> {
    s.map_values(|a: BankAccountView| a.id)
}

/// The ids of a list of budgets.
pub open spec fn budget_ids(s: Seq<BudgetView>) -> Seq<i32> {
    s.map_values(|b: BudgetView| b.id)
}

/// The ids of a list of expenses.
pub open spec fn expense_ids(s: Seq<Expense>) -> Seq<i32> {
    s.map_values(|e: Expense| e.id)
}

/// The ids of a list of credits.
pub open spec fn credit_ids(s: Seq<Credit>) -> Seq<i32> {
    s.map_values(|c: Credit| c.id)
}

/// The ids of a list of charges.
pub open spec fn charge_ids(s: Seq<Charge>) -> Seq<i32> {
    s.map_values(|c: Charge| c.id)
}

// ---------------------------------------------------------------------------
// Folding rows into accounts
// ---------------------------------------------------------------------------

/// The budget of a row added to the account, unless the account already has a
/// budget with its id.
pub open spec fn with_row_budget(a: BankAccountView, row: BankAccountEntity) -> BankAccountView {
    match budget_of_row(row) {
        Some(b) => if budget_ids(a.budgets).contains(b.id) {
            a
        } else {
            BankAccountView { budgets: a.budgets.push(b), ..a }
        },
        None => a,
    }
}

/// An expense added to the first budget of the account with id `budget_id`,
/// unless there is no such budget or it already has an expense with that id.
pub open spec fn with_budget_expense(a: BankAccountView, budget_id: i32, e: Expense) -> BankAccountView {
    let k = first_position(budget_ids(a.budgets), budget_id);
    if k < 0 {
        a
    } else if expense_ids(a.budgets[k].expenses).contains(e.id) {
        a
    } else {
        BankAccountView {
            budgets: a.budgets.update(
                k,
                BudgetView { expenses: a.budgets[k].expenses.push(e), ..a.budgets[k] },
            ),
            ..a
        }
    }
}

/// The transaction of a row added to the account.
///
/// An expense goes to its budget when it names one, else to the account; a
/// budget transaction goes to its budget only; credits and charges go to the
/// account. Nothing is added twice under one id, and rows with an incomplete
/// transaction or an unknown type add nothing.
pub open spec fn with_row_transaction(a: BankAccountView, row: BankAccountEntity) -> BankAccountView {
    if !has_transaction(row) {
        a
    } else {
        match transaction_type_of(row.t_type->0@) {
            Some(TransactionType::Expense) => match row.t_budget_id {
                Some(b) => with_budget_expense(a, b, expense_of_row(row)),
                None => if expense_ids(a.expenses).contains(row.t_id->0) {
                    a
                } else {
                    BankAccountView { expenses: a.expenses.push(expense_of_row(row)), ..a }
                },
            },
            Some(TransactionType::Budget) => match row.t_budget_id {
                Some(b) => with_budget_expense(a, b, expense_of_row(row)),
                None => a,
            },
            Some(TransactionType::Credit) => if credit_ids(a.credits).contains(row.t_id->0) {
                a
            } else {
                BankAccountView { credits: a.credits.push(credit_of_row(row)), ..a }
            },
            Some(TransactionType::Charge) => if charge_ids(a.charges).contains(row.t_id->0) {
                a
            } else {
                BankAccountView { charges: a.charges.push(charge_of_row(row)), ..a }
            },
            None => a,
        }
    }
}

/// The accounts after one more row: the row's account is created on its first
/// row, then its budget and its transaction are added to it.
pub open spec fn with_row(accounts: Seq<BankAccountView>, row: BankAccountEntity) -> Seq<BankAccountView> {
    let k = first_position(account_ids(accounts), row.ba_id);
    let all = if k < 0 {
        accounts.push(account_of_row(row))
    } else {
        accounts
    };
    let i = if k < 0 {
        accounts.len() as int
    } else {
        k
    };
    all.update(i, with_row_transaction(with_row_budget(all[i], row), row))
}

/// The accounts the rows describe, in the order in which their first rows
/// come.
pub open spec fn accounts_of_rows(rows: Seq<BankAccountEntity>) -> Seq<BankAccountView>
    decreases rows.len(),
{
    if rows.len() == 0 {
        Seq::empty()
    } else {
        with_row(accounts_of_rows(rows.drop_last()), rows.last())
    }
}

/// The distinct values of `s`, in the order of their first occurrences.
pub open spec fn distinct_in_order(s: Seq<i32>) -> Seq<i32>
    decreases s.len(),
{
    if s.len() == 0 {
        Seq::empty()
    } else {
        let before = distinct_in_order(s.drop_last());
        if before.contains(s.last()) {
            before
        } else {
            before.push(s.last())
        }
    }
}

/// The account ids of the rows.
pub open spec fn row_account_ids(rows: Seq<BankAccountEntity>) -> Seq<i32> {
    rows.map_values(|r: BankAccountEntity| r.ba_id)
}

/// Within an account, no two budgets, no two expenses of the account or of one
/// budget, no two credits and no two charges share an id.
pub open spec fn ids_unique_within(a: BankAccountView) -> bool {
    &&& budget_ids(a.budgets).no_duplicates()
    &&& expense_ids(a.expenses).no_duplicates()
    &&& credit_ids(a.credits).no_duplicates()
    &&& charge_ids(a.charges).no_duplicates()
    &&& forall|k: int|
        0 <= k < a.budgets.len() ==> expense_ids(#[trigger] a.budgets[k].expenses).no_duplicates()
}

/// Pushing an id that is not there keeps a list of ids free of duplicates.
proof fn lemma_push_fresh(ids: Seq<i32>, id: i32)
    requires
        ids.no_duplicates(),
        !ids.contains(id),
    ensures
        ids.push(id).no_duplicates(),
{
    assert forall|i: int, j: int|
        0 <= i < ids.push(id).len() && 0 <= j < ids.push(id).len() && i != j implies ids.push(
        id,
    )[i] != ids.push(id)[j] by {
        if i < ids.len() && j < ids.len() {
            assert(ids.push(id)[i] == ids[i]);
            assert(ids.push(id)[j] == ids[j]);
        } else if i < ids.len() {
            assert(ids.push(id)[i] == ids[i]);
        } else {
            assert(ids.push(id)[j] == ids[j]);
        }
    }
}

/// Adding a budget keeps the ids of an account unique.
proof fn lemma_with_row_budget_unique(a: BankAccountView, row: BankAccountEntity)
    requires
        ids_unique_within(a),
    ensures
        ids_unique_within(with_row_budget(a, row)),
        with_row_budget(a, row).id == a.id,
{
    match budget_of_row(row) {
        Some(b) => {
            if !budget_ids(a.budgets).contains(b.id) {
                let n = with_row_budget(a, row);
                assert(budget_ids(n.budgets) == budget_ids(a.budgets).push(b.id));
                lemma_push_fresh(budget_ids(a.budgets), b.id);
                assert forall|k: int| 0 <= k < n.budgets.len() implies expense_ids(
                    #[trigger] n.budgets[k].expenses,
                ).no_duplicates() by {
                    if k < a.budgets.len() {
                        assert(n.budgets[k] == a.budgets[k]);
                    } else {
                        assert(expense_ids(n.budgets[k].expenses) =~= Seq::<i32>::empty());
                    }
                }
            }
        },
        None => {},
    }
}

/// Adding an expense to a budget keeps the ids of an account unique.
proof fn lemma_with_budget_expense_unique(a: BankAccountView, budget_id: i32, e: Expense)
    requires
        ids_unique_within(a),
    ensures
        ids_unique_within(with_budget_expense(a, budget_id, e)),
        with_budget_expense(a, budget_id, e).id == a.id,
{
    let k = first_position(budget_ids(a.budgets), budget_id);
    lemma_first_position(budget_ids(a.budgets), budget_id);
    if k >= 0 && !expense_ids(a.budgets[k].expenses).contains(e.id) {
        let n = with_budget_expense(a, budget_id, e);
        assert(budget_ids(n.budgets) =~= budget_ids(a.budgets));
        assert(expense_ids(n.budgets[k].expenses) == expense_ids(a.budgets[k].expenses).push(e.id));
        lemma_push_fresh(expense_ids(a.budgets[k].expenses), e.id);
        assert forall|j: int| 0 <= j < n.budgets.len() implies expense_ids(
            #[trigger] n.budgets[j].expenses,
        ).no_duplicates() by {
            if j != k {
                assert(n.budgets[j] == a.budgets[j]);
            }
        }
    }
}

/// Adding a transaction keeps the ids of an account unique.
proof fn lemma_with_row_transaction_unique(a: BankAccountView, row: BankAccountEntity)
    requires
        ids_unique_within(a),
    ensures
        ids_unique_within(with_row_transaction(a, row)),
        with_row_transaction(a, row).id == a.id,
{
    if has_transaction(row) {
        let id = row.t_id->0;
        match transaction_type_of(row.t_type->0@) {
            Some(TransactionType::Expense) => match row.t_budget_id {
                Some(b) => lemma_with_budget_expense_unique(a, b, expense_of_row(row)),
                None => {
                    if !expense_ids(a.expenses).contains(id) {
                        let n = with_row_transaction(a, row);
                        assert(expense_ids(n.expenses) == expense_ids(a.expenses).push(id));
                        lemma_push_fresh(expense_ids(a.expenses), id);
                    }
                },
            },
            Some(TransactionType::Budget) => match row.t_budget_id {
                Some(b) => lemma_with_budget_expense_unique(a, b, expense_of_row(row)),
                None => {},
            },
            Some(TransactionType::Credit) => {
                if !credit_ids(a.credits).contains(id) {
                    let n = with_row_transaction(a, row);
                    assert(credit_ids(n.credits) == credit_ids(a.credits).push(id));
                    lemma_push_fresh(credit_ids(a.credits), id);
                }
            },
            Some(TransactionType::Charge) => {
                if !charge_ids(a.charges).contains(id) {
                    let n = with_row_transaction(a, row);
                    assert(charge_ids(n.charges) == charge_ids(a.charges).push(id));
                    lemma_push_fresh(charge_ids(a.charges), id);
                }
            },
            None => {},
        }
    }
}

/// Adding an expense to a budget a second time changes nothing.
proof fn lemma_with_budget_expense_twice(a: BankAccountView, budget_id: i32, e: Expense)
    ensures
        with_budget_expense(with_budget_expense(a, budget_id, e), budget_id, e) == with_budget_expense(
            a,
            budget_id,
            e,
        ),
{
    let k = first_position(budget_ids(a.budgets), budget_id);
    lemma_first_position(budget_ids(a.budgets), budget_id);
    if k >= 0 && !expense_ids(a.budgets[k].expenses).contains(e.id) {
        let n = with_budget_expense(a, budget_id, e);
        assert(budget_ids(n.budgets) =~= budget_ids(a.budgets));
        assert(expense_ids(n.budgets[k].expenses) == expense_ids(a.budgets[k].expenses).push(e.id));
        lemma_contains_push(expense_ids(a.budgets[k].expenses), e.id, e.id);
    }
}

/// Adding the transaction of a row, as `add_transaction` does: doing it a
/// second time with the same row changes nothing, and an account whose
/// expenses, credits, charges and each budget's expenses have pairwise
/// distinct ids keeps them pairwise distinct.
pub proof fn lemma_add_transaction(a: BankAccountView, row: BankAccountEntity)
    ensures
        with_row_transaction(with_row_transaction(a, row), row) == with_row_transaction(a, row),
        ids_unique_within(a) ==> ids_unique_within(with_row_transaction(a, row)),
        with_row_transaction(a, row).id == a.id,
{
    if ids_unique_within(a) {
        lemma_with_row_transaction_unique(a, row);
    }
    if has_transaction(row) {
        let id = row.t_id->0;
        let n = with_row_transaction(a, row);
        match transaction_type_of(row.t_type->0@) {
            Some(TransactionType::Expense) => match row.t_budget_id {
                Some(b) => lemma_with_budget_expense_twice(a, b, expense_of_row(row)),
                None => {
                    if !expense_ids(a.expenses).contains(id) {
                        assert(expense_ids(n.expenses) == expense_ids(a.expenses).push(id));
                        lemma_contains_push(expense_ids(a.expenses), id, id);
                    }
                },
            },
            Some(TransactionType::Budget) => match row.t_budget_id {
                Some(b) => lemma_with_budget_expense_twice(a, b, expense_of_row(row)),
                None => {},
            },
            Some(TransactionType::Credit) => {
                if !credit_ids(a.credits).contains(id) {
                    assert(credit_ids(n.credits) == credit_ids(a.credits).push(id));
                    lemma_contains_push(credit_ids(a.credits), id, id);
                }
            },
            Some(TransactionType::Charge) => {
                if !charge_ids(a.charges).contains(id) {
                    assert(charge_ids(n.charges) == charge_ids(a.charges).push(id));
                    lemma_contains_push(charge_ids(a.charges), id, id);
                }
            },
            None => {},
        }
    }
}

/// One more row keeps the account ids in first-appearance order and the ids
/// within each account unique.
proof fn lemma_with_row(accounts: Seq<BankAccountView>, row: BankAccountEntity)
    requires
        forall|i: int| 0 <= i < accounts.len() ==> ids_unique_within(#[trigger] accounts[i]),
    ensures
        account_ids(with_row(accounts, row)) == if account_ids(accounts).contains(row.ba_id) {
            account_ids(accounts)
        } else {
            account_ids(accounts).push(row.ba_id)
        },
        forall|i: int|
            0 <= i < with_row(accounts, row).len() ==> ids_unique_within(
                #[trigger] with_row(accounts, row)[i],
            ),
{
    let ids = account_ids(accounts);
    let k = first_position(ids, row.ba_id);
    lemma_first_position(ids, row.ba_id);
    let all = if k < 0 {
        accounts.push(account_of_row(row))
    } else {
        accounts
    };
    let i = if k < 0 {
        accounts.len() as int
    } else {
        k
    };
    assert forall|j: int| 0 <= j < all.len() implies ids_unique_within(#[trigger] all[j]) by {
        if j == accounts.len() {
            assert(all[j] == account_of_row(row));
            assert(budget_ids(all[j].budgets) =~= Seq::<i32>::empty());
            assert(expense_ids(all[j].expenses) =~= Seq::<i32>::empty());
            assert(credit_ids(all[j].credits) =~= Seq::<i32>::empty());
            assert(charge_ids(all[j].charges) =~= Seq::<i32>::empty());
        } else {
            assert(all[j] == accounts[j]);
        }
    }
    let mid = with_row_budget(all[i], row);
    lemma_with_row_budget_unique(all[i], row);
    lemma_with_row_transaction_unique(mid, row);
    let result = with_row(accounts, row);
    assert(result == all.update(i, with_row_transaction(mid, row)));
    assert(all[i].id == row.ba_id);
    if k < 0 {
        assert(account_ids(result) =~= ids.push(row.ba_id));
    } else {
        assert(account_ids(result) =~= ids);
    }
}

/// The accounts built from rows: one per account id, in the order in which the
/// ids first appear among the rows, and within each account no two budgets,
/// expenses, credits or charges share an id.
pub proof fn lemma_accounts_of_rows(rows: Seq<BankAccountEntity>)
    ensures
        account_ids(accounts_of_rows(rows)) == distinct_in_order(row_account_ids(rows)),
        forall|i: int|
            0 <= i < accounts_of_rows(rows).len() ==> ids_unique_within(
                #[trigger] accounts_of_rows(rows)[i],
            ),
    decreases rows.len(),
{
    if rows.len() > 0 {
        lemma_accounts_of_rows(rows.drop_last());
        lemma_with_row(accounts_of_rows(rows.drop_last()), rows.last());
        assert(row_account_ids(rows).drop_last() =~= row_account_ids(rows.drop_last()));
        assert(row_account_ids(rows).last() == rows.last().ba_id);
    }
}

/// The first occurrence of `x` after a push.
pub proof fn lemma_first_position_push(s: Seq<i32>, v: i32, x: i32)
    ensures
        s.contains(x) ==> first_position(s.push(v), x) == first_position(s, x),
        !s.contains(x) && v == x ==> first_position(s.push(v), x) == s.len(),
{
    lemma_first_position(s, x);
    lemma_first_position(s.push(v), x);
    lemma_contains_push(s, v, x);
    let p = first_position(s, x);
    let q = first_position(s.push(v), x);
    if s.contains(x) {
        assert(s.push(v)[p] == x);
        if q < p {
            assert(s[q] == s.push(v)[q]);
        }
    } else if v == x {
        assert(s.push(v)[s.len() as int] == x);
        if q < s.len() {
            assert(s[q] == s.push(v)[q]);
        }
    }
}

/// Among `accounts`, the one with id `ba_id` has a budget with id `b_id`.
pub open spec fn account_has_budget(accounts: Seq<BankAccountView>, ba_id: i32, b_id: i32) -> bool {
    exists|i: int|
        0 <= i < accounts.len() && #[trigger] accounts[i].id == ba_id && budget_ids(
            accounts[i].budgets,
        ).contains(b_id)
}

/// Every budget id an account had before a row is still there after it, and the
/// row's own budget, when the row describes one, is there too.
proof fn lemma_row_keeps_budgets(a: BankAccountView, row: BankAccountEntity)
    ensures
        with_row_transaction(with_row_budget(a, row), row).id == a.id,
        forall|x: i32|
            budget_ids(a.budgets).contains(x) ==> #[trigger] budget_ids(
                with_row_transaction(with_row_budget(a, row), row).budgets,
            ).contains(x),
        budget_of_row(row) is Some ==> budget_ids(
            with_row_transaction(with_row_budget(a, row), row).budgets,
        ).contains(budget_of_row(row)->0.id),
{
    let mid = with_row_budget(a, row);
    match budget_of_row(row) {
        Some(b) => {
            if !budget_ids(a.budgets).contains(b.id) {
                assert(budget_ids(mid.budgets) =~= budget_ids(a.budgets).push(b.id));
                assert forall|x: i32| budget_ids(a.budgets).contains(x) implies budget_ids(
                    mid.budgets,
                ).contains(x) by {
                    lemma_contains_push(budget_ids(a.budgets), b.id, x);
                }
                lemma_contains_push(budget_ids(a.budgets), b.id, b.id);
            }
        },
        None => {},
    }
    lemma_row_transaction_budget_ids(mid, row);
}

/// Adding a transaction leaves the budget ids of an account as they were.
proof fn lemma_row_transaction_budget_ids(a: BankAccountView, row: BankAccountEntity)
    ensures
        budget_ids(with_row_transaction(a, row).budgets) == budget_ids(a.budgets),
        with_row_transaction(a, row).id == a.id,
{
    if has_transaction(row) {
        match row.t_budget_id {
            Some(b) => {
                let e = expense_of_row(row);
                let k = first_position(budget_ids(a.budgets), b);
                lemma_first_position(budget_ids(a.budgets), b);
                if k >= 0 && !expense_ids(a.budgets[k].expenses).contains(e.id) {
                    let n = with_budget_expense(a, b, e);
                    assert forall|i: int| 0 <= i < a.budgets.len() implies #[trigger] n.budgets[i].id
                        == a.budgets[i].id by {
                        if i == k {
                            assert(n.budgets[i].id == a.budgets[k].id);
                        }
                    }
                    assert(budget_ids(n.budgets) =~= budget_ids(a.budgets));
                }
            },
            None => {},
        }
    }
}

/// Every budget that a row of an account describes is a budget of that
/// account among the accounts built from the rows, whatever the row's
/// transaction columns hold.
pub proof fn lemma_row_budgets_kept(rows: Seq<BankAccountEntity>)
    ensures
        forall|j: int|
            0 <= j < rows.len() && (#[trigger] rows[j]).b_id is Some && rows[j].b_name is Some
                && rows[j].b_description is Some && rows[j].b_start_date is Some
                && rows[j].b_initial_amount is Some ==> account_has_budget(
                accounts_of_rows(rows),
                rows[j].ba_id,
                rows[j].b_id->0,
            ),
    decreases rows.len(),
{
    if rows.len() > 0 {
        let prev = rows.drop_last();
        let last = rows.last();
        lemma_row_budgets_kept(prev);
        let before = accounts_of_rows(prev);
        let after = accounts_of_rows(rows);
        let ids = account_ids(before);
        let k = first_position(ids, last.ba_id);
        lemma_first_position(ids, last.ba_id);
        let all = if k < 0 {
            before.push(account_of_row(last))
        } else {
            before
        };
        let at = if k < 0 {
            before.len() as int
        } else {
            k
        };
        assert(after == all.update(at, with_row_transaction(with_row_budget(all[at], last), last)));
        assert(all[at].id == last.ba_id) by {
            if k >= 0 {
                assert(ids[k] == before[k].id);
            }
        }
        lemma_row_keeps_budgets(all[at], last);
        assert forall|j: int|
            0 <= j < rows.len() && (#[trigger] rows[j]).b_id is Some && rows[j].b_name is Some
                && rows[j].b_description is Some && rows[j].b_start_date is Some
                && rows[j].b_initial_amount is Some implies account_has_budget(
            after,
            rows[j].ba_id,
            rows[j].b_id->0,
        ) by {
            if j < prev.len() {
                assert(rows[j] == prev[j]);
                assert(account_has_budget(before, prev[j].ba_id, prev[j].b_id->0));
                let i = choose|i: int|
                    0 <= i < before.len() && #[trigger] before[i].id == prev[j].ba_id && budget_ids(
                        before[i].budgets,
                    ).contains(prev[j].b_id->0);
                assert(all[i] == before[i]);
                if i == at {
                    assert(budget_ids(after[i].budgets).contains(prev[j].b_id->0));
                } else {
                    assert(after[i] == all[i]);
                }
                assert(after[i].id == rows[j].ba_id);
            } else {
                assert(rows[j] == last);
                assert(budget_of_row(last) is Some);
                assert(after[at].id == last.ba_id);
                assert(budget_ids(after[at].budgets).contains(last.b_id->0));
            }
        }
    }
}

/// The fields an account takes from its first row: all but its budgets and
/// transactions.
pub open spec fn same_header(a: BankAccountView, b: BankAccountView) -> bool {
    &&& a.id == b.id
    &&& a.name == b.name
    &&& a.description == b.description
    &&& a.visibility == b.visibility
    &&& a.starting_amount == b.starting_amount
    &&& a.start_date == b.start_date
}

/// Each account built from rows takes its name, description, visibility,
/// starting amount and start date from the first row of its id.
pub proof fn lemma_account_headers(rows: Seq<BankAccountEntity>)
    ensures
        forall|i: int|
            0 <= i < accounts_of_rows(rows).len() ==> same_header(
                #[trigger] accounts_of_rows(rows)[i],
                account_of_row(
                    rows[first_position(row_account_ids(rows), accounts_of_rows(rows)[i].id)],
                ),
            ),
    decreases rows.len(),
{
    if rows.len() > 0 {
        let prev = rows.drop_last();
        let last = rows.last();
        lemma_account_headers(prev);
        lemma_accounts_of_rows(prev);
        lemma_accounts_of_rows(rows);
        let before = accounts_of_rows(prev);
        let ids = account_ids(before);
        let rids = row_account_ids(prev);
        assert(row_account_ids(rows) =~= rids.push(last.ba_id));
        lemma_distinct_in_order(rids);
        lemma_first_position(ids, last.ba_id);
        let k = first_position(ids, last.ba_id);
        let all = if k < 0 {
            before.push(account_of_row(last))
        } else {
            before
        };
        let at = if k < 0 {
            before.len() as int
        } else {
            k
        };
        let mid = with_row_budget(all[at], last);
        lemma_with_row_budget_header(all[at], last);
        lemma_with_row_transaction_header(mid, last);
        let after = accounts_of_rows(rows);
        assert(after == all.update(at, with_row_transaction(mid, last)));
        assert forall|i: int| 0 <= i < after.len() implies same_header(
            #[trigger] after[i],
            account_of_row(rows[first_position(row_account_ids(rows), after[i].id)]),
        ) by {
            let x = after[i].id;
            lemma_first_position_push(rids, last.ba_id, x);
            if i < before.len() {
                assert(ids[i] == before[i].id);
                assert(after[i].id == before[i].id);
                assert(ids.contains(x));
                assert(rids.contains(x));
                let j = first_position(rids, x);
                lemma_first_position(rids, x);
                assert(rows[j] == prev[j]);
            } else {
                assert(k < 0);
                assert(after[i].id == last.ba_id);
                assert(!ids.contains(last.ba_id));
                assert(!rids.contains(last.ba_id));
                assert(rows[prev.len() as int] == last);
            }
        }
    }
}

proof fn lemma_with_row_budget_header(a: BankAccountView, row: BankAccountEntity)
    ensures
        same_header(with_row_budget(a, row), a),
{
}

proof fn lemma_with_row_transaction_header(a: BankAccountView, row: BankAccountEntity)
    ensures
        same_header(with_row_transaction(a, row), a),
{
}

/// The account ids of the accounts built from rows are pairwise distinct.
pub proof fn lemma_account_ids_distinct(rows: Seq<BankAccountEntity>)
    ensures
        account_ids(accounts_of_rows(rows)).no_duplicates(),
{
    lemma_accounts_of_rows(rows);
    lemma_distinct_in_order(row_account_ids(rows));
}

/// `distinct_in_order` holds no duplicate and exactly the values of `s`.
pub proof fn lemma_distinct_in_order(s: Seq<i32>)
    ensures
        distinct_in_order(s).no_duplicates(),
        forall|x: i32| distinct_in_order(s).contains(x) <==> s.contains(x),
    decreases s.len(),
{
    if s.len() > 0 {
        let before = distinct_in_order(s.drop_last());
        lemma_distinct_in_order(s.drop_last());
        if !before.contains(s.last()) {
            lemma_push_fresh(before, s.last());
        }
        assert forall|x: i32| distinct_in_order(s).contains(x) <==> s.contains(x) by {
            lemma_contains_push(s.drop_last(), s.last(), x);
            assert(s.drop_last().push(s.last()) =~= s);
            lemma_contains_push(before, s.last(), x);
        }
    }
}

/// What a sequence holds after a push.
proof fn lemma_contains_push(s: Seq<i32>, v: i32, x: i32)
    ensures
        s.push(v).contains(x) <==> (s.contains(x) || x == v),
{
    if s.contains(x) {
        let j = choose|j: int| 0 <= j < s.len() && s[j] == x;
        assert(s.push(v)[j] == x);
    }
    if x == v {
        assert(s.push(v)[s.len() as int] == x);
    }
    if s.push(v).contains(x) {
        let j = choose|j: int| 0 <= j < s.push(v).len() && s.push(v)[j] == x;
        if j < s.len() {
            assert(s[j] == x);
        }
    }
}

// ---------------------------------------------------------------------------
// Executable code
// ---------------------------------------------------------------------------

/// Reads the accounts of a user and their transactions of a month.
pub struct SqlxBankAccountReadRepository;

fn has_expense_id(v: &Vec<Expense>, id: i32) -> (r: bool)
    ensures
        r == expense_ids(v@).contains(id),
{
    let mut i: usize = 0;
    while i < v.len()
        invariant
            i <= v.len(),
            forall|j: int| 0 <= j < i ==> v@[j].id != id,
        decreases v.len() - i,
    {
        if v[i].id == id {
            proof {
                assert(expense_ids(v@)[i as int] == id);
            }
            return true;
        }
        i = i + 1;
    }
    proof {
        if expense_ids(v@).contains(id) {
            let j = choose|j: int| 0 <= j < expense_ids(v@).len() && expense_ids(v@)[j] == id;
            assert(v@[j].id == id);
        }
    }
    false
}

fn has_credit_id(v: &Vec<Credit>, id: i32) -> (r: bool)
    ensures
        r == credit_ids(v@).contains(id),
{
    let mut i: usize = 0;
    while i < v.len()
        invariant
            i <= v.len(),
            forall|j: int| 0 <= j < i ==> v@[j].id != id,
        decreases v.len() - i,
    {
        if v[i].id == id {
            proof {
                assert(credit_ids(v@)[i as int] == id);
            }
            return true;
        }
        i = i + 1;
    }
    proof {
        if credit_ids(v@).contains(id) {
            let j = choose|j: int| 0 <= j < credit_ids(v@).len() && credit_ids(v@)[j] == id;
            assert(v@[j].id == id);
        }
    }
    false
}

fn has_charge_id(v: &Vec<Charge>, id: i32) -> (r: bool)
    ensures
        r == charge_ids(v@).contains(id),
{
    let mut i: usize = 0;
    while i < v.len()
        invariant
            i <= v.len(),
            forall|j: int| 0 <= j < i ==> v@[j].id != id,
        decreases v.len() - i,
    {
        if v[i].id == id {
            proof {
                assert(charge_ids(v@)[i as int] == id);
            }
            return true;
        }
        i = i + 1;
    }
    proof {
        if charge_ids(v@).contains(id) {
            let j = choose|j: int| 0 <= j < charge_ids(v@).len() && charge_ids(v@)[j] == id;
            assert(v@[j].id == id);
        }
    }
    false
}

/// The position of the first budget with the id, if any.
fn find_budget(v: &Vec<Budget>, id: i32) -> (r: Option<usize>)
    ensures
        match r {
            Some(k) => k < v.len() && k as int == first_position(budget_ids(budget_views(v@)), id),
            None => first_position(budget_ids(budget_views(v@)), id) < 0,
        },
{
    let ghost ids = budget_ids(budget_views(v@));
    let mut i: usize = 0;
    while i < v.len()
        invariant
            i <= v.len(),
            ids == budget_ids(budget_views(v@)),
            ids.len() == v@.len(),
            forall|j: int| 0 <= j < i ==> ids[j] != id,
        decreases v.len() - i,
    {
        proof {
            assert(ids[i as int] == v@[i as int].id);
        }
        if v[i].id == id {
            proof {
                lemma_first_position_at(ids, id, i as int);
            }
            return Some(i);
        }
        i = i + 1;
    }
    proof {
        lemma_first_position_none(ids, id);
    }
    None
}

/// The position of the first account with the id, if any.
fn find_account(v: &Vec<BankAccount>, id: i32) -> (r: Option<usize>)
    ensures
        match r {
            Some(k) => k < v.len() && k as int == first_position(account_ids(account_views(v@)), id),
            None => first_position(account_ids(account_views(v@)), id) < 0,
        },
{
    let ghost ids = account_ids(account_views(v@));
    let mut i: usize = 0;
    while i < v.len()
        invariant
            i <= v.len(),
            ids == account_ids(account_views(v@)),
            ids.len() == v@.len(),
            forall|j: int| 0 <= j < i ==> ids[j] != id,
        decreases v.len() - i,
    {
        proof {
            assert(ids[i as int] == v@[i as int].id);
        }
        if v[i].id == id {
            proof {
                lemma_first_position_at(ids, id, i as int);
            }
            return Some(i);
        }
        i = i + 1;
    }
    proof {
        lemma_first_position_none(ids, id);
    }
    None
}

fn copy_date(d: &Option<CalendarDate>) -> (r: Option<CalendarDate>)
    ensures
        r == *d,
{
    match d {
        Some(x) => Some(*x),
        None => None,
    }
}

impl SqlxBankAccountReadRepository {
    /// The first and the last day of the filter's month.
    ///
    /// Fails with `InvalidDate` when the first day of the month does not exist
    /// (or lies outside chrono's years), and with `DateOverflow` when the first
    /// day of the next month cannot be represented.
    pub fn month_bounds(filter: &BankAccountFilter) -> (r: Result<(CalendarDate, CalendarDate), MonthBoundsError>)
        ensures
            !is_valid_date(filter.year as int, filter.month as int, 1) ==> r == Err::<
                (CalendarDate, CalendarDate),
                MonthBoundsError,
            >(MonthBoundsError::InvalidDate { year: filter.year, month: filter.month }),
            is_valid_date(filter.year as int, filter.month as int, 1) && filter.year == max_year()
                && filter.month == 12 ==> r == Err::<(CalendarDate, CalendarDate), MonthBoundsError>(
                MonthBoundsError::DateOverflow,
            ),
            is_valid_date(filter.year as int, filter.month as int, 1) && !(filter.year
                == max_year() && filter.month == 12) ==> r == Ok::<
                (CalendarDate, CalendarDate),
                MonthBoundsError,
            >(
                (
                    CalendarDate { year: filter.year, month: filter.month as u32, day: 1 },
                    CalendarDate {
                        year: filter.year,
                        month: filter.month as u32,
                        day: days_in_month(filter.year as int, filter.month as int) as u32,
                    },
                ),
            ),
    {
        let first_day = match calendar_date(filter.year, filter.month as u32, 1) {
            Some(d) => d,
            None => {
                return Err(MonthBoundsError::InvalidDate { year: filter.year, month: filter.month });
            },
        };
        let (next_year, next_month) = if filter.month == 12 {
            (filter.year + 1, 1u32)
        } else {
            (filter.year, filter.month as u32 + 1)
        };
        let next_first = match calendar_date(next_year, next_month, 1) {
            Some(d) => d,
            None => {
                return Err(MonthBoundsError::DateOverflow);
            },
        };
        let last_day = match previous_date(next_first) {
            Some(d) => d,
            None => {
                return Err(MonthBoundsError::DateOverflow);
            },
        };
        Ok((first_day, last_day))
    }

    /// The account a row describes, with no budget nor transaction yet.
    pub fn row_to_bank_account(row: &BankAccountEntity) -> (r: BankAccount)
        ensures
            r@ == account_of_row(*row),
    {
        let description = match &row.ba_description {
            Some(d) => d.clone(),
            None => String::new(),
        };
        let r = BankAccount {
            id: row.ba_id,
            name: row.ba_name.clone(),
            description,
            visibility: Visibility::Personal,
            starting_amount: row.ba_starting_amount,
            start_date: row.ba_start_date,
            budgets: Vec::new(),
            charges: Vec::new(),
            credits: Vec::new(),
            expenses: Vec::new(),
        };
        proof {
            assert(budget_views(r.budgets@) =~= Seq::<BudgetView>::empty());
        }
        r
    }

    /// The budget a row describes, when it describes one whole.
    pub fn row_to_budget(row: &BankAccountEntity) -> (r: Option<Budget>)
        ensures
            match r {
                Some(b) => budget_of_row(*row) == Some(b@),
                None => budget_of_row(*row) is None,
            },
    {
        match (&row.b_id, &row.b_name, &row.b_description, &row.b_start_date, &row.b_initial_amount) {
            (Some(b_id), Some(b_name), Some(b_desc), Some(b_start), Some(b_init)) => {
                let b = Budget {
                    id: *b_id,
                    name: b_name.clone(),
                    description: b_desc.clone(),
                    start_date: *b_start,
                    end_date: copy_date(&row.b_end_date),
                    initial_amount: *b_init,
                    expenses: Vec::new(),
                };
                proof {
                    assert(b@.expenses =~= Seq::<Expense>::empty());
                }
                Some(b)
            },
            _ => None,
        }
    }

    /// The expense of a transaction row.
    pub fn row_to_expense(
        row: &BankAccountEntity,
        id: i32,
        description: &String,
        amount: Decimal,
        start_date: &CalendarDate,
        end_date: &CalendarDate,
    ) -> (r: Expense)
        ensures
            r == (Expense {
                id,
                description: *description,
                amount,
                expense_date: *start_date,
                debit_date: *end_date,
            }),
    {
        Expense {
            id,
            description: description.clone(),
            amount,
            expense_date: *start_date,
            debit_date: *end_date,
        }
    }

    /// The credit of a transaction row.
    pub fn row_to_credit(id: i32, description: &String, amount: Decimal, date: &CalendarDate) -> (r: Credit)
        ensures
            r == (Credit { id, description: *description, amount, date: *date }),
    {
        Credit { id, description: description.clone(), amount, date: *date }
    }

    /// The charge of a transaction row: yearly when the row says `YEARLY`,
    /// monthly otherwise.
    pub fn row_to_charge(
        row: &BankAccountEntity,
        id: i32,
        description: &String,
        amount: Decimal,
        date: &CalendarDate,
    ) -> (r: Charge)
        ensures
            r == (Charge {
                id,
                description: *description,
                amount,
                date: *date,
                periodicity: periodicity_of(row.t_periodicity),
            }),
    {
        let periodicity = match &row.t_periodicity {
            Some(p) => if same_text(p.as_str(), "YEARLY") {
                Periodicity::Yearly
            } else {
                Periodicity::Monthly
            },
            None => Periodicity::Monthly,
        };
        Charge { id, description: description.clone(), amount, date: *date, periodicity }
    }

    /// Adds an expense to the first budget with the id, unless it has it.
    fn add_budget_expense(entry: &mut BankAccount, budget_id: i32, expense: Expense)
        ensures
            final(entry)@ == with_budget_expense(old(entry)@, budget_id, expense),
    {
        match find_budget(&entry.budgets, budget_id) {
            Some(k) => {
                proof {
                    assert(budget_views(entry.budgets@)[k as int] == entry.budgets@[k as int]@);
                }
                if !has_expense_id(&entry.budgets[k].expenses, expense.id) {
                    let ghost before = *entry;
                    entry.budgets[k].expenses.push(expense);
                    proof {
                        assert(budget_views(entry.budgets@) =~= budget_views(before.budgets@).update(
                            k as int,
                            BudgetView {
                                expenses: before.budgets@[k as int]@.expenses.push(expense),
                                ..before.budgets@[k as int]@
                            },
                        ));
                    }
                }
            },
            None => {},
        }
    }

    /// Adds the transaction of a row to its account: see `with_row_transaction`.
    pub fn add_transaction(row: &BankAccountEntity, entry: &mut BankAccount)
        ensures
            final(entry)@ == with_row_transaction(old(entry)@, *row),
    {
        if let (Some(t_id), Some(t_type_str), Some(t_desc), Some(t_amount), Some(t_start), Some(t_end)) =
            (&row.t_id, &row.t_type, &row.t_description, &row.t_amount, &row.t_start_date, &row.t_end_date) {
            if let Ok(t_type) = TransactionType::try_from(t_type_str.as_str()) {
                match t_type {
                    TransactionType::Expense => {
                        let expense = Self::row_to_expense(row, *t_id, t_desc, *t_amount, t_start, t_end);
                        if let Some(t_budget_id) = row.t_budget_id {
                            Self::add_budget_expense(entry, t_budget_id, expense);
                        } else {
                            if !has_expense_id(&entry.expenses, expense.id) {
                                entry.expenses.push(expense);
                            }
                        }
                    },
                    TransactionType::Budget => {
                        let expense = Self::row_to_expense(row, *t_id, t_desc, *t_amount, t_start, t_end);
                        if let Some(t_budget_id) = row.t_budget_id {
                            Self::add_budget_expense(entry, t_budget_id, expense);
                        }
                    },
                    TransactionType::Credit => {
                        let credit = Self::row_to_credit(*t_id, t_desc, *t_amount, t_start);
                        if !has_credit_id(&entry.credits, credit.id) {
                            entry.credits.push(credit);
                        }
                    },
                    TransactionType::Charge => {
                        let charge = Self::row_to_charge(row, *t_id, t_desc, *t_amount, t_start);
                        if !has_charge_id(&entry.charges, charge.id) {
                            entry.charges.push(charge);
                        }
                    },
                }
            }
        }
    }

    /// Adds the budget of a row to its account, unless the account has it.
    fn add_budget(row: &BankAccountEntity, entry: &mut BankAccount)
        ensures
            final(entry)@ == with_row_budget(old(entry)@, *row),
    {
        if let Some(budget) = Self::row_to_budget(row) {
            let ghost ids = budget_ids(budget_views(entry.budgets@));
            match find_budget(&entry.budgets, budget.id) {
                Some(_) => {
                    proof {
                        lemma_first_position(ids, budget.id);
                    }
                },
                None => {
                    proof {
                        lemma_first_position(ids, budget.id);
                    }
                    let ghost before = *entry;
                    entry.budgets.push(budget);
                    proof {
                        assert(budget_views(entry.budgets@) =~= budget_views(before.budgets@).push(
                            budget@,
                        ));
                    }
                },
            }
        }
    }

    /// The accounts the rows of the accounts query describe: one per account,
    /// in the order of their first rows, each with the budgets and the
    /// transactions of its rows (see `accounts_of_rows`).
    pub fn accounts_from_rows(rows: &Vec<BankAccountEntity>) -> (r: Vec<BankAccount>)
        ensures
            account_views(r@) == accounts_of_rows(rows@),
    {
        let mut accounts: Vec<BankAccount> = Vec::new();
        let mut i: usize = 0;
        proof {
            assert(rows@.take(0) =~= Seq::<BankAccountEntity>::empty());
            assert(account_views(accounts@) =~= Seq::<BankAccountView>::empty());
        }
        while i < rows.len()
            invariant
                i <= rows.len(),
                account_views(accounts@) == accounts_of_rows(rows@.take(i as int)),
            decreases rows.len() - i,
        {
            let row = &rows[i];
            let ghost before = account_views(accounts@);
            proof {
                assert(rows@.take(i + 1).drop_last() =~= rows@.take(i as int));
                assert(rows@.take(i + 1).last() == *row);
            }
            let k = match find_account(&accounts, row.ba_id) {
                Some(k) => k,
                None => {
                    let account = Self::row_to_bank_account(row);
                    accounts.push(account);
                    proof {
                        assert(account_views(accounts@) =~= before.push(account_of_row(*row)));
                    }
                    accounts.len() - 1
                },
            };
            let ghost all = account_views(accounts@);
            proof {
                assert(all[k as int] == accounts@[k as int]@);
            }
            Self::add_budget(row, &mut accounts[k]);
            let ghost mid = account_views(accounts@);
            proof {
                assert(mid =~= all.update(k as int, with_row_budget(all[k as int], *row)));
                assert(mid[k as int] == accounts@[k as int]@);
            }
            Self::add_transaction(row, &mut accounts[k]);
            proof {
                assert(account_views(accounts@) =~= mid.update(
                    k as int,
                    with_row_transaction(mid[k as int], *row),
                ));
                assert(account_views(accounts@) == with_row(before, *row));
            }
            i = i + 1;
        }
        proof {
            assert(rows@.take(rows@.len() as int) =~= rows@);
        }
        accounts
    }
}

} // verus!
