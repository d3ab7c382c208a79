use navigator::domains::bank_account::{
    is_readable_month_text, BankAccount, BankAccountEntity, BankAccountFilter, Budget, Charge, Credit, Expense,
    MonthBoundsError, RequestFilter, SqlxBankAccountReadRepository, TransactionType,
};
use navigator::domains::common::dates::CalendarDate;
use navigator::domains::common::visibility::{Periodicity, Visibility};
use rust_decimal::Decimal;

fn date(year: i32, month: u32, day: u32) -> CalendarDate {
    CalendarDate { year, month, day }
}

fn account_row(ba_id: i32, name: &str) -> BankAccountEntity {
    BankAccountEntity {
        ba_id,
        ba_name: name.to_string(),
        ba_description: None,
        ba_starting_amount: Decimal::from(1000),
        ba_start_date: date(2024, 1, 1),
        b_id: None,
        b_name: None,
        b_description: None,
        b_start_date: None,
        b_end_date: None,
        b_initial_amount: None,
        t_id: None,
        t_type: None,
        t_description: None,
        t_amount: None,
        t_start_date: None,
        t_end_date: None,
        t_periodicity: None,
        t_budget_id: None,
    }
}

fn with_budget(mut row: BankAccountEntity, id: i32, name: &str, description: &str, amount: i64) -> BankAccountEntity {
    row.b_id = Some(id);
    row.b_name = Some(name.to_string());
    row.b_description = Some(description.to_string());
    row.b_start_date = Some(date(2026, 3, 15));
    row.b_initial_amount = Some(Decimal::from(amount));
    row
}

fn with_transaction(
    mut row: BankAccountEntity,
    id: i32,
    kind: &str,
    description: &str,
    amount: i64,
    budget_id: Option<i32>,
    periodicity: Option<&str>,
) -> BankAccountEntity {
    row.t_id = Some(id);
    row.t_type = Some(kind.to_string());
    row.t_description = Some(description.to_string());
    row.t_amount = Some(Decimal::from(amount));
    row.t_start_date = Some(date(2026, 3, 15));
    row.t_end_date = Some(date(2026, 3, 15));
    row.t_budget_id = budget_id;
    row.t_periodicity = periodicity.map(|p| p.to_string());
    row
}

#[test]
fn should_map_request_filter_to_bank_account_filter() {
    let request = RequestFilter {
        date: "2026-03".to_string(),
    };

    let filter = request.to_bank_account_filter();

    assert_eq!(filter.year, 2026);
    assert_eq!(filter.month, 3);
}

#[test]
fn readable_months() {
    assert!(is_readable_month_text(&"2026-03".to_string()));
    assert!(!is_readable_month_text(&"2026".to_string()));
    assert!(!is_readable_month_text(&"2026-300".to_string()));
    assert!(!is_readable_month_text(&"-2026-03".to_string()));
    assert!(is_readable_month_text(&"-5-1-x".to_string()) == false);
}

#[test]
fn request_filter_reads_signed_year_and_ignores_extra_pieces() {
    let request = RequestFilter { date: "+2025-12-01".to_string() };
    let filter = request.to_bank_account_filter();
    assert_eq!(filter, BankAccountFilter { month: 12, year: 2025 });
}

#[test]
fn test_get_accounts_with_transactions_filtered_by_month() {
    // The rows the accounts query returns for March 2026: one account, its
    // budget on every row, and the four transactions of the month.
    let base = || with_budget(account_row(1, "Main"), 7, "Food", "Food budget", 300);
    let rows = vec![
        with_transaction(base(), 1, "EXPENSE", "Rent", 500, None, None),
        with_transaction(base(), 2, "CREDIT", "Salary", 2000, None, None),
        with_transaction(base(), 3, "CHARGE", "Netflix", 15, None, Some("MONTHLY")),
        with_transaction(base(), 4, "BUDGET", "Groceries", 50, Some(7), None),
    ];

    let accounts = SqlxBankAccountReadRepository::accounts_from_rows(&rows);

    assert_eq!(accounts.len(), 1);
    let march_15 = date(2026, 3, 15);
    let expected_account = BankAccount {
        id: 1,
        name: "Main".to_string(),
        description: "".to_string(),
        visibility: Visibility::Personal,
        starting_amount: Decimal::from(1000),
        start_date: date(2024, 1, 1),
        budgets: vec![Budget {
            id: 7,
            name: "Food".to_string(),
            description: "Food budget".to_string(),
            start_date: march_15,
            end_date: None,
            initial_amount: Decimal::from(300),
            expenses: vec![Expense {
                id: 4,
                description: "Groceries".to_string(),
                amount: Decimal::from(50),
                expense_date: march_15,
                debit_date: march_15,
            }],
        }],
        charges: vec![Charge {
            id: 3,
            description: "Netflix".to_string(),
            amount: Decimal::from(15),
            date: march_15,
            periodicity: Periodicity::Monthly,
        }],
        credits: vec![Credit {
            id: 2,
            description: "Salary".to_string(),
            amount: Decimal::from(2000),
            date: march_15,
        }],
        expenses: vec![Expense {
            id: 1,
            description: "Rent".to_string(),
            amount: Decimal::from(500),
            expense_date: march_15,
            debit_date: march_15,
        }],
    };
    assert_eq!(accounts[0], expected_account);
}

#[test]
fn test_get_accounts_returns_empty_list_when_no_accounts() {
    let accounts = SqlxBankAccountReadRepository::accounts_from_rows(&vec![]);
    assert!(accounts.is_empty());
}

#[test]
fn accounts_come_once_each_in_first_row_order() {
    let rows = vec![
        account_row(5, "Second"),
        account_row(2, "First"),
        account_row(5, "Second again"),
        account_row(9, "Third"),
        account_row(2, "First again"),
    ];
    let accounts = SqlxBankAccountReadRepository::accounts_from_rows(&rows);
    let ids: Vec<i32> = accounts.iter().map(|a| a.id).collect();
    assert_eq!(ids, vec![5, 2, 9]);
    assert_eq!(accounts[0].name, "Second");
    assert_eq!(accounts[1].name, "First");
}

#[test]
fn repeated_transactions_and_budgets_are_kept_once() {
    let row = || {
        with_transaction(
            with_budget(account_row(1, "Main"), 7, "Food", "Food budget", 300),
            4,
            "EXPENSE",
            "Groceries",
            50,
            Some(7),
            None,
        )
    };
    let accounts = SqlxBankAccountReadRepository::accounts_from_rows(&vec![row(), row(), row()]);
    assert_eq!(accounts.len(), 1);
    assert_eq!(accounts[0].budgets.len(), 1);
    assert_eq!(accounts[0].budgets[0].expenses.len(), 1);
    assert!(accounts[0].expenses.is_empty());
}

#[test]
fn budget_transaction_without_budget_and_unknown_types_are_dropped() {
    let rows = vec![
        with_transaction(account_row(1, "Main"), 1, "BUDGET", "Lost", 10, None, None),
        with_transaction(account_row(1, "Main"), 2, "REFUND", "Unknown", 10, None, None),
        with_transaction(account_row(1, "Main"), 3, "EXPENSE", "To a missing budget", 10, Some(99), None),
    ];
    let accounts = SqlxBankAccountReadRepository::accounts_from_rows(&rows);
    assert_eq!(accounts.len(), 1);
    assert!(accounts[0].expenses.is_empty());
    assert!(accounts[0].budgets.is_empty());
    assert!(accounts[0].credits.is_empty());
    assert!(accounts[0].charges.is_empty());
}

#[test]
fn incomplete_transaction_rows_add_nothing() {
    let mut row = with_transaction(account_row(1, "Main"), 1, "CREDIT", "Salary", 10, None, None);
    row.t_end_date = None;
    let accounts = SqlxBankAccountReadRepository::accounts_from_rows(&vec![row]);
    assert!(accounts[0].credits.is_empty());
}

#[test]
fn yearly_charges_are_read_as_yearly() {
    let row = with_transaction(account_row(1, "Main"), 1, "CHARGE", "Insurance", 120, None, Some("YEARLY"));
    let accounts = SqlxBankAccountReadRepository::accounts_from_rows(&vec![row]);
    assert_eq!(accounts[0].charges[0].periodicity, Periodicity::Yearly);
}

#[test]
fn account_description_defaults_to_empty() {
    let mut row = account_row(3, "Joint");
    row.ba_description = Some("Shared costs".to_string());
    let described = SqlxBankAccountReadRepository::row_to_bank_account(&row);
    assert_eq!(described.description, "Shared costs");
    let bare = SqlxBankAccountReadRepository::row_to_bank_account(&account_row(3, "Joint"));
    assert_eq!(bare.description, "");
    assert_eq!(bare.visibility, Visibility::Personal);
}

#[test]
fn budget_needs_all_its_columns() {
    let mut row = with_budget(account_row(1, "Main"), 7, "Food", "Food budget", 300);
    assert!(SqlxBankAccountReadRepository::row_to_budget(&row).is_some());
    row.b_description = None;
    assert!(SqlxBankAccountReadRepository::row_to_budget(&row).is_none());
}

#[test]
fn month_bounds_of_march() {
    let bounds = SqlxBankAccountReadRepository::month_bounds(&BankAccountFilter { month: 3, year: 2026 });
    assert_eq!(bounds, Ok((date(2026, 3, 1), date(2026, 3, 31))));
}

#[test]
fn month_bounds_of_february_in_leap_and_common_years() {
    let leap = SqlxBankAccountReadRepository::month_bounds(&BankAccountFilter { month: 2, year: 2024 });
    assert_eq!(leap, Ok((date(2024, 2, 1), date(2024, 2, 29))));
    let common = SqlxBankAccountReadRepository::month_bounds(&BankAccountFilter { month: 2, year: 1900 });
    assert_eq!(common, Ok((date(1900, 2, 1), date(1900, 2, 28))));
}

#[test]
fn month_bounds_of_december_cross_the_year() {
    let bounds = SqlxBankAccountReadRepository::month_bounds(&BankAccountFilter { month: 12, year: 2025 });
    assert_eq!(bounds, Ok((date(2025, 12, 1), date(2025, 12, 31))));
}

#[test]
fn month_bounds_refuse_an_invalid_month() {
    let bounds = SqlxBankAccountReadRepository::month_bounds(&BankAccountFilter { month: 13, year: 2026 });
    let err = bounds.unwrap_err();
    assert_eq!(err, MonthBoundsError::InvalidDate { year: 2026, month: 13 });
    assert_eq!(err.message(), "invalid date: year=2026, month=13");
    let negative = MonthBoundsError::InvalidDate { year: -5, month: 0 };
    assert_eq!(negative.message(), "invalid date: year=-5, month=0");
}

#[test]
fn month_bounds_overflow_after_the_last_year() {
    let bounds = SqlxBankAccountReadRepository::month_bounds(&BankAccountFilter { month: 12, year: 262142 });
    assert_eq!(bounds, Err(MonthBoundsError::DateOverflow));
    assert_eq!(MonthBoundsError::DateOverflow.message(), "date overflow");
    let out_of_range = SqlxBankAccountReadRepository::month_bounds(&BankAccountFilter { month: 1, year: 400000 });
    assert_eq!(out_of_range, Err(MonthBoundsError::InvalidDate { year: 400000, month: 1 }));
}

#[test]
fn transaction_types_round_trip_through_their_text() {
    for t in [TransactionType::Expense, TransactionType::Charge, TransactionType::Credit, TransactionType::Budget] {
        assert_eq!(TransactionType::try_from(t.to_string().as_str()), Ok(t));
    }
    assert_eq!(TransactionType::Expense.to_string(), "EXPENSE");
    assert_eq!(TransactionType::Budget.to_string(), "BUDGET");
    assert_eq!(TransactionType::try_from("expense"), Err(()));
    assert_eq!(TransactionType::try_from(""), Err(()));
}

#[test]
fn visibility_texts() {
    assert_eq!(Visibility::Shared.to_string(), "SHARED");
    assert_eq!(Visibility::Personal.to_string(), "PERSONAL");
}

#[test]
fn adding_the_same_transaction_twice_keeps_it_once() {
    let mut account = SqlxBankAccountReadRepository::row_to_bank_account(&account_row(1, "Main"));
    let credit = with_transaction(account_row(1, "Main"), 10, "CREDIT", "salary", 2000, None, None);
    SqlxBankAccountReadRepository::add_transaction(&credit, &mut account);
    SqlxBankAccountReadRepository::add_transaction(&credit, &mut account);
    assert_eq!(account.credits.len(), 1);
    assert_eq!(account.credits[0].id, 10);
    let charge = with_transaction(account_row(1, "Main"), 11, "CHARGE", "rent", 800, None, Some("YEARLY"));
    SqlxBankAccountReadRepository::add_transaction(&charge, &mut account);
    SqlxBankAccountReadRepository::add_transaction(&charge, &mut account);
    assert_eq!(account.charges.len(), 1);
    let expense = with_transaction(account_row(1, "Main"), 12, "EXPENSE", "bread", 3, None, None);
    SqlxBankAccountReadRepository::add_transaction(&expense, &mut account);
    SqlxBankAccountReadRepository::add_transaction(&expense, &mut account);
    assert_eq!(account.expenses.len(), 1);
    assert_eq!(account.expenses[0].description, "bread");
}
