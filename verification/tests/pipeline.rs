use bank2ledger::bank2ledger::Bank2Ledger;
use bank2ledger::bank2ledger::RowOutcome;
use bank2ledger::dates::Date;
use bank2ledger::errors::RowError;
use bank2ledger::ledger_record::LedgerRecord;
use bank2ledger::settings::LedgerRecordToRow;
use bank2ledger::settings::Mapping;
use bank2ledger::settings::SecondAccountHintMapping;
use bank2ledger::settings::Settings;

fn base_settings() -> Settings {
    Settings {
        default_first_account: "Assets:Bank".to_string(),
        default_second_account: "Expenses:Unknown".to_string(),
        csv_has_headers: true,
        date_format: "%d/%m/%Y".to_string(),
        date_regex: "[0-9]{2}/[0-9]{2}/[0-9]{4}".to_string(),
        first_amount_currency_default: "GBP".to_string(),
        ledger_record_to_row: LedgerRecordToRow {
            date: 0,
            payee: 1,
            second_account_hint: vec![1],
            first_amount: 2,
            first_amount_debit: None,
            first_amount_currency: None,
            comment: None,
            first_account_hint: None,
        },
        exclude_conditions: vec![],
        second_account_hint_mapping: SecondAccountHintMapping { expense: vec![], income: vec![] },
        minus_indicates_expense: None,
        delimiter: None,
        first_account_hint_mapping: None,
    }
}

fn engine(settings: Settings) -> Bank2Ledger {
    Bank2Ledger::new(settings, "transactions.csv".to_string())
}

fn row(fields: &[&str]) -> Vec<String> {
    fields.iter().map(|f| f.to_string()).collect()
}

fn mapping(key: &str, value: &str) -> Mapping {
    Mapping { key: key.to_string(), value: value.to_string() }
}

fn grocery_tables() -> SecondAccountHintMapping {
    SecondAccountHintMapping {
        expense: vec![mapping("SALARY", "Income:Job"), mapping("TESCO", "Expenses:Groceries")],
        income: vec![],
    }
}

#[test]
fn date_is_extracted_and_parsed() {
    let b = engine(base_settings());
    let d = b.get_date(&row(&["29/07/2023", "p", "1"])).unwrap();
    assert_eq!(d, Date { year: 2023, month: 7, day: 29 });
}

#[test]
fn date_regex_tolerates_surrounding_text() {
    let b = engine(base_settings());
    let d = b.get_date(&row(&["  29/07/2023 00:13:22  ", "p", "1"])).unwrap();
    assert_eq!(d, Date { year: 2023, month: 7, day: 29 });
}

#[test]
fn date_without_match_is_an_error() {
    let b = engine(base_settings());
    assert_eq!(b.get_date(&row(&["no digits here", "p", "1"])), Err(RowError::DateNoMatch));
}

#[test]
fn impossible_date_is_an_error() {
    let b = engine(base_settings());
    assert_eq!(b.get_date(&row(&["31/02/2023", "p", "1"])), Err(RowError::DateInvalid));
}

#[test]
fn bad_date_regex_is_an_error() {
    let mut settings = base_settings();
    settings.date_regex = "(".to_string();
    let b = engine(settings);
    assert_eq!(b.get_date(&row(&["29/07/2023", "p", "1"])), Err(RowError::PatternInvalid));
}

#[test]
fn date_column_beyond_row_is_an_error() {
    let mut settings = base_settings();
    settings.ledger_record_to_row.date = 4;
    let b = engine(settings);
    assert_eq!(
        b.get_date(&row(&["a", "b", "c"])),
        Err(RowError::ColumnOutOfRange { column: 4 })
    );
}

#[test]
fn first_regex_match_wins_classification() {
    let mut settings = base_settings();
    settings.second_account_hint_mapping = grocery_tables();
    let b = engine(settings);
    let (account, warning) = b
        .get_second_account(&row(&["d", "TESCO EXPRESS 123", "-5.00"]))
        .unwrap();
    assert_eq!(account, "Expenses:Groceries");
    assert!(warning.is_none());
}

#[test]
fn classification_is_case_insensitive() {
    let mut settings = base_settings();
    settings.second_account_hint_mapping = grocery_tables();
    let b = engine(settings);
    let (account, _) = b
        .get_second_account(&row(&["d", "tesco express", "-5.00"]))
        .unwrap();
    assert_eq!(account, "Expenses:Groceries");
}

#[test]
fn unmatched_hint_falls_back_with_observable_warning() {
    let mut settings = base_settings();
    settings.second_account_hint_mapping = grocery_tables();
    let b = engine(settings);
    let (account, warning) = b
        .get_second_account(&row(&["d", "UNKNOWN VENDOR", "-9.99"]))
        .unwrap();
    assert_eq!(account, "Expenses:Unknown");
    let warning = warning.unwrap();
    assert_eq!(warning.hint, "UNKNOWN VENDOR");
    assert!(warning.treated_as_expense);
    assert_eq!(warning.amount, "-9.99");
}

#[test]
fn income_row_matching_expense_rule_gets_expense_account() {
    let mut settings = base_settings();
    settings.second_account_hint_mapping = SecondAccountHintMapping {
        expense: vec![mapping("TESCO", "Expenses:Groceries")],
        income: vec![mapping("SALARY", "Income:Job")],
    };
    let b = engine(settings);
    // A positive amount under the default convention is income: a refund from
    // a normal expense vendor still lands on the vendor's expense account.
    let (account, warning) = b
        .get_second_account(&row(&["d", "TESCO REFUND", "5.00"]))
        .unwrap();
    assert_eq!(account, "Expenses:Groceries");
    assert!(warning.is_none());
}

#[test]
fn income_row_consults_income_table_after_expense_table() {
    let mut settings = base_settings();
    settings.second_account_hint_mapping = SecondAccountHintMapping {
        expense: vec![mapping("TESCO", "Expenses:Groceries")],
        income: vec![mapping("SALARY", "Income:Job")],
    };
    let b = engine(settings);
    let (account, _) = b
        .get_second_account(&row(&["d", "ACME SALARY JULY", "1000.00"]))
        .unwrap();
    assert_eq!(account, "Income:Job");
}

#[test]
fn expense_row_never_consults_income_table() {
    let mut settings = base_settings();
    settings.second_account_hint_mapping = SecondAccountHintMapping {
        expense: vec![],
        income: vec![mapping("SALARY", "Income:Job")],
    };
    let b = engine(settings);
    let (account, warning) = b
        .get_second_account(&row(&["d", "SALARY GIFT", "-10.00"]))
        .unwrap();
    assert_eq!(account, "Expenses:Unknown");
    assert!(warning.is_some());
}

#[test]
fn bad_classification_pattern_is_an_error() {
    let mut settings = base_settings();
    settings.second_account_hint_mapping = SecondAccountHintMapping {
        expense: vec![mapping("(", "Expenses:Broken")],
        income: vec![],
    };
    let b = engine(settings);
    match b.get_second_account(&row(&["d", "anything", "-1.00"])) {
        Err(e) => assert_eq!(e, RowError::PatternInvalid),
        Ok(_) => panic!("a broken pattern must not classify"),
    }
}

#[test]
fn first_account_hint_classifies_when_configured() {
    let mut settings = base_settings();
    settings.ledger_record_to_row.first_account_hint = Some(vec![3]);
    settings.first_account_hint_mapping = Some(vec![mapping("MONZO", "Assets:Bank:Monzo")]);
    let b = engine(settings);
    assert_eq!(
        b.get_first_account(&row(&["d", "p", "1", "monzo current"])).unwrap(),
        "Assets:Bank:Monzo"
    );
    assert_eq!(
        b.get_first_account(&row(&["d", "p", "1", "other bank"])).unwrap(),
        "Assets:Bank"
    );
}

#[test]
fn hint_columns_join_with_single_spaces() {
    let mut settings = base_settings();
    settings.ledger_record_to_row.second_account_hint = vec![1, 3];
    settings.second_account_hint_mapping = SecondAccountHintMapping {
        expense: vec![mapping("^CROWN CAFE$", "Expenses:EatingOut")],
        income: vec![],
    };
    let b = engine(settings);
    let (account, _) = b
        .get_second_account(&row(&["d", "CROWN", "-1.00", "CAFE"]))
        .unwrap();
    assert_eq!(account, "Expenses:EatingOut");
}

#[test]
fn first_account_defaults_without_hint_columns() {
    let b = engine(base_settings());
    assert_eq!(b.get_first_account(&row(&["d", "p", "1"])).unwrap(), "Assets:Bank");
}

#[test]
fn end_to_end_row_renders_expected_entry() {
    let b = engine(base_settings());
    let r = row(&["29/07/2023", "Crown Cafe Bar", "-13.30"]);
    match b.process_row(&r).unwrap() {
        RowOutcome::Entry { record, warning } => {
            assert!(warning.is_some());
            assert_eq!(
                record.render(),
                "2023-07-29 * \"Crown Cafe Bar\"\n        Assets:Bank        -13.30 GBP\n        Expenses:Unknown\n\n"
            );
        },
        RowOutcome::Excluded => panic!("row must not be excluded"),
    }
}

#[test]
fn end_to_end_entry_with_comment_and_match() {
    let mut settings = base_settings();
    settings.second_account_hint_mapping = grocery_tables();
    settings.ledger_record_to_row.comment = Some(vec![1]);
    let b = engine(settings);
    let r = row(&["01/02/2023", "TESCO STORES", "-8.00"]);
    match b.process_row(&r).unwrap() {
        RowOutcome::Entry { record, warning } => {
            assert!(warning.is_none());
            assert_eq!(
                record.render(),
                "2023-02-01 * \"TESCO STORES\"\n        ; TESCO STORES | \n        Assets:Bank        -8.00 GBP\n        Expenses:Groceries\n\n"
            );
        },
        RowOutcome::Excluded => panic!("row must not be excluded"),
    }
}

#[test]
fn render_pads_month_and_day() {
    let record = LedgerRecord::new(
        Date { year: 987, month: 3, day: 5 },
        "Payee".to_string(),
        "Assets:Bank".to_string(),
        "-1.00".to_string(),
        "GBP".to_string(),
        "Expenses:Unknown".to_string(),
        None,
    );
    assert_eq!(
        record.render(),
        "0987-03-05 * \"Payee\"\n        Assets:Bank        -1.00 GBP\n        Expenses:Unknown\n\n"
    );
}

#[test]
fn render_year_beyond_9999_gets_explicit_plus() {
    let record = LedgerRecord::new(
        Date { year: 10000, month: 12, day: 31 },
        "Far".to_string(),
        "Assets:Bank".to_string(),
        "-1.00".to_string(),
        "GBP".to_string(),
        "Expenses:Unknown".to_string(),
        None,
    );
    assert!(record.render().starts_with("+10000-12-31 * \"Far\""));
}

#[test]
fn render_negative_year_keeps_sign() {
    let record = LedgerRecord::new(
        Date { year: -44, month: 3, day: 15 },
        "Forum".to_string(),
        "Assets:Bank".to_string(),
        "-1.00".to_string(),
        "GBP".to_string(),
        "Expenses:Unknown".to_string(),
        None,
    );
    assert!(record.render().starts_with("-0044-03-15 * \"Forum\""));
}
