use bank2ledger::bank2ledger::Bank2Ledger;
use bank2ledger::errors::RowError;
use bank2ledger::settings::ExcludeCondition;
use bank2ledger::settings::LedgerRecordToRow;
use bank2ledger::settings::SecondAccountHintMapping;
use bank2ledger::settings::Settings;

fn base_settings() -> Settings {
    Settings {
        default_first_account: "Assets:Bank".to_string(),
        default_second_account: "Expenses:Unknown".to_string(),
        csv_has_headers: true,
        date_format: "%d/%m/%Y".to_string(),
        date_regex: "[0-9]{2}/[0-9]{2}/[0-9]{4}".to_string(),
        first_amount_currency_default: "GBP".to_string(),
        ledger_record_to_row: LedgerRecordToRow {
            date: 0,
            payee: 1,
            second_account_hint: vec![1],
            first_amount: 2,
            first_amount_debit: None,
            first_amount_currency: None,
            comment: None,
            first_account_hint: None,
        },
        exclude_conditions: vec![],
        second_account_hint_mapping: SecondAccountHintMapping { expense: vec![], income: vec![] },
        minus_indicates_expense: None,
        delimiter: None,
        first_account_hint_mapping: None,
    }
}

fn engine(settings: Settings) -> Bank2Ledger {
    Bank2Ledger::new(settings, "transactions.csv".to_string())
}

fn row(fields: &[&str]) -> Vec<String> {
    fields.iter().map(|f| f.to_string()).collect()
}

#[test]
fn contains_rule_excludes_matching_row() {
    let mut settings = base_settings();
    settings.exclude_conditions = vec![ExcludeCondition::ColumnContainsValue {
        column: 1,
        value: "Cafe".to_string(),
        operation: "contains".to_string(),
    }];
    let b = engine(settings);
    let r = row(&["29/07/2023", "Crown Cafe Bar", "-13.30"]);
    assert_eq!(b.should_exclude(&r), Ok(true));
    assert!(matches!(
        b.process_row(&r),
        Ok(bank2ledger::bank2ledger::RowOutcome::Excluded)
    ));
}

#[test]
fn contains_rule_keeps_other_rows() {
    let mut settings = base_settings();
    settings.exclude_conditions = vec![ExcludeCondition::ColumnContainsValue {
        column: 1,
        value: "Cafe".to_string(),
        operation: "contains".to_string(),
    }];
    let b = engine(settings);
    let r = row(&["29/07/2023", "Grocer", "-13.30"]);
    assert_eq!(b.should_exclude(&r), Ok(false));
}

#[test]
fn equal_rule_wants_exact_match() {
    let mut settings = base_settings();
    settings.exclude_conditions = vec![ExcludeCondition::ColumnContainsValue {
        column: 1,
        value: "Crown Cafe".to_string(),
        operation: "equal".to_string(),
    }];
    let b = engine(settings);
    assert_eq!(b.should_exclude(&row(&["x", "Crown Cafe", "1"])), Ok(true));
    assert_eq!(b.should_exclude(&row(&["x", "Crown Cafe Bar", "1"])), Ok(false));
}

#[test]
fn record_len_rule_excludes_by_width_alone() {
    let mut settings = base_settings();
    settings.exclude_conditions = vec![ExcludeCondition::RecordLen(3)];
    let b = engine(settings);
    assert_eq!(b.should_exclude(&row(&["anything", "at", "all"])), Ok(true));
    assert_eq!(b.should_exclude(&row(&["four", "fields", "wide", "row"])), Ok(false));
}

#[test]
fn exclusion_rules_are_or_combined_in_order() {
    let mut settings = base_settings();
    settings.exclude_conditions = vec![
        ExcludeCondition::RecordLen(7),
        ExcludeCondition::ColumnContainsValue {
            column: 0,
            value: "skip".to_string(),
            operation: "contains".to_string(),
        },
    ];
    let b = engine(settings);
    assert_eq!(b.should_exclude(&row(&["skip me", "x", "y"])), Ok(true));
    assert_eq!(b.should_exclude(&row(&["keep", "x", "y"])), Ok(false));
}

#[test]
fn unknown_exclusion_operation_never_matches() {
    let mut settings = base_settings();
    settings.exclude_conditions = vec![ExcludeCondition::ColumnContainsValue {
        column: 1,
        value: "Cafe".to_string(),
        operation: "startswith".to_string(),
    }];
    let b = engine(settings);
    assert_eq!(b.should_exclude(&row(&["x", "Cafe", "1"])), Ok(false));
}

#[test]
fn exclusion_rule_column_beyond_row_is_an_error() {
    let mut settings = base_settings();
    settings.exclude_conditions = vec![ExcludeCondition::ColumnContainsValue {
        column: 5,
        value: "x".to_string(),
        operation: "contains".to_string(),
    }];
    let b = engine(settings);
    assert_eq!(b.should_exclude(&row(&["a", "b", "c"])), Err(RowError::ColumnOutOfRange { column: 5 }));
}

#[test]
fn satisfied_rule_wins_over_later_bad_column() {
    let mut settings = base_settings();
    settings.exclude_conditions = vec![
        ExcludeCondition::RecordLen(3),
        ExcludeCondition::ColumnContainsValue {
            column: 9,
            value: "x".to_string(),
            operation: "contains".to_string(),
        },
    ];
    let b = engine(settings);
    assert_eq!(b.should_exclude(&row(&["a", "b", "c"])), Ok(true));
}

#[test]
fn credit_field_keeps_its_sign_when_debit_blank() {
    let mut settings = base_settings();
    settings.ledger_record_to_row.first_amount_debit = Some(3);
    let b = engine(settings);
    let r = row(&["29/07/2023", "Shop", "42.10", ""]);
    assert_eq!(b.get_first_amount(&r).unwrap(), "42.10");
}

#[test]
fn populated_debit_field_becomes_negative_amount() {
    let mut settings = base_settings();
    settings.ledger_record_to_row.first_amount_debit = Some(3);
    let b = engine(settings);
    let r = row(&["29/07/2023", "Shop", "", "15.00"]);
    assert_eq!(b.get_first_amount(&r).unwrap(), "-15.00");
}

#[test]
fn populated_debit_field_with_minus_turns_positive() {
    let mut settings = base_settings();
    settings.ledger_record_to_row.first_amount_debit = Some(3);
    let b = engine(settings);
    let r = row(&["29/07/2023", "Shop", "", "-15.00"]);
    assert_eq!(b.get_first_amount(&r).unwrap(), "15.00");
}

#[test]
fn single_field_flip_touches_only_the_leading_sign() {
    let b = engine(base_settings());
    let flipped = b
        .get_first_amount_single_field(&row(&["12.34"]), 0, Some(false))
        .unwrap();
    assert_eq!(flipped, "-12.34");
    let back = b
        .get_first_amount_single_field(&row(&["-12.34"]), 0, Some(false))
        .unwrap();
    assert_eq!(back, "12.34");
}

#[test]
fn canonical_form_is_fixed_under_expense_convention() {
    let b = engine(base_settings());
    let flipped = b
        .get_first_amount_single_field(&row(&["12.34"]), 0, Some(false))
        .unwrap();
    let again = b
        .get_first_amount_single_field(&vec![flipped.clone()], 0, Some(true))
        .unwrap();
    assert_eq!(again, flipped);
    let once_more = b
        .get_first_amount_single_field(&vec![flipped.clone()], 0, None)
        .unwrap();
    assert_eq!(once_more, flipped);
}

#[test]
fn amount_is_trimmed_and_dollar_stripped() {
    let b = engine(base_settings());
    assert_eq!(
        b.get_first_amount_single_field(&row(&["  $42.10  "]), 0, None).unwrap(),
        "42.10"
    );
    assert_eq!(
        b.get_first_amount_single_field(&row(&["$1$2"]), 0, Some(true)).unwrap(),
        "12"
    );
}

#[test]
fn amount_column_beyond_row_is_an_error() {
    let b = engine(base_settings());
    assert_eq!(
        b.get_first_amount(&row(&["only", "two"])),
        Err(RowError::ColumnOutOfRange { column: 2 })
    );
}

#[test]
fn sign_conventions_decide_polarity() {
    let mut settings = base_settings();
    settings.minus_indicates_expense = Some(true);
    let b = engine(settings);
    assert!(b.is_amount_expense("-5.00"));
    assert!(!b.is_amount_expense("5.00"));

    let mut settings = base_settings();
    settings.minus_indicates_expense = Some(false);
    let b = engine(settings);
    assert!(!b.is_amount_expense("-5.00"));
    assert!(b.is_amount_expense("5.00"));

    let b = engine(base_settings());
    assert!(b.is_amount_expense("-5.00"));
    assert!(!b.is_amount_expense("5.00"));
    assert!(!b.is_amount_expense(""));
}

#[test]
fn debit_column_presence_decides_polarity() {
    let mut settings = base_settings();
    settings.ledger_record_to_row.first_amount_debit = Some(3);
    let b = engine(settings);
    assert_eq!(b.is_record_expense(&row(&["d", "p", "42.10", "15.00"])), Ok(true));
    assert_eq!(b.is_record_expense(&row(&["d", "p", "42.10", "   "])), Ok(false));
}

#[test]
fn comment_columns_concatenate_with_trailing_separator() {
    let mut settings = base_settings();
    settings.ledger_record_to_row.comment = Some(vec![1, 2]);
    let b = engine(settings);
    assert_eq!(
        b.get_comment(&row(&["d", "first", "second"])).unwrap(),
        Some("first | second | ".to_string())
    );
    let b2 = engine(base_settings());
    assert_eq!(b2.get_comment(&row(&["d", "p", "a"])).unwrap(), None);
}

#[test]
fn currency_column_overrides_default() {
    let mut settings = base_settings();
    settings.ledger_record_to_row.first_amount_currency = Some(3);
    let b = engine(settings);
    assert_eq!(
        b.get_first_amount_currency(&row(&["d", "p", "1", "EUR"])).unwrap(),
        "EUR"
    );
    let b2 = engine(base_settings());
    assert_eq!(b2.get_first_amount_currency(&row(&["d", "p", "1"])).unwrap(), "GBP");
}

#[test]
fn payee_is_trimmed_verbatim() {
    let b = engine(base_settings());
    assert_eq!(b.get_payee(&row(&["d", "  Crown Cafe  ", "1"])).unwrap(), "Crown Cafe");
}

#[test]
fn delimiter_spellings_map_to_bytes() {
    let settings = base_settings();
    assert_eq!(settings.get_delimiter(), b',');

    let mut settings = base_settings();
    settings.delimiter = Some("tab".to_string());
    assert_eq!(settings.get_delimiter(), b'\t');

    let mut settings = base_settings();
    settings.delimiter = Some("comma".to_string());
    assert_eq!(settings.get_delimiter(), b',');

    let mut settings = base_settings();
    settings.delimiter = Some(",".to_string());
    assert_eq!(settings.get_delimiter(), b',');
}

#[test]
fn validate_rejects_hint_columns_without_table() {
    let mut settings = base_settings();
    settings.ledger_record_to_row.first_account_hint = Some(vec![1]);
    assert!(!settings.validate());
    settings.first_account_hint_mapping = Some(vec![]);
    assert!(settings.validate());
}

#[test]
fn validate_rejects_unknown_delimiter() {
    let mut settings = base_settings();
    settings.delimiter = Some("semicolon".to_string());
    assert!(!settings.validate());
    assert!(base_settings().validate());
}

#[test]
fn error_labels_name_each_failure() {
    assert!(RowError::ColumnOutOfRange { column: 3 }.describe().contains("column"));
    assert!(RowError::PatternInvalid.describe().contains("regular expression"));
    assert!(RowError::DateNoMatch.describe().contains("no match"));
    assert!(RowError::DateInvalid.describe().contains("format"));
}
