//! The per-institution configuration: column layout, exclusion rules,
//! classification tables, defaults and row-reading knobs. A configuration is
//! built once, checked once with [`Settings::validate`], and read-only for the
//! rest of the run.

use vstd::prelude::*;
use crate::text::str_eq;

verus! {

/// Where in a CSV row each part of a journal entry is found.
pub struct LedgerRecordToRow {
    /// Column holding the date.
    pub date: usize,
    /// Column holding the payee.
    pub payee: usize,
    /// Columns joined into the hint that classifies the second account.
    pub second_account_hint: Vec<usize>,
    /// Column holding the amount (the credit column where credit and debit
    /// are split over two columns).
    pub first_amount: usize,
    /// Separate debit column, where the institution uses one.
    pub first_amount_debit: Option<usize>,
    /// Column holding the amount's currency, where one exists.
    pub first_amount_currency: Option<usize>,
    /// Columns concatenated into the entry's comment.
    pub comment: Option<Vec<usize>>,
    /// Columns joined into the hint that classifies the first account;
    /// usually absent, the default first account serving instead.
    pub first_account_hint: Option<Vec<usize>>,
}

/// One predicate over a raw row; a row matching any configured predicate is
/// dropped before extraction.
pub enum ExcludeCondition {
    /// The row's field at `column` contains (`operation` is `contains`) or
    /// equals (`operation` is `equal`) `value`.
    ColumnContainsValue { column: usize, value: String, operation: String },
    /// The row has exactly this many fields.
    RecordLen(usize),
}

/// One ordered classification rule: the first rule whose `key`, read as a
/// case-insensitive regex, matches the hint yields `value` as account name.
#[derive(Clone)]
pub struct Mapping {
    /// The regular expression matched against the hint.
    pub key: String,
    /// The account name the rule yields.
    pub value: String,
}

/// The two classification tables for the second account.
pub struct SecondAccountHintMapping {
    /// Rules tried for every transaction.
    pub expense: Vec<Mapping>,
    /// Rules appended after the expense rules for income transactions only.
    pub income: Vec<Mapping>,
}

/// Everything one institution's CSV export needs to become ledger entries.
pub struct Settings {
    /// Account used as first account when no hint columns are configured, or
    /// when no first-account rule matches.
    pub default_first_account: String,
    /// Account used as second account when no classification rule matches.
    pub default_second_account: String,
    /// Whether the CSV carries a header row to skip.
    pub csv_has_headers: bool,
    /// Date format the matched date text must conform to.
    pub date_format: String,
    /// Regex that extracts the date from the (trimmed) date field.
    pub date_regex: String,
    /// Currency used when no currency column is configured.
    pub first_amount_currency_default: String,
    /// The column layout.
    pub ledger_record_to_row: LedgerRecordToRow,
    /// Ordered exclusion predicates, OR-combined.
    pub exclude_conditions: Vec<ExcludeCondition>,
    /// The second-account classification tables.
    pub second_account_hint_mapping: SecondAccountHintMapping,
    /// Sign convention: `Some(true)` - a leading minus marks an expense;
    /// `Some(false)` - a leading minus marks income; `None` - take the sign
    /// as it stands.
    pub minus_indicates_expense: Option<bool>,
    /// Field delimiter: `","`, `"comma"` or `"tab"`; comma when absent.
    pub delimiter: Option<String>,
    /// First-account classification table; must be present whenever
    /// first-account hint columns are configured.
    pub first_account_hint_mapping: Option<Vec<Mapping>>,
}

impl Settings {
    /// A first-account hint table is present whenever hint columns are
    /// configured; a configuration violating this is invalid and must be
    /// rejected before any row is processed.
    pub open spec fn hint_mapping_wf(&self) -> bool {
        self.ledger_record_to_row.first_account_hint is Some
            ==> self.first_account_hint_mapping is Some
    }

    /// The delimiter, if set, is one of the understood spellings.
    pub open spec fn delimiter_wf(&self) -> bool {
        match self.delimiter {
            None => true,
            Some(ref d) => d@ == ","@ || d@ == "comma"@ || d@ == "tab"@,
        }
    }

    /// A well-formed configuration: what [`Settings::validate`] decides.
    pub open spec fn wf(&self) -> bool {
        self.hint_mapping_wf() && self.delimiter_wf()
    }

    /// The byte the configured delimiter spelling stands for.
    pub open spec fn spec_delimiter(&self) -> u8 {
        match self.delimiter {
            Some(ref d) if d@ == "tab"@ => 9u8,
            _ => 44u8,
        }
    }

    /// The field delimiter byte handed to the row reader.
    pub fn get_delimiter(&self) -> (r: u8)
        requires
            self.delimiter_wf(),
        ensures
            r == self.spec_delimiter(),
    {
        match &self.delimiter {
            None => 44u8,
            Some(d) => {
                if str_eq(d.as_str(), "tab") {
                    9u8
                } else {
                    44u8
                }
            },
        }
    }

    /// Decides whether the configuration is well formed; a run must stop here,
    /// before any row, when this returns `false`.
    pub fn validate(&self) -> (r: bool)
        ensures
            r == self.wf(),
    {
        let mapping_ok = match (
            &self.ledger_record_to_row.first_account_hint,
            &self.first_account_hint_mapping,
        ) {
            (Some(_), None) => false,
            _ => true,
        };
        let delimiter_ok = match &self.delimiter {
            None => true,
            Some(d) => str_eq(d.as_str(), ",") || str_eq(d.as_str(), "comma") || str_eq(
                d.as_str(),
                "tab",
            ),
        };
        mapping_ok && delimiter_ok
    }
}

} // verus!
