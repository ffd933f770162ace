//! The row-to-journal-entry engine: exclusion filtering, field extraction,
//! amount-sign normalization, account classification and entry assembly, all
//! against one immutable configuration.

use vstd::prelude::*;
use vstd::string::StringExecFns;
use crate::dates::Date;
use crate::dates::date_of;
use crate::dates::parse_date;
use crate::errors::RowError;
use crate::ledger_record::LedgerRecord;
use crate::ledger_record::LedgerRecordV;
use crate::patterns::classify;
use crate::patterns::regex_find;
use crate::patterns::regex_find_spec;
use crate::patterns::regex_ok;
use crate::patterns::spec_classify;
use crate::settings::ExcludeCondition;
use crate::settings::Settings;
use crate::text::leading_minus;
use crate::text::has_leading_minus;
use crate::text::normalize_amount;
use crate::text::spec_contains;
use crate::text::spec_norm;
use crate::text::spec_trim;
use crate::text::str_contains;
use crate::text::str_eq;
use crate::text::trim_str;

verus! {

/// The diagnostic emitted when no classification rule matched and the default
/// second account was used: enough context to tune the rule tables.
pub struct ClassifyWarning {
    /// The hint string nothing matched.
    pub hint: String,
    /// The polarity the transaction was resolved to.
    pub treated_as_expense: bool,
    /// The raw amount field of the row.
    pub amount: String,
}

/// The mathematical image of a [`ClassifyWarning`].
#[verifier::ext_equal]
pub struct ClassifyWarningV {
    /// The hint string nothing matched.
    pub hint: Seq<char>,
    /// The polarity the transaction was resolved to.
    pub treated_as_expense: bool,
    /// The raw amount field of the row.
    pub amount: Seq<char>,
}

impl View for ClassifyWarning {
    type V = ClassifyWarningV;

    open spec fn view(&self) -> ClassifyWarningV {
        ClassifyWarningV {
            hint: self.hint@,
            treated_as_expense: self.treated_as_expense,
            amount: self.amount@,
        }
    }
}

impl DeepView for ClassifyWarning {
    type V = ClassifyWarningV;

    open spec fn deep_view(&self) -> ClassifyWarningV {
        self.view()
    }
}

/// What became of one row that processing accepted without error.
pub enum RowOutcome {
    /// An exclusion rule matched; the row is dropped.
    Excluded,
    /// The row became a journal entry, with a warning where classification
    /// fell back to the default second account.
    Entry { record: LedgerRecord, warning: Option<ClassifyWarning> },
}

/// The row's field at column `c`, or the error naming the first column that
/// does not fit the row.
pub open spec fn spec_col(row: Seq<Seq<char>>, c: usize) -> Result<Seq<char>, RowError> {
    if (c as int) < row.len() {
        Ok(row[c as int])
    } else {
        Err(RowError::ColumnOutOfRange { column: c })
    }
}

/// The first configured column, in order, that does not fit a row of `width`
/// fields.
pub open spec fn spec_first_oob(cols: Seq<usize>, width: nat) -> Option<usize>
    decreases cols.len(),
{
    if cols.len() == 0 {
        None
    } else if (cols[0] as nat) >= width {
        Some(cols[0])
    } else {
        spec_first_oob(cols.drop_first(), width)
    }
}

/// The named fields of `row`, joined with `sep` between neighbours.
pub open spec fn spec_join(row: Seq<Seq<char>>, cols: Seq<usize>, sep: Seq<char>) -> Seq<char>
    decreases cols.len(),
{
    if cols.len() == 0 {
        Seq::empty()
    } else if cols.len() == 1 {
        row[cols[0] as int]
    } else {
        row[cols[0] as int] + sep + spec_join(row, cols.drop_first(), sep)
    }
}

/// The named fields of `row`, each followed by `" | "`.
pub open spec fn spec_comment_concat(row: Seq<Seq<char>>, cols: Seq<usize>) -> Seq<char>
    decreases cols.len(),
{
    if cols.len() == 0 {
        Seq::empty()
    } else {
        row[cols[0] as int] + " | "@ + spec_comment_concat(row, cols.drop_first())
    }
}

proof fn lemma_first_oob_at(cols: Seq<usize>, width: nat, i: int)
    requires
        0 <= i < cols.len(),
        forall|j: int| 0 <= j < i ==> (cols[j] as nat) < width,
        (cols[i] as nat) >= width,
    ensures
        spec_first_oob(cols, width) == Some(cols[i]),
    decreases i,
{
    if i > 0 {
        lemma_first_oob_at(cols.drop_first(), width, i - 1);
    }
}

proof fn lemma_first_oob_none(cols: Seq<usize>, width: nat)
    requires
        forall|j: int| 0 <= j < cols.len() ==> (cols[j] as nat) < width,
    ensures
        spec_first_oob(cols, width) is None,
    decreases cols.len(),
{
    if cols.len() > 0 {
        lemma_first_oob_none(cols.drop_first(), width);
    }
}

proof fn lemma_join_snoc(row: Seq<Seq<char>>, cols: Seq<usize>, c: usize, sep: Seq<char>)
    ensures
        spec_join(row, cols.push(c), sep) == if cols.len() == 0 {
            row[c as int]
        } else {
            spec_join(row, cols, sep) + sep + row[c as int]
        },
    decreases cols.len(),
{
    if cols.len() == 0 {
        assert(cols.push(c)[0] == c);
    } else {
        assert(cols.push(c)[0] == cols[0]);
        assert(cols.push(c).drop_first() =~= cols.drop_first().push(c));
        lemma_join_snoc(row, cols.drop_first(), c, sep);
        if cols.len() > 1 {
            assert(row[cols[0] as int] + sep + (spec_join(row, cols.drop_first(), sep) + sep
                + row[c as int]) =~= (row[cols[0] as int] + sep + spec_join(
                row,
                cols.drop_first(),
                sep,
            )) + sep + row[c as int]);
        }
    }
}

proof fn lemma_comment_snoc(row: Seq<Seq<char>>, cols: Seq<usize>, c: usize)
    ensures
        spec_comment_concat(row, cols.push(c)) == spec_comment_concat(row, cols) + row[c as int]
            + " | "@,
    decreases cols.len(),
{
    if cols.len() == 0 {
        assert(cols.push(c)[0] == c);
        assert(cols.push(c).drop_first() =~= Seq::<usize>::empty());
        assert(spec_comment_concat(row, Seq::<usize>::empty()) == Seq::<char>::empty());
        assert(row[c as int] + " | "@ + Seq::<char>::empty() =~= Seq::<char>::empty() + row[
            c as int
        ] + " | "@);
    } else {
        assert(cols.push(c)[0] == cols[0]);
        assert(cols.push(c).drop_first() =~= cols.drop_first().push(c));
        lemma_comment_snoc(row, cols.drop_first(), c);
        assert(row[cols[0] as int] + " | "@ + (spec_comment_concat(row, cols.drop_first()) + row[
            c as int
        ] + " | "@) =~= (row[cols[0] as int] + " | "@ + spec_comment_concat(
            row,
            cols.drop_first(),
        )) + row[c as int] + " | "@);
    }
}

/// Joins the named fields of `row` with `sep`, or reports the first column
/// that does not fit the row.
fn join_columns(row: &Vec<String>, cols: &Vec<usize>, sep: &str) -> (r: Result<String, RowError>)
    ensures
        match r {
            Ok(s) => spec_first_oob(cols@, row@.len()) is None && s@ == spec_join(
                row.deep_view(),
                cols@,
                sep@,
            ),
            Err(e) => spec_first_oob(cols@, row@.len()) matches Some(c) && e
                == (RowError::ColumnOutOfRange { column: c }),
        },
{
    let n = cols.len();
    let mut out = String::new();
    let mut i: usize = 0;
    while i < n
        invariant
            n == cols@.len(),
            0 <= i <= n,
            forall|j: int| 0 <= j < i ==> (cols@[j] as nat) < row@.len(),
            out@ == spec_join(row.deep_view(), cols@.subrange(0, i as int), sep@),
        decreases n - i,
    {
        let c = cols[i];
        if c >= row.len() {
            proof {
                lemma_first_oob_at(cols@, row@.len(), i as int);
            }
            return Err(RowError::ColumnOutOfRange { column: c });
        }
        if i > 0 {
            out.append(sep);
        }
        out.append(row[c].as_str());
        proof {
            lemma_join_snoc(row.deep_view(), cols@.subrange(0, i as int), cols@[i as int], sep@);
            assert(cols@.subrange(0, i + 1) =~= cols@.subrange(0, i as int).push(cols@[i as int]));
            assert(row.deep_view()[c as int] == row@[c as int]@);
        }
        i = i + 1;
    }
    proof {
        lemma_first_oob_none(cols@, row@.len());
        assert(cols@.subrange(0, n as int) =~= cols@);
    }
    Ok(out)
}

/// Concatenates the named fields of `row`, each followed by `" | "`, or
/// reports the first column that does not fit the row.
fn concat_comment(row: &Vec<String>, cols: &Vec<usize>) -> (r: Result<String, RowError>)
    ensures
        match r {
            Ok(s) => spec_first_oob(cols@, row@.len()) is None && s@ == spec_comment_concat(
                row.deep_view(),
                cols@,
            ),
            Err(e) => spec_first_oob(cols@, row@.len()) matches Some(c) && e
                == (RowError::ColumnOutOfRange { column: c }),
        },
{
    let n = cols.len();
    let mut out = String::new();
    let mut i: usize = 0;
    while i < n
        invariant
            n == cols@.len(),
            0 <= i <= n,
            forall|j: int| 0 <= j < i ==> (cols@[j] as nat) < row@.len(),
            out@ == spec_comment_concat(row.deep_view(), cols@.subrange(0, i as int)),
        decreases n - i,
    {
        let c = cols[i];
        if c >= row.len() {
            proof {
                lemma_first_oob_at(cols@, row@.len(), i as int);
            }
            return Err(RowError::ColumnOutOfRange { column: c });
        }
        out.append(row[c].as_str());
        out.append(" | ");
        proof {
            lemma_comment_snoc(row.deep_view(), cols@.subrange(0, i as int), cols@[i as int]);
            assert(cols@.subrange(0, i + 1) =~= cols@.subrange(0, i as int).push(cols@[i as int]));
            assert(row.deep_view()[c as int] == row@[c as int]@);
        }
        i = i + 1;
    }
    proof {
        lemma_first_oob_none(cols@, row@.len());
        assert(cols@.subrange(0, n as int) =~= cols@);
    }
    Ok(out)
}

/// Whether one exclusion rule is satisfied by `row` (its column, where it
/// names one, fitting the row).
pub open spec fn cond_hits(c: ExcludeCondition, row: Seq<Seq<char>>) -> bool {
    match c {
        ExcludeCondition::ColumnContainsValue { column, value, operation } => (column as int)
            < row.len() && ((operation@ == "contains"@ && spec_contains(
            row[column as int],
            value@,
        )) || (operation@ == "equal"@ && row[column as int] == value@)),
        ExcludeCondition::RecordLen(n) => (n as nat) == row.len(),
    }
}

/// The exclusion rules walked in order: the first satisfied rule ends the
/// walk with `Ok(true)`; a rule naming a column beyond the row's width ends
/// it with that error; a walk off the end yields `Ok(false)`.
pub open spec fn spec_exclude(conds: Seq<ExcludeCondition>, row: Seq<Seq<char>>) -> Result<
    bool,
    RowError,
>
    decreases conds.len(),
{
    if conds.len() == 0 {
        Ok(false)
    } else {
        match conds[0] {
            ExcludeCondition::ColumnContainsValue { column, .. } => {
                if (column as int) >= row.len() {
                    Err(RowError::ColumnOutOfRange { column })
                } else if cond_hits(conds[0], row) {
                    Ok(true)
                } else {
                    spec_exclude(conds.drop_first(), row)
                }
            },
            ExcludeCondition::RecordLen(n) => {
                if cond_hits(conds[0], row) {
                    Ok(true)
                } else {
                    spec_exclude(conds.drop_first(), row)
                }
            },
        }
    }
}

/// The engine: one immutable configuration plus the path of the CSV it is
/// meant for. Rows are handed in already tokenized; the engine never reads
/// the file itself.
pub struct Bank2Ledger {
    /// The institution's configuration.
    pub settings: Settings,
    /// Where the surrounding program reads the rows from.
    pub transactions_file_path: String,
}

impl Bank2Ledger {
    /// Pairs a configuration with the transactions file it applies to.
    pub fn new(settings: Settings, filepath: String) -> (r: Self)
        ensures
            r.settings == settings,
            r.transactions_file_path == filepath,
    {
        Bank2Ledger { settings, transactions_file_path: filepath }
    }

    /// Walks the configured exclusion rules in order over one row, exactly as
    /// [`spec_exclude`] states.
    pub fn should_exclude(&self, row: &Vec<String>) -> (r: Result<bool, RowError>)
        ensures
            r == spec_exclude(self.settings.exclude_conditions@, row.deep_view()),
    {
        let ghost conds = self.settings.exclude_conditions@;
        let ghost rowv = row.deep_view();
        let n = self.settings.exclude_conditions.len();
        let mut i: usize = 0;
        proof {
            assert(conds.skip(0) =~= conds);
        }
        while i < n
            invariant
                n == conds.len(),
                conds == self.settings.exclude_conditions@,
                rowv == row.deep_view(),
                0 <= i <= n,
                spec_exclude(conds, rowv) == spec_exclude(conds.skip(i as int), rowv),
            decreases n - i,
        {
            proof {
                assert(conds.skip(i as int)[0] == conds[i as int]);
                assert(conds.skip(i as int).drop_first() =~= conds.skip(i + 1));
            }
            match &self.settings.exclude_conditions[i] {
                ExcludeCondition::ColumnContainsValue { column, value, operation } => {
                    if *column >= row.len() {
                        return Err(RowError::ColumnOutOfRange { column: *column });
                    }
                    let field = &row[*column];
                    proof {
                        assert(rowv[*column as int] == row@[*column as int]@);
                    }
                    let hit = (str_eq(operation.as_str(), "contains") && str_contains(
                        field.as_str(),
                        value.as_str(),
                    )) || (str_eq(operation.as_str(), "equal") && str_eq(
                        field.as_str(),
                        value.as_str(),
                    ));
                    if hit {
                        return Ok(true);
                    }
                },
                ExcludeCondition::RecordLen(len) => {
                    if *len == row.len() {
                        return Ok(true);
                    }
                },
            }
            i = i + 1;
        }
        proof {
            assert(conds.skip(n as int) =~= Seq::<ExcludeCondition>::empty());
        }
        Ok(false)
    }
}

/// The date a row yields: its date field trimmed, searched with the date
/// regex, the match parsed under the date format; the first failing step
/// names the error.
pub open spec fn spec_date(s: Settings, row: Seq<Seq<char>>) -> Result<(int, int, int), RowError> {
    match spec_col(row, s.ledger_record_to_row.date) {
        Err(e) => Err(e),
        Ok(f) => {
            let t = spec_trim(f);
            if !regex_ok(s.date_regex@, false) {
                Err(RowError::PatternInvalid)
            } else {
                match regex_find_spec(s.date_regex@, false, t) {
                    None => Err(RowError::DateNoMatch),
                    Some(m) => match date_of(s.date_format@, m) {
                        None => Err(RowError::DateInvalid),
                        Some(d) => Ok(d),
                    },
                }
            }
        },
    }
}

/// The payee a row yields: its payee field, trimmed.
pub open spec fn spec_payee(s: Settings, row: Seq<Seq<char>>) -> Result<Seq<char>, RowError> {
    match spec_col(row, s.ledger_record_to_row.payee) {
        Err(e) => Err(e),
        Ok(f) => Ok(spec_trim(f)),
    }
}

/// Polarity read off an amount string: a leading minus is the sign; the
/// configured convention says whether that sign, or its absence, marks an
/// expense; with no convention stated the sign is taken as it stands.
pub open spec fn spec_is_amount_expense(amount: Seq<char>, flag: Option<bool>) -> bool {
    match flag {
        Some(true) => leading_minus(amount),
        Some(false) => !leading_minus(amount),
        None => leading_minus(amount),
    }
}

/// Polarity of a whole row: where a debit column is configured, a non-blank
/// debit field always means an expense; otherwise the amount field's sign
/// decides under the configured convention.
pub open spec fn spec_is_record_expense(s: Settings, row: Seq<Seq<char>>) -> Result<
    bool,
    RowError,
> {
    match s.ledger_record_to_row.first_amount_debit {
        Some(dc) => match spec_col(row, dc) {
            Err(e) => Err(e),
            Ok(f) => Ok(spec_trim(f).len() != 0),
        },
        None => match spec_col(row, s.ledger_record_to_row.first_amount) {
            Err(e) => Err(e),
            Ok(f) => Ok(spec_is_amount_expense(f, s.minus_indicates_expense)),
        },
    }
}

/// One amount column brought to canonical form under the convention handed
/// in, as [`spec_norm`] states it.
pub open spec fn spec_single_amount(row: Seq<Seq<char>>, col: usize, flag: Option<bool>) -> Result<
    Seq<char>,
    RowError,
> {
    match spec_col(row, col) {
        Err(e) => Err(e),
        Ok(f) => Ok(spec_norm(f, flag)),
    }
}

/// The amount a row yields. With a debit column: a blank debit field takes
/// the credit column's value with its own sign kept; a non-blank debit field
/// takes the debit column's value with its sign flipped. Without one, the
/// single amount column is normalized under the configured convention.
pub open spec fn spec_first_amount(s: Settings, row: Seq<Seq<char>>) -> Result<
    Seq<char>,
    RowError,
> {
    match s.ledger_record_to_row.first_amount_debit {
        Some(dc) => match spec_col(row, dc) {
            Err(e) => Err(e),
            Ok(df) => if spec_trim(df).len() == 0 {
                spec_single_amount(row, s.ledger_record_to_row.first_amount, Some(true))
            } else {
                spec_single_amount(row, dc, Some(false))
            },
        },
        None => spec_single_amount(
            row,
            s.ledger_record_to_row.first_amount,
            s.minus_indicates_expense,
        ),
    }
}

/// The currency a row yields: the currency column's raw value where one is
/// configured, the configured default otherwise.
pub open spec fn spec_currency(s: Settings, row: Seq<Seq<char>>) -> Result<Seq<char>, RowError> {
    match s.ledger_record_to_row.first_amount_currency {
        None => Ok(s.first_amount_currency_default@),
        Some(c) => spec_col(row, c),
    }
}

/// The comment a row yields: absent without comment columns; otherwise the
/// comment fields concatenated, each followed by `" | "`.
pub open spec fn spec_comment(s: Settings, row: Seq<Seq<char>>) -> Result<
    Option<Seq<char>>,
    RowError,
> {
    match s.ledger_record_to_row.comment {
        None => Ok(None),
        Some(ref cols) => match spec_first_oob(cols@, row.len()) {
            Some(c) => Err(RowError::ColumnOutOfRange { column: c }),
            None => Ok(Some(spec_comment_concat(row, cols@))),
        },
    }
}

/// The first account a row yields: the default where no hint columns are
/// configured; otherwise the hint fields joined with a space and classified
/// against the first-account table, the default serving when no rule
/// matches. (A configuration with hint columns but no table is rejected
/// before any row; the error arm here is never reached then.)
pub open spec fn spec_first_account(s: Settings, row: Seq<Seq<char>>) -> Result<
    Seq<char>,
    RowError,
> {
    match s.ledger_record_to_row.first_account_hint {
        None => Ok(s.default_first_account@),
        Some(ref cols) => match spec_first_oob(cols@, row.len()) {
            Some(c) => Err(RowError::ColumnOutOfRange { column: c }),
            None => {
                let hint = spec_join(row, cols@, " "@);
                match s.first_account_hint_mapping {
                    Some(ref maps) => match spec_classify(maps@, hint) {
                        Err(e) => Err(e),
                        Ok(Some(v)) => Ok(v),
                        Ok(None) => Ok(s.default_first_account@),
                    },
                    None => Err(RowError::PatternInvalid),
                }
            },
        },
    }
}

/// The second account a row yields, with the warning where classification
/// fell back to the default. The hint is the configured hint fields joined
/// with a space; the tables consulted are the expense table, and after it
/// the income table for income transactions only; the first matching rule
/// in that order wins.
pub open spec fn spec_second_account(s: Settings, row: Seq<Seq<char>>) -> Result<
    (Seq<char>, Option<ClassifyWarningV>),
    RowError,
> {
    match spec_first_oob(s.ledger_record_to_row.second_account_hint@, row.len()) {
        Some(c) => Err(RowError::ColumnOutOfRange { column: c }),
        None => {
            let hint = spec_join(row, s.ledger_record_to_row.second_account_hint@, " "@);
            match spec_col(row, s.ledger_record_to_row.first_amount) {
                Err(e) => Err(e),
                Ok(amount_raw) => match spec_is_record_expense(s, row) {
                    Err(e) => Err(e),
                    Ok(is_exp) => {
                        let maps = if is_exp {
                            s.second_account_hint_mapping.expense@
                        } else {
                            s.second_account_hint_mapping.expense@
                                + s.second_account_hint_mapping.income@
                        };
                        match spec_classify(maps, hint) {
                            Err(e) => Err(e),
                            Ok(Some(v)) => Ok((v, None)),
                            Ok(None) => Ok(
                                (
                                    s.default_second_account@,
                                    Some(
                                        ClassifyWarningV {
                                            hint,
                                            treated_as_expense: is_exp,
                                            amount: amount_raw,
                                        },
                                    ),
                                ),
                            ),
                        }
                    },
                },
            }
        },
    }
}

/// Everything one row becomes: exclusion first, then each extracted part in
/// the order the entry is assembled; the first failing step names the error;
/// an excluded row yields `Ok(None)`.
pub open spec fn spec_process(s: Settings, row: Seq<Seq<char>>) -> Result<
    Option<(LedgerRecordV, Option<ClassifyWarningV>)>,
    RowError,
> {
    match spec_exclude(s.exclude_conditions@, row) {
        Err(e) => Err(e),
        Ok(true) => Ok(None),
        Ok(false) => match spec_date(s, row) {
            Err(e) => Err(e),
            Ok(d) => match spec_payee(s, row) {
                Err(e) => Err(e),
                Ok(p) => match spec_first_account(s, row) {
                    Err(e) => Err(e),
                    Ok(fa) => match spec_first_amount(s, row) {
                        Err(e) => Err(e),
                        Ok(amt) => match spec_currency(s, row) {
                            Err(e) => Err(e),
                            Ok(cur) => match spec_second_account(s, row) {
                                Err(e) => Err(e),
                                Ok(sa) => match spec_comment(s, row) {
                                    Err(e) => Err(e),
                                    Ok(cm) => Ok(
                                        Some(
                                            (
                                                LedgerRecordV {
                                                    date: d,
                                                    payee: p,
                                                    first_account: fa,
                                                    first_amount: amt,
                                                    first_amount_currency: cur,
                                                    second_account: sa.0,
                                                    comment: cm,
                                                },
                                                sa.1,
                                            ),
                                        ),
                                    ),
                                },
                            },
                        },
                    },
                },
            },
        },
    }
}

impl Bank2Ledger {
    /// Extracts and parses the row's date, as [`spec_date`] states.
    pub fn get_date(&self, row: &Vec<String>) -> (r: Result<Date, RowError>)
        ensures
            match r {
                Ok(d) => spec_date(self.settings, row.deep_view()) == Ok::<
                    (int, int, int),
                    RowError,
                >((d.year as int, d.month as int, d.day as int)) && d.wf(),
                Err(e) => spec_date(self.settings, row.deep_view()) == Err::<
                    (int, int, int),
                    RowError,
                >(e),
            },
    {
        let col = self.settings.ledger_record_to_row.date;
        if col >= row.len() {
            return Err(RowError::ColumnOutOfRange { column: col });
        }
        proof {
            assert(row.deep_view()[col as int] == row@[col as int]@);
        }
        let trimmed = trim_str(row[col].as_str());
        match regex_find(self.settings.date_regex.as_str(), false, trimmed) {
            Err(e) => Err(e),
            Ok(None) => Err(RowError::DateNoMatch),
            Ok(Some(m)) => match parse_date(m.as_str(), self.settings.date_format.as_str()) {
                None => Err(RowError::DateInvalid),
                Some(d) => Ok(d),
            },
        }
    }

    /// Extracts the row's payee, trimmed.
    pub fn get_payee(&self, row: &Vec<String>) -> (r: Result<String, RowError>)
        ensures
            match r {
                Ok(p) => spec_payee(self.settings, row.deep_view()) == Ok::<Seq<char>, RowError>(
                    p@,
                ),
                Err(e) => spec_payee(self.settings, row.deep_view()) == Err::<Seq<char>, RowError>(
                    e,
                ),
            },
    {
        let col = self.settings.ledger_record_to_row.payee;
        if col >= row.len() {
            return Err(RowError::ColumnOutOfRange { column: col });
        }
        proof {
            assert(row.deep_view()[col as int] == row@[col as int]@);
        }
        Ok(String::from_str(trim_str(row[col].as_str())))
    }

    /// Polarity of one amount string under the configured sign convention.
    pub fn is_amount_expense(&self, amount: &str) -> (r: bool)
        ensures
            r == spec_is_amount_expense(amount@, self.settings.minus_indicates_expense),
    {
        let sign_present = has_leading_minus(amount);
        match self.settings.minus_indicates_expense {
            Some(true) => sign_present,
            Some(false) => !sign_present,
            None => sign_present,
        }
    }

    /// Polarity of a whole row, as [`spec_is_record_expense`] states.
    pub fn is_record_expense(&self, row: &Vec<String>) -> (r: Result<bool, RowError>)
        ensures
            r == spec_is_record_expense(self.settings, row.deep_view()),
    {
        match self.settings.ledger_record_to_row.first_amount_debit {
            Some(dc) => {
                if dc >= row.len() {
                    return Err(RowError::ColumnOutOfRange { column: dc });
                }
                proof {
                    assert(row.deep_view()[dc as int] == row@[dc as int]@);
                }
                Ok(!trim_str(row[dc].as_str()).is_empty())
            },
            None => {
                let col = self.settings.ledger_record_to_row.first_amount;
                if col >= row.len() {
                    return Err(RowError::ColumnOutOfRange { column: col });
                }
                proof {
                    assert(row.deep_view()[col as int] == row@[col as int]@);
                }
                Ok(self.is_amount_expense(row[col].as_str()))
            },
        }
    }

    /// Extracts the row's comment, as [`spec_comment`] states.
    pub fn get_comment(&self, row: &Vec<String>) -> (r: Result<Option<String>, RowError>)
        ensures
            match r {
                Ok(Some(c)) => spec_comment(self.settings, row.deep_view()) == Ok::<
                    Option<Seq<char>>,
                    RowError,
                >(Some(c@)),
                Ok(None) => spec_comment(self.settings, row.deep_view()) == Ok::<
                    Option<Seq<char>>,
                    RowError,
                >(None::<Seq<char>>),
                Err(e) => spec_comment(self.settings, row.deep_view()) == Err::<
                    Option<Seq<char>>,
                    RowError,
                >(e),
            },
    {
        match &self.settings.ledger_record_to_row.comment {
            None => Ok(None),
            Some(cols) => match concat_comment(row, cols) {
                Err(e) => Err(e),
                Ok(s) => Ok(Some(s)),
            },
        }
    }

    /// Resolves the row's first account, as [`spec_first_account`] states.
    pub fn get_first_account(&self, row: &Vec<String>) -> (r: Result<String, RowError>)
        requires
            self.settings.hint_mapping_wf(),
        ensures
            match r {
                Ok(a) => spec_first_account(self.settings, row.deep_view()) == Ok::<
                    Seq<char>,
                    RowError,
                >(a@),
                Err(e) => spec_first_account(self.settings, row.deep_view()) == Err::<
                    Seq<char>,
                    RowError,
                >(e),
            },
    {
        match &self.settings.ledger_record_to_row.first_account_hint {
            None => Ok(self.settings.default_first_account.clone()),
            Some(cols) => match join_columns(row, cols, " ") {
                Err(e) => Err(e),
                Ok(hint) => match &self.settings.first_account_hint_mapping {
                    Some(maps) => match classify(maps, hint.as_str()) {
                        Err(e) => Err(e),
                        Ok(Some(v)) => Ok(v),
                        Ok(None) => Ok(self.settings.default_first_account.clone()),
                    },
                    None => {
                        proof {
                            assert(false);
                        }
                        Err(RowError::PatternInvalid)
                    },
                },
            },
        }
    }

    /// Resolves the row's second account and, where the default had to serve,
    /// the warning, as [`spec_second_account`] states.
    pub fn get_second_account(&self, row: &Vec<String>) -> (r: Result<
        (String, Option<ClassifyWarning>),
        RowError,
    >)
        ensures
            match r {
                Ok(p) => spec_second_account(self.settings, row.deep_view()) == Ok::<
                    (Seq<char>, Option<ClassifyWarningV>),
                    RowError,
                >((p.0@, p.1.deep_view())),
                Err(e) => spec_second_account(self.settings, row.deep_view()) == Err::<
                    (Seq<char>, Option<ClassifyWarningV>),
                    RowError,
                >(e),
            },
    {
        let hint = match join_columns(
            row,
            &self.settings.ledger_record_to_row.second_account_hint,
            " ",
        ) {
            Err(e) => {
                return Err(e);
            },
            Ok(h) => h,
        };
        let acol = self.settings.ledger_record_to_row.first_amount;
        if acol >= row.len() {
            return Err(RowError::ColumnOutOfRange { column: acol });
        }
        proof {
            assert(row.deep_view()[acol as int] == row@[acol as int]@);
        }
        let amount = row[acol].clone();
        let is_exp = match self.is_record_expense(row) {
            Err(e) => {
                return Err(e);
            },
            Ok(b) => b,
        };
        proof {
            crate::patterns::lemma_classify_append(
                self.settings.second_account_hint_mapping.expense@,
                self.settings.second_account_hint_mapping.income@,
                hint@,
            );
        }
        match classify(&self.settings.second_account_hint_mapping.expense, hint.as_str()) {
            Err(e) => Err(e),
            Ok(Some(v)) => Ok((v, None)),
            Ok(None) => {
                if !is_exp {
                    match classify(
                        &self.settings.second_account_hint_mapping.income,
                        hint.as_str(),
                    ) {
                        Err(e) => Err(e),
                        Ok(Some(v)) => Ok((v, None)),
                        Ok(None) => Ok(
                            (
                                self.settings.default_second_account.clone(),
                                Some(
                                    ClassifyWarning {
                                        hint,
                                        treated_as_expense: is_exp,
                                        amount,
                                    },
                                ),
                            ),
                        ),
                    }
                } else {
                    Ok(
                        (
                            self.settings.default_second_account.clone(),
                            Some(ClassifyWarning { hint, treated_as_expense: is_exp, amount }),
                        ),
                    )
                }
            },
        }
    }

    /// Normalizes one amount column under the convention handed in, as
    /// [`spec_single_amount`] states.
    pub fn get_first_amount_single_field(
        &self,
        row: &Vec<String>,
        amount_col: usize,
        minus_indicates_expense: Option<bool>,
    ) -> (r: Result<String, RowError>)
        ensures
            match r {
                Ok(a) => spec_single_amount(row.deep_view(), amount_col, minus_indicates_expense)
                    == Ok::<Seq<char>, RowError>(a@),
                Err(e) => spec_single_amount(row.deep_view(), amount_col, minus_indicates_expense)
                    == Err::<Seq<char>, RowError>(e),
            },
    {
        if amount_col >= row.len() {
            return Err(RowError::ColumnOutOfRange { column: amount_col });
        }
        proof {
            assert(row.deep_view()[amount_col as int] == row@[amount_col as int]@);
        }
        Ok(normalize_amount(row[amount_col].as_str(), minus_indicates_expense))
    }

    /// Resolves the row's amount, as [`spec_first_amount`] states.
    pub fn get_first_amount(&self, row: &Vec<String>) -> (r: Result<String, RowError>)
        ensures
            match r {
                Ok(a) => spec_first_amount(self.settings, row.deep_view()) == Ok::<
                    Seq<char>,
                    RowError,
                >(a@),
                Err(e) => spec_first_amount(self.settings, row.deep_view()) == Err::<
                    Seq<char>,
                    RowError,
                >(e),
            },
    {
        match self.settings.ledger_record_to_row.first_amount_debit {
            Some(dc) => {
                if dc >= row.len() {
                    return Err(RowError::ColumnOutOfRange { column: dc });
                }
                proof {
                    assert(row.deep_view()[dc as int] == row@[dc as int]@);
                }
                if trim_str(row[dc].as_str()).is_empty() {
                    self.get_first_amount_single_field(
                        row,
                        self.settings.ledger_record_to_row.first_amount,
                        Some(true),
                    )
                } else {
                    self.get_first_amount_single_field(row, dc, Some(false))
                }
            },
            None => self.get_first_amount_single_field(
                row,
                self.settings.ledger_record_to_row.first_amount,
                self.settings.minus_indicates_expense,
            ),
        }
    }

    /// Resolves the row's currency, as [`spec_currency`] states.
    pub fn get_first_amount_currency(&self, row: &Vec<String>) -> (r: Result<String, RowError>)
        ensures
            match r {
                Ok(c) => spec_currency(self.settings, row.deep_view()) == Ok::<Seq<char>, RowError>(
                    c@,
                ),
                Err(e) => spec_currency(self.settings, row.deep_view()) == Err::<
                    Seq<char>,
                    RowError,
                >(e),
            },
    {
        match self.settings.ledger_record_to_row.first_amount_currency {
            None => Ok(self.settings.first_amount_currency_default.clone()),
            Some(c) => {
                if c >= row.len() {
                    return Err(RowError::ColumnOutOfRange { column: c });
                }
                proof {
                    assert(row.deep_view()[c as int] == row@[c as int]@);
                }
                Ok(row[c].clone())
            },
        }
    }

    /// Turns one tokenized row into its outcome: excluded, a journal entry
    /// (with the classification warning, where one arose), or the first
    /// error met, exactly as [`spec_process`] states.
    pub fn process_row(&self, row: &Vec<String>) -> (r: Result<RowOutcome, RowError>)
        requires
            self.settings.hint_mapping_wf(),
        ensures
            match r {
                Ok(RowOutcome::Excluded) => spec_process(self.settings, row.deep_view()) == Ok::<
                    Option<(LedgerRecordV, Option<ClassifyWarningV>)>,
                    RowError,
                >(None),
                Ok(RowOutcome::Entry { record, warning }) => spec_process(
                    self.settings,
                    row.deep_view(),
                ) == Ok::<Option<(LedgerRecordV, Option<ClassifyWarningV>)>, RowError>(
                    Some((record@, warning.deep_view())),
                ) && record.date.wf(),
                Err(e) => spec_process(self.settings, row.deep_view()) == Err::<
                    Option<(LedgerRecordV, Option<ClassifyWarningV>)>,
                    RowError,
                >(e),
            },
    {
        match self.should_exclude(row) {
            Err(e) => {
                return Err(e);
            },
            Ok(true) => {
                return Ok(RowOutcome::Excluded);
            },
            Ok(false) => (),
        }
        let date = match self.get_date(row) {
            Err(e) => {
                return Err(e);
            },
            Ok(d) => d,
        };
        let payee = match self.get_payee(row) {
            Err(e) => {
                return Err(e);
            },
            Ok(p) => p,
        };
        let first_account = match self.get_first_account(row) {
            Err(e) => {
                return Err(e);
            },
            Ok(a) => a,
        };
        let first_amount = match self.get_first_amount(row) {
            Err(e) => {
                return Err(e);
            },
            Ok(a) => a,
        };
        let first_amount_currency = match self.get_first_amount_currency(row) {
            Err(e) => {
                return Err(e);
            },
            Ok(c) => c,
        };
        let (second_account, warning) = match self.get_second_account(row) {
            Err(e) => {
                return Err(e);
            },
            Ok(p) => p,
        };
        let comment = match self.get_comment(row) {
            Err(e) => {
                return Err(e);
            },
            Ok(c) => c,
        };
        let record = LedgerRecord::new(
            date,
            payee,
            first_account,
            first_amount,
            first_amount_currency,
            second_account,
            comment,
        );
        Ok(RowOutcome::Entry { record, warning })
    }
}

proof fn lemma_exclude_hit(conds: Seq<ExcludeCondition>, row: Seq<Seq<char>>, i: int)
    requires
        0 <= i < conds.len(),
        cond_hits(conds[i], row),
    ensures
        spec_exclude(conds, row) != Ok::<bool, RowError>(false),
    decreases i,
{
    if i > 0 {
        if !(conds[0] matches ExcludeCondition::ColumnContainsValue { column, .. } && (
        column as int) >= row.len()) && !cond_hits(conds[0], row) {
            assert(conds.drop_first()[i - 1] == conds[i]);
            lemma_exclude_hit(conds.drop_first(), row, i - 1);
        }
    }
}

/// A row whose field at a configured `contains` rule's column includes the
/// rule's value never becomes a journal entry: processing ends in exclusion
/// or, where an earlier rule's column does not fit the row, in that error.
pub proof fn lemma_contains_rule_excludes(s: Settings, row: Seq<Seq<char>>, i: int)
    requires
        0 <= i < s.exclude_conditions@.len(),
        ({
            let c = s.exclude_conditions@[i];
            &&& c matches ExcludeCondition::ColumnContainsValue { column, value, operation }
            &&& operation@ == "contains"@
            &&& (column as int) < row.len()
            &&& spec_contains(row[column as int], value@)
        }),
    ensures
        spec_process(s, row) matches Ok(o) ==> o is None,
{
    lemma_exclude_hit(s.exclude_conditions@, row, i);
}

/// Income fallback at the pipeline level: for an income-classified row whose
/// hint some expense rule matches, the expense rule's account is the second
/// account, income table and warning notwithstanding.
pub proof fn lemma_income_row_keeps_expense_account(s: Settings, row: Seq<Seq<char>>, v: Seq<char>)
    ensures
        ({
            let hint = spec_join(row, s.ledger_record_to_row.second_account_hint@, " "@);
            (spec_first_oob(s.ledger_record_to_row.second_account_hint@, row.len()) is None
                && spec_col(row, s.ledger_record_to_row.first_amount) is Ok
                && spec_is_record_expense(s, row) == Ok::<bool, RowError>(false)
                && spec_classify(s.second_account_hint_mapping.expense@, hint) == Ok::<
                Option<Seq<char>>,
                RowError,
            >(Some(v))) ==> spec_second_account(s, row) == Ok::<
                (Seq<char>, Option<ClassifyWarningV>),
                RowError,
            >((v, None::<ClassifyWarningV>))
        }),
{
    let hint = spec_join(row, s.ledger_record_to_row.second_account_hint@, " "@);
    crate::patterns::lemma_classify_append(
        s.second_account_hint_mapping.expense@,
        s.second_account_hint_mapping.income@,
        hint,
    );
}

/// A row whose field count equals a configured `RecordLen` rule's value never
/// becomes a journal entry, whatever the row's content.
pub proof fn lemma_record_len_excludes(s: Settings, row: Seq<Seq<char>>, i: int)
    requires
        0 <= i < s.exclude_conditions@.len(),
        ({
            let c = s.exclude_conditions@[i];
            c matches ExcludeCondition::RecordLen(n) && (n as nat) == row.len()
        }),
    ensures
        spec_process(s, row) matches Ok(o) ==> o is None,
{
    lemma_exclude_hit(s.exclude_conditions@, row, i);
}

} // verus!
