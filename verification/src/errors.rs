use vstd::prelude::*;

verus! {

/// What can go wrong while one row is turned into a journal entry.
///
/// Each value names the first obstacle met in evaluation order; processing of
/// later rows is unaffected, so a caller can report the row and carry on.
#[derive(Clone, Copy, Debug, PartialEq, Eq, Structural)]
pub enum RowError {
    /// A configured column index is not smaller than the row's field count.
    ColumnOutOfRange { column: usize },
    /// A configured regular expression does not compile.
    PatternInvalid,
    /// The date regex found no match in the date field.
    DateNoMatch,
    /// The matched date text does not conform to the configured date format.
    DateInvalid,
}

impl RowError {
    /// A short diagnostic label for reporting the error.
    pub fn describe(&self) -> (r: &'static str)
        ensures
            r@ == match *self {
                RowError::ColumnOutOfRange { .. } => "configured column is beyond the row's width"@,
                RowError::PatternInvalid => "configured regular expression does not compile"@,
                RowError::DateNoMatch => "date regex found no match in the date field"@,
                RowError::DateInvalid => "matched date text does not fit the date format"@,
            },
    {
        match self {
            RowError::ColumnOutOfRange { .. } => "configured column is beyond the row's width",
            RowError::PatternInvalid => "configured regular expression does not compile",
            RowError::DateNoMatch => "date regex found no match in the date field",
            RowError::DateInvalid => "matched date text does not fit the date format",
        }
    }
}

} // verus!
