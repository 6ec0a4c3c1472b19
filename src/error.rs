use vstd::prelude::*;

verus! {

/// Why a page could not be turned into a survivor curve.
#[derive(Clone, Copy, Debug, PartialEq, Eq, Structural)]
pub enum PageError {
    /// The document holds no table at all.
    NoTableFound,
    /// A row holds more than two cells reading `100000`.
    TooManyMatchingColumns,
    /// A row holds exactly one cell reading `100000`.
    AsymmetricColumns,
    /// A row holds two cells reading `100000` but none reading `0`.
    MissingRowNumberColumn,
    /// A data row's male or female cell is not a non-negative integer.
    MalformedCellValue,
    /// A survivor count exceeds the cohort size.
    ValueOutOfRange,
    /// A survivor count is larger than the one of the row before.
    NonMonotonicSequence,
    /// The table yields too few data rows.
    InsufficientRows,
}

impl PageError {
    /// A short description of the error.
    pub fn message(&self) -> (r: String) {
        match self {
            PageError::NoTableFound => String::from_str("no table found in the document"),
            PageError::TooManyMatchingColumns => String::from_str("too many columns hold 100000"),
            PageError::AsymmetricColumns => String::from_str("a male column was found but no female one"),
            PageError::MissingRowNumberColumn => String::from_str("survivor columns were found but no row number column"),
            PageError::MalformedCellValue => String::from_str("a survivor cell does not hold an integer"),
            PageError::ValueOutOfRange => String::from_str("a survivor count exceeds the cohort size"),
            PageError::NonMonotonicSequence => String::from_str("survivor counts increase with age"),
            PageError::InsufficientRows => String::from_str("the table has too few data rows"),
        }
    }
}

} // verus!
