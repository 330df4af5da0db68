//! The outcome types shared by the pipeline: failures and imputation policy.
use vstd::prelude::*;

verus! {

/// What to do when the day or the month of a date is missing.
#[derive(Clone, Copy, Debug, PartialEq, Eq, Structural)]
pub enum Imputation {
    /// No value was supplied: a missing component is a fatal error.
    Unspecified,
    /// The caller asked for no imputation: the date stays unresolved.
    Skip,
    /// Fill the missing component with this value.
    Value(i32),
}

/// A date component, as named in a parse failure.
#[derive(Clone, Copy, Debug, PartialEq, Eq, Structural)]
pub enum Component {
    Day,
    Month,
    Year,
}

/// Why a date could not be resolved. Each failure is fatal (it aborts the
/// call, and a whole batch) or soft (the date is only left unresolved).
#[derive(Clone, Copy, Debug, PartialEq, Eq, Structural)]
pub enum DateError {
    /// The order preference is neither `dmy` nor `mdy` where it is needed.
    InvalidFormat,
    MonthOutOfRange,
    DayOutOfRange,
    /// The day is missing and no imputation value was supplied.
    MissingDay,
    /// The month is missing and no imputation value was supplied.
    MissingMonth,
    /// The input is not text.
    NotCharacter,
    /// The input or one of its components is too long to be a date.
    Untidy,
    /// A component that must be a number is not one.
    InvalidComponent(Component),
    /// Two components, neither of which is a four-digit year.
    AmbiguousFormat,
    /// A single component that is not a year.
    InsufficientComponents,
    /// The day was missing and the policy asked to skip imputation.
    SkipRequested,
}

impl DateError {
    pub open spec fn fatal(self) -> bool {
        !(self is InsufficientComponents || self is SkipRequested)
    }

    /// Does this failure abort the call rather than leave the date unresolved?
    pub fn is_fatal(&self) -> (r: bool)
        ensures
            r == self.fatal(),
    {
        match self {
            DateError::InsufficientComponents | DateError::SkipRequested => false,
            _ => true,
        }
    }
}

/// Is `day` a value that the day can be imputed with (1 to 31)?
pub fn day_impute_in_range(day: i64) -> (r: bool)
    ensures
        r == (1 <= day <= 31),
{
    1 <= day && day <= 31
}

} // verus!
