use vstd::prelude::*;

verus! {

/// The errors that the library's operations report.
#[derive(Debug, Clone, PartialEq, Eq)]
pub enum OError {
    /// The lower bound of a bounded number is not below its upper bound
    /// (lower bound, upper bound).
    TooLargeLowerBound(String, String),
    /// A variable value was read as a type it does not hold (expected type).
    WrongVariableType(String),
    /// A name was looked up and is not defined (kind of item, name).
    NonExistingName(String, String),
    /// An algorithm was given options it cannot start with (algorithm, reason).
    AlgorithmInit(String, String),
    /// An algorithm failed while it ran (operator, reason).
    AlgorithmRun(String, String),
}

} // verus!
