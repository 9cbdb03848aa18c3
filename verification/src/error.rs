//! Errors raised by the library.

use vstd::prelude::*;

verus! {

/// What went wrong, by the stage that noticed it.
#[derive(Debug)]
pub enum CoreError {
    /// The configuration could not be read or is malformed.
    Config(String),
    /// The configuration parsed but broke one or more rules; every problem is listed.
    ConfigValidation(Vec<String>),
    /// A rule could not be evaluated.
    RuleEvaluation(String),
    /// The hosting platform reported an error.
    Provider(String),
    /// A recipe could not be expanded.
    Recipe(String),
}

} // verus!
