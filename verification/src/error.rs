use vstd::prelude::*;

verus! {

/// Failures the browser core and its shell can report.
#[derive(Debug, Clone, PartialEq, Eq)]
pub enum Error {
    Network(String),
    UnexpectedInput(String),
    InvalidUI(String),
    Other(String),
}

} // verus!
