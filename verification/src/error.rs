use vstd::prelude::*;

use crate::text::str_to_string;

verus! {

/// Errors raised by the turn order list.
#[derive(Debug, Clone, Copy, PartialEq, Eq, Structural)]
pub enum DataError {
    /// The list holds no unit yet.
    EmptyList,
}

impl DataError {
    /// The human readable explanation of the error.
    pub fn message(&self) -> (s: String)
        ensures
            s@ == "empty List, check if the generate function was ran before"@,
    {
        match self {
            DataError::EmptyList => str_to_string(
                "empty List, check if the generate function was ran before",
            ),
        }
    }
}

} // verus!
