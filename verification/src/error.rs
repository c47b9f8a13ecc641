//! Errors: the error body that the Metrika API answers with, and the errors
//! of this library.

use vstd::prelude::*;

verus! {

/// The body of an error answer of the Metrika API.
#[derive(Debug, Clone)]
pub struct ErrorResponseMetrika {
    pub errors: Vec<ErrorDetail>,
    pub code: u16,
    pub message: String,
}

/// One error listed in an error answer of the Metrika API.
#[derive(Debug, Clone)]
pub struct ErrorDetail {
    pub error_type: String,
    pub message: String,
}

/// Why a request of the service failed.
#[derive(Debug, Clone)]
pub enum MetrikaError {
    /// The Metrika API answered with an error; the text is its message.
    Api(String),
    /// Statistics were asked for a counter none of whose goals is selected.
    NoSelectedGoals,
}

/// The text that reports that no goal of a counter is selected.
pub open spec fn no_selected_goals_text() -> Seq<char> {
    "Нет выбранных целей"@
}

impl MetrikaError {
    /// The text that describes the error.
    pub open spec fn spec_message(&self) -> Seq<char> {
        match self {
            MetrikaError::Api(m) => m@,
            MetrikaError::NoSelectedGoals => no_selected_goals_text(),
        }
    }

    /// The text that describes the error: the API's own message, or the
    /// service's text for a counter with no selected goal.
    pub fn message(&self) -> (s: String)
        ensures
            s@ == self.spec_message(),
    {
        match self {
            MetrikaError::Api(m) => m.clone(),
            MetrikaError::NoSelectedGoals => String::from_str("Нет выбранных целей"),
        }
    }
}

} // verus!
