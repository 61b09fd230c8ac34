//! The actions the tool offers and why one cannot run.
use vstd::prelude::*;
use crate::text::{chars_of, extend_str, string_of};

verus! {

/// Why an action cannot run.
#[derive(Debug, Clone, PartialEq, Eq)]
pub enum ActionError {
    Unknown(String),
    Unavailable(String),
    ConfirmationRequired(String),
    RootRequired(String),
    Authorization(String, String),
    InputRequired(String),
    Launch(String),
}

/// The message shown for an error.
pub open spec fn action_error_message(e: ActionError) -> Seq<char> {
    match e {
        ActionError::Unknown(id) => "unknown action: "@ + id@,
        ActionError::Unavailable(title) => "action is unavailable: "@ + title@,
        ActionError::ConfirmationRequired(title) => "confirmation is required for "@ + title@,
        ActionError::RootRequired(title) => title@ + " requires root privileges"@,
        ActionError::Authorization(title, detail) => "administrator authorization failed for "@
            + title@ + ": "@ + detail@,
        ActionError::InputRequired(title) => title@ + " requires guided input"@,
        ActionError::Launch(detail) => "unable to start action: "@ + detail@,
    }
}

/// The characters of `a`, then of `b`, then of `c`.
pub fn join3(a: &str, b: &str, c: &str) -> (r: String)
    ensures
        r@ == a@ + b@ + c@,
{
    let mut v = chars_of(a);
    extend_str(&mut v, b);
    extend_str(&mut v, c);
    string_of(&v)
}

impl ActionError {
    /// The message shown for this error (see [`action_error_message`]).
    pub fn message(&self) -> (r: String)
        ensures
            r@ == action_error_message(*self),
    {
        proof {
            reveal_strlit("");
        }
        match self {
            ActionError::Unknown(id) => join3("unknown action: ", id.as_str(), ""),
            ActionError::Unavailable(title) => join3("action is unavailable: ", title.as_str(), ""),
            ActionError::ConfirmationRequired(title) => join3(
                "confirmation is required for ",
                title.as_str(),
                "",
            ),
            ActionError::RootRequired(title) => join3("", title.as_str(), " requires root privileges"),
            ActionError::Authorization(title, detail) => {
                let mut v = chars_of("administrator authorization failed for ");
                extend_str(&mut v, title.as_str());
                extend_str(&mut v, ": ");
                extend_str(&mut v, detail.as_str());
                string_of(&v)
            },
            ActionError::InputRequired(title) => join3("", title.as_str(), " requires guided input"),
            ActionError::Launch(detail) => join3("unable to start action: ", detail.as_str(), ""),
        }
    }
}

} // verus!
