//! How errors reach the desktop and HTTP front ends: a stable code, an
//! HTTP status and the message.
use vstd::prelude::*;
use crate::actions::{action_error_message, ActionError};
use crate::source_plan::{source_error_message, SourceError};
use crate::hardware::{hardware_error_message, HardwareError};

verus! {

/// An error as the front ends report it.
pub trait ErrorReport {
    /// The stable code of the error.
    spec fn code_spec(&self) -> Seq<char>;

    /// The HTTP status of the error.
    spec fn status_spec(&self) -> u16;

    /// The message of the error.
    spec fn message_spec(&self) -> Seq<char>;

    fn code(&self) -> (r: &'static str)
        ensures
            r@ == self.code_spec(),
    ;

    fn http_status(&self) -> (r: u16)
        ensures
            r == self.status_spec(),
    ;

    fn report_message(&self) -> (r: String)
        ensures
            r@ == self.message_spec(),
    ;
}

impl ErrorReport for ActionError {
    open spec fn code_spec(&self) -> Seq<char> {
        match self {
            ActionError::Unknown(_) => "unknown_action"@,
            ActionError::ConfirmationRequired(_) => "confirmation_required"@,
            ActionError::Unavailable(_) => "action_unavailable"@,
            ActionError::RootRequired(_) => "root_required"@,
            ActionError::Authorization(_, _) => "authorization_failed"@,
            ActionError::InputRequired(_) => "input_required"@,
            ActionError::Launch(_) => "internal_error"@,
        }
    }

    open spec fn status_spec(&self) -> u16 {
        match self {
            ActionError::Unknown(_) => 404,
            ActionError::ConfirmationRequired(_) => 409,
            ActionError::Unavailable(_) => 422,
            ActionError::RootRequired(_) => 403,
            ActionError::Authorization(_, _) => 403,
            ActionError::InputRequired(_) => 422,
            ActionError::Launch(_) => 500,
        }
    }

    open spec fn message_spec(&self) -> Seq<char> {
        action_error_message(*self)
    }

    fn code(&self) -> (r: &'static str) {
        match self {
            ActionError::Unknown(_) => "unknown_action",
            ActionError::ConfirmationRequired(_) => "confirmation_required",
            ActionError::Unavailable(_) => "action_unavailable",
            ActionError::RootRequired(_) => "root_required",
            ActionError::Authorization(_, _) => "authorization_failed",
            ActionError::InputRequired(_) => "input_required",
            ActionError::Launch(_) => "internal_error",
        }
    }

    fn http_status(&self) -> (r: u16) {
        match self {
            ActionError::Unknown(_) => 404,
            ActionError::ConfirmationRequired(_) => 409,
            ActionError::Unavailable(_) => 422,
            ActionError::RootRequired(_) => 403,
            ActionError::Authorization(_, _) => 403,
            ActionError::InputRequired(_) => 422,
            ActionError::Launch(_) => 500,
        }
    }

    fn report_message(&self) -> (r: String) {
        self.message()
    }
}

impl ErrorReport for HardwareError {
    open spec fn code_spec(&self) -> Seq<char> {
        match self {
            HardwareError::Unsupported(_) => "hardware_unsupported"@,
            HardwareError::InvalidInput(_) => "invalid_hardware_selection"@,
            HardwareError::Conflict(_) => "hardware_conflict"@,
            HardwareError::ConfirmationRequired => "confirmation_required"@,
            HardwareError::PlanRequired => "plan_required"@,
            HardwareError::StalePlan => "stale_plan"@,
            HardwareError::RootRequired => "root_required"@,
            HardwareError::Authorization(_) => "authorization_failed"@,
            HardwareError::Io(_) => "internal_error"@,
        }
    }

    open spec fn status_spec(&self) -> u16 {
        match self {
            HardwareError::Unsupported(_) => 422,
            HardwareError::InvalidInput(_) => 400,
            HardwareError::Conflict(_) => 409,
            HardwareError::ConfirmationRequired => 409,
            HardwareError::PlanRequired => 409,
            HardwareError::StalePlan => 409,
            HardwareError::RootRequired => 403,
            HardwareError::Authorization(_) => 403,
            HardwareError::Io(_) => 500,
        }
    }

    open spec fn message_spec(&self) -> Seq<char> {
        hardware_error_message(*self)
    }

    fn code(&self) -> (r: &'static str) {
        match self {
            HardwareError::Unsupported(_) => "hardware_unsupported",
            HardwareError::InvalidInput(_) => "invalid_hardware_selection",
            HardwareError::Conflict(_) => "hardware_conflict",
            HardwareError::ConfirmationRequired => "confirmation_required",
            HardwareError::PlanRequired => "plan_required",
            HardwareError::StalePlan => "stale_plan",
            HardwareError::RootRequired => "root_required",
            HardwareError::Authorization(_) => "authorization_failed",
            HardwareError::Io(_) => "internal_error",
        }
    }

    fn http_status(&self) -> (r: u16) {
        match self {
            HardwareError::Unsupported(_) => 422,
            HardwareError::InvalidInput(_) => 400,
            HardwareError::Conflict(_) => 409,
            HardwareError::ConfirmationRequired => 409,
            HardwareError::PlanRequired => 409,
            HardwareError::StalePlan => 409,
            HardwareError::RootRequired => 403,
            HardwareError::Authorization(_) => 403,
            HardwareError::Io(_) => 500,
        }
    }

    fn report_message(&self) -> (r: String) {
        self.message()
    }
}

impl ErrorReport for SourceError {
    open spec fn code_spec(&self) -> Seq<char> {
        match self {
            SourceError::UnknownProvider(_) => "unknown_mirror"@,
            SourceError::Unsupported(_) => "sources_unsupported"@,
            SourceError::ConfirmationRequired => "confirmation_required"@,
            SourceError::PlanRequired => "plan_required"@,
            SourceError::StalePlan => "stale_plan"@,
            SourceError::RootRequired => "root_required"@,
            SourceError::Io(_) => "internal_error"@,
        }
    }

    open spec fn status_spec(&self) -> u16 {
        match self {
            SourceError::UnknownProvider(_) => 404,
            SourceError::Unsupported(_) => 422,
            SourceError::ConfirmationRequired => 409,
            SourceError::PlanRequired => 409,
            SourceError::StalePlan => 409,
            SourceError::RootRequired => 403,
            SourceError::Io(_) => 500,
        }
    }

    open spec fn message_spec(&self) -> Seq<char> {
        source_error_message(*self)
    }

    fn code(&self) -> (r: &'static str) {
        match self {
            SourceError::UnknownProvider(_) => "unknown_mirror",
            SourceError::Unsupported(_) => "sources_unsupported",
            SourceError::ConfirmationRequired => "confirmation_required",
            SourceError::PlanRequired => "plan_required",
            SourceError::StalePlan => "stale_plan",
            SourceError::RootRequired => "root_required",
            SourceError::Io(_) => "internal_error",
        }
    }

    fn http_status(&self) -> (r: u16) {
        match self {
            SourceError::UnknownProvider(_) => 404,
            SourceError::Unsupported(_) => 422,
            SourceError::ConfirmationRequired => 409,
            SourceError::PlanRequired => 409,
            SourceError::StalePlan => 409,
            SourceError::RootRequired => 403,
            SourceError::Io(_) => 500,
        }
    }

    fn report_message(&self) -> (r: String) {
        self.message()
    }
}

/// An error as the desktop front end receives it.
#[derive(Debug)]
pub struct CommandError {
    pub code: &'static str,
    pub message: String,
}

impl CommandError {
    /// The report of an error: its code and its message.
    pub fn from<E: ErrorReport>(error: E) -> (r: CommandError)
        ensures
            r.code@ == error.code_spec(),
            r.message@ == error.message_spec(),
    {
        CommandError { code: error.code(), message: error.report_message() }
    }
}

} // verus!
