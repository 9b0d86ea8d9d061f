//! The library's error type and its human-readable messages.

use vstd::prelude::*;
use crate::text::{concat, concat3, signed_decimal, signed_decimal_string};

verus! {

/// Every failure the library reports.
#[derive(Debug, Clone, PartialEq, Eq)]
pub enum AetherError {
    /// Malformed or missing configuration or command arguments.
    Config(String),
    /// The version-control executable failed.
    Jj { message: String, exit_code: i32 },
    /// A container-engine call failed, including "service not found".
    Backend(String),
    /// No free port could be obtained.
    PortAllocation(String),
    /// A template could not be rendered.
    ContextInjection(String),
    /// The registry could not be read, written or locked.
    State(String),
    /// An underlying filesystem failure, carried as its message.
    Io(String),
    /// An underlying JSON failure, carried as its message.
    Json(String),
    /// An underlying TOML failure, carried as its message.
    Toml(String),
}

impl AetherError {
    /// The text shown for this error.
    pub open spec fn spec_message(&self) -> Seq<char> {
        match self {
            AetherError::Config(m) => "Configuration error: "@ + m@,
            AetherError::Jj { message, exit_code } => "Jujutsu command failed: "@ + message@
                + " (exit code: "@ + signed_decimal(*exit_code as int) + ")"@,
            AetherError::Backend(m) => "Backend error: "@ + m@,
            AetherError::PortAllocation(m) => "Port allocation failed: "@ + m@,
            AetherError::ContextInjection(m) => "Context injection failed: "@ + m@,
            AetherError::State(m) => "State management error: "@ + m@,
            AetherError::Io(m) => m@,
            AetherError::Json(m) => m@,
            AetherError::Toml(m) => m@,
        }
    }

    /// The text shown for this error.
    pub fn to_string(&self) -> (r: String)
        ensures
            r@ == self.spec_message(),
    {
        match self {
            AetherError::Config(m) => concat("Configuration error: ", m.as_str()),
            AetherError::Jj { message, exit_code } => {
                let code = signed_decimal_string(*exit_code as i64);
                let head = concat3("Jujutsu command failed: ", message.as_str(), " (exit code: ");
                concat3(head.as_str(), code.as_str(), ")")
            },
            AetherError::Backend(m) => concat("Backend error: ", m.as_str()),
            AetherError::PortAllocation(m) => concat("Port allocation failed: ", m.as_str()),
            AetherError::ContextInjection(m) => concat("Context injection failed: ", m.as_str()),
            AetherError::State(m) => concat("State management error: ", m.as_str()),
            AetherError::Io(m) => m.clone(),
            AetherError::Json(m) => m.clone(),
            AetherError::Toml(m) => m.clone(),
        }
    }
}

} // verus!
