//! Failures of the privileged-access clients.
use vstd::prelude::*;
use crate::text::{decimal, decimal_string, join2, join3, owned};

verus! {

/// What went wrong while talking to Azure.
#[derive(Debug)]
pub enum PimError {
    Auth(String),
    Request(String),
    Parse(String),
    RoleAssignmentExists,
    Api { status: u16, message: String },
    Other(String),
}

/// The text shown for an error.
pub open spec fn error_text(e: PimError) -> Seq<char> {
    match e {
        PimError::Auth(m) => "Authentication failed: "@ + m@,
        PimError::Request(m) => "API request failed: "@ + m@,
        PimError::Parse(m) => "Failed to parse response: "@ + m@,
        PimError::RoleAssignmentExists => "Role assignment already exists"@,
        PimError::Api { status, message } => "API error ("@ + decimal(status as nat) + "): "@
            + message@,
        PimError::Other(m) => m@,
    }
}

impl PimError {
    /// The text shown for this error.
    pub fn message(&self) -> (r: String)
        ensures
            r@ == error_text(*self),
    {
        match self {
            PimError::Auth(m) => join2("Authentication failed: ", m.as_str()),
            PimError::Request(m) => join2("API request failed: ", m.as_str()),
            PimError::Parse(m) => join2("Failed to parse response: ", m.as_str()),
            PimError::RoleAssignmentExists => owned("Role assignment already exists"),
            PimError::Api { status, message } => {
                let code = decimal_string(*status as u64);
                let head = join3("API error (", code.as_str(), "): ");
                join2(head.as_str(), message.as_str())
            },
            PimError::Other(m) => m.clone(),
        }
    }
}

} // verus!
