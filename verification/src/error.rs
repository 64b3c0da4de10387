use vstd::prelude::*;

verus! {

/// Why a request to the server was refused.
#[derive(Clone, Debug, PartialEq, Eq)]
pub enum ApiError {
    /// A login attempt came too soon after a refused one.
    RateLimited,
    /// The password did not match the configured hash.
    InvalidPassword,
    /// The session token is unknown or has expired.
    InvalidSessionToken,
    /// No command is configured under the requested name.
    NoCommandWithName,
    /// An error from the machinery underneath, with its description.
    Server(String),
}

impl ApiError {
    /// The text that the server reports for this error.
    pub open spec fn spec_message(&self) -> Seq<char> {
        match self {
            ApiError::RateLimited => "Rate limited"@,
            ApiError::InvalidPassword => "Invalid password"@,
            ApiError::InvalidSessionToken => "Invalid session token"@,
            ApiError::NoCommandWithName => "No command with that name"@,
            ApiError::Server(description) => description@,
        }
    }

    /// The text that the server reports for this error.
    pub fn message(&self) -> (text: String)
        ensures
            text@ == self.spec_message(),
    {
        match self {
            ApiError::RateLimited => String::from_str("Rate limited"),
            ApiError::InvalidPassword => String::from_str("Invalid password"),
            ApiError::InvalidSessionToken => String::from_str("Invalid session token"),
            ApiError::NoCommandWithName => String::from_str("No command with that name"),
            ApiError::Server(description) => description.clone(),
        }
    }
}

} // verus!
