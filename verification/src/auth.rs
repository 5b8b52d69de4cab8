//! Sign-in messages and signature checks.

use vstd::prelude::*;
use vstd::string::StringExecFns;

verus! {

/// Authentication utilities.
pub struct GlinAuth;

/// The text a user is asked to sign for `app_name` at the moment written as `timestamp`.
pub open spec fn auth_message_text(app_name: Seq<char>, timestamp: Seq<char>) -> Seq<char> {
    "Sign in to "@ + app_name + "\n\nTimestamp: "@ + timestamp
        + "\n\nThis signature will not trigger a blockchain transaction or cost any fees."@
}

/// Reads the system clock through `chrono::Utc::now` and writes the instant
/// with `chrono::DateTime::to_rfc3339`.
///
/// Nothing is claimed of the text: it depends on the clock. `Utc::now` aborts
/// when the system clock is set before the Unix epoch.
#[verifier::external_body]
fn current_time_rfc3339() -> (text: String) {
    chrono::Utc::now().to_rfc3339()
}

impl GlinAuth {
    /// Checks a signature over `message` by `address`.
    ///
    /// No signature scheme is wired in, so nothing is ever accepted.
    pub fn verify_signature(_address: &str, _message: &str, _signature: &str) -> (valid: bool)
        ensures
            !valid,
    {
        false
    }

    /// Builds the sign-in message for `app_name` with the given timestamp text.
    pub fn auth_message(app_name: &str, timestamp: &str) -> (message: String)
        ensures
            message@ == auth_message_text(app_name@, timestamp@),
    {
        let mut message = String::from_str("Sign in to ");
        message.append(app_name);
        message.append("\n\nTimestamp: ");
        message.append(timestamp);
        message.append(
            "\n\nThis signature will not trigger a blockchain transaction or cost any fees.",
        );
        message
    }

    /// Builds the sign-in message for `app_name`, stamped with the current UTC time.
    pub fn generate_auth_message(app_name: &str) -> (message: String)
        ensures
            exists|timestamp: Seq<char>| message@ == auth_message_text(app_name@, timestamp),
    {
        let timestamp = current_time_rfc3339();
        Self::auth_message(app_name, timestamp.as_str())
    }
}

} // verus!
