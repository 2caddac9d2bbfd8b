use vstd::prelude::*;

verus! {

/// The name under which the service presents itself.
pub const WEBSITE_NAME: &'static str = "CoolWebsite";

/// The address the service's mails come from.
pub const WEBSITE_EMAIL: &'static str = "no-reply@coolwebsite.com";

/// What a refused authentication is answered.
pub const AUTH_FAILED: &'static str = "Authentication failed.";

/// What an unknown or expired token is answered.
pub const INVALID_TOKEN: &'static str = "This token is invalid or has expired.";

/// How long a token stays valid, in minutes.
pub const TTL: i64 = 15;

/// Length of a new Google Authenticator secret.
pub const SECRET_LENGTH: u8 = 32;

/// How many time slices before and after the current one a one-time code may
/// come from.
pub const TOTP_DISCREPANCY: u64 = 3;

/// Length in seconds of a one-time code's time slice.
pub const TOTP_PERIOD_SECS: i64 = 30;

/// Number of random bytes in a token.
pub const TOKEN_RANDOM_BYTES: usize = 256;

/// Longest password accepted, in bytes.
pub const MAX_PASSWORD_BYTES: usize = 64;

/// Longest one-time code accepted at the prompt, in bytes.
pub const MAX_CODE_BYTES: usize = 6;

/// Lowest zxcvbn score (0 to 4) that a new password must reach.
pub const MIN_PASSWORD_SCORE: u8 = 3;

} // verus!
