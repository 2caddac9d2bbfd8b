use vstd::prelude::*;
use vstd::utf8::*;

use crate::constant::{MAX_CODE_BYTES, MAX_PASSWORD_BYTES, MIN_PASSWORD_SCORE};
use crate::text::same_text;

verus! {

/// What scoring `password` with zxcvbn can give: nothing for a blank
/// password, and otherwise nothing or a score from 0 to 4.
pub open spec fn possible_score(score: Option<u8>, password: Seq<char>) -> bool {
    &&& (password.len() == 0 ==> score is None)
    &&& (score matches Some(s) ==> s <= 4)
}

/// Scores a password with `zxcvbn::zxcvbn`.
///
/// Trusted: a blank password is refused (`Err(BlankPassword)`, here `None`);
/// a score lies between 0 and 4 (zxcvbn's `calculate_score`). Which score
/// comes back is not stated: zxcvbn measures year and date guesses from the
/// current year (`REFERENCE_YEAR`, read from the clock), so the same password
/// may score differently at another time. zxcvbn also fails when the system
/// clock reads before 1970, so a non-blank password may still get `None`,
/// and it panics if the clock steps back between its two readings, which
/// depends on the machine, not on the arguments, so no `requires` excludes it.
#[verifier::external_body]
pub(crate) fn password_score(password: &str, user_inputs: &[&str]) -> (r: Option<u8>)
    ensures
        possible_score(r, password@),
{
    match zxcvbn::zxcvbn(password, user_inputs) {
        Ok(entropy) => Some(entropy.score()),
        Err(_) => None,
    }
}

/// Length in bytes (UTF-8) of a text.
pub open spec fn byte_len(s: Seq<char>) -> nat {
    encode_utf8(s).len()
}

/// The outcome of checking a new password and its confirmation.
#[derive(Clone, Copy, Debug, PartialEq, Eq, Structural)]
pub enum NewPasswordCheck {
    /// One of the two entries is longer than allowed.
    TooLong,
    /// The two entries differ.
    Mismatch,
    /// The password scores below the minimum strength.
    TooWeak,
    /// The password may be used.
    Accepted,
    /// The strength could not be computed.
    Unscored,
}

/// What a check of `password` and `confirmation` answers, given the strength
/// score of the password (`None` where none could be computed).
pub open spec fn new_password_outcome(password: Seq<char>, confirmation: Seq<char>, score: Option<u8>) -> NewPasswordCheck {
    if byte_len(password) > MAX_PASSWORD_BYTES || byte_len(confirmation) > MAX_PASSWORD_BYTES {
        NewPasswordCheck::TooLong
    } else if password != confirmation {
        NewPasswordCheck::Mismatch
    } else {
        match score {
            Some(s) => if s < MIN_PASSWORD_SCORE {
                NewPasswordCheck::TooWeak
            } else {
                NewPasswordCheck::Accepted
            },
            None => NewPasswordCheck::Unscored,
        }
    }
}

/// Whether a password entry is short enough to be considered.
pub fn is_password_length_ok(password: &str) -> (r: bool)
    ensures
        r == (byte_len(password@) <= MAX_PASSWORD_BYTES),
{
    password.as_bytes().len() <= MAX_PASSWORD_BYTES
}

/// Whether a one-time code entry is short enough to be considered.
pub fn is_code_length_ok(code: &str) -> (r: bool)
    ensures
        r == (byte_len(code@) <= MAX_CODE_BYTES),
{
    code.as_bytes().len() <= MAX_CODE_BYTES
}

/// Judges a new password and its confirmation given the strength score of the
/// password (`None` where none could be computed): too long, different, too
/// weak, accepted, or unscored.
pub fn classify_new_password(password: &str, confirmation: &str, score: Option<u8>) -> (r: NewPasswordCheck)
    ensures
        r == new_password_outcome(password@, confirmation@, score),
{
    if !is_password_length_ok(password) || !is_password_length_ok(confirmation) {
        return NewPasswordCheck::TooLong;
    }
    if !same_text(password, confirmation) {
        return NewPasswordCheck::Mismatch;
    }
    match score {
        Some(s) => if s < MIN_PASSWORD_SCORE {
            NewPasswordCheck::TooWeak
        } else {
            NewPasswordCheck::Accepted
        },
        None => NewPasswordCheck::Unscored,
    }
}

/// Checks a new password and its confirmation: both short enough, equal, and
/// strong enough by zxcvbn (no user inputs, and only once the first two
/// checks pass). Two blank entries are left out: zxcvbn refuses a blank
/// password.
pub fn check_new_password(password: &str, confirmation: &str) -> (r: NewPasswordCheck)
    requires
        password@.len() > 0 || confirmation@.len() > 0,
    ensures
        exists|score: Option<u8>|
            possible_score(score, password@) && r == #[trigger] new_password_outcome(
                password@,
                confirmation@,
                score,
            ),
{
    if !is_password_length_ok(password) || !is_password_length_ok(confirmation)
        || !same_text(password, confirmation) {
        let r = classify_new_password(password, confirmation, None);
        assert(possible_score(None, password@));
        return r;
    }
    let no_inputs: [&str; 0] = [];
    let score = password_score(password, no_inputs.as_slice());
    classify_new_password(password, confirmation, score)
}

} // verus!
