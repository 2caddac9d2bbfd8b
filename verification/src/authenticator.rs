use vstd::prelude::*;

use google_authenticator::{ErrorCorrectionLevel, GoogleAuthenticator};

verus! {

/// How much damage a QR code survives (google_authenticator's `ErrorCorrectionLevel`).
#[derive(Clone, Copy, Debug, PartialEq, Eq, Structural)]
pub enum QrLevel {
    Low,
    Medium,
    Quartile,
    High,
}

/// The characters of a Google Authenticator secret: the Base32 letters `A`-`Z`
/// and digits `2`-`7`.
pub open spec fn is_secret_char(c: char) -> bool {
    ('A' <= c && c <= 'Z') || ('2' <= c && c <= '7')
}

/// A one-time code as Google Authenticator shows it: six ASCII digits.
pub open spec fn is_six_digit_code(code: Seq<char>) -> bool {
    &&& code.len() == 6
    &&& forall|i: int| 0 <= i < code.len() ==> '0' <= #[trigger] code[i] && code[i] <= '9'
}

/// The link to the QR code that `GoogleAuthenticator::qr_code_url` builds.
pub uninterp spec fn qr_code_url_of(
    secret: Seq<char>,
    name: Seq<char>,
    title: Seq<char>,
    width: u32,
    height: u32,
    level: QrLevel,
) -> Seq<char>;

/// Whether `GoogleAuthenticator::verify_code` accepts `code` for `secret`,
/// allowing `discrepancy` time slices either side of `time_slice` (where
/// `time_slice > discrepancy`, so that no slice is taken from the clock).
pub uninterp spec fn totp_accepts(
    secret: Seq<char>,
    code: Seq<char>,
    discrepancy: u64,
    time_slice: u64,
) -> bool;

/// Draws a new secret with `GoogleAuthenticator::create_secret` (default
/// authenticator).
///
/// Trusted: the secret has `length` characters, each one of the Base32
/// alphabet without the padding `=` (the crate masks each random byte to an
/// index below 32). Which characters are drawn is not stated.
#[verifier::external_body]
pub(crate) fn create_secret(length: u8) -> (r: String)
    ensures
        r@.len() == length,
        forall|i: int| 0 <= i < r@.len() ==> is_secret_char(#[trigger] r@[i]),
{
    GoogleAuthenticator::new().create_secret(length)
}

/// Builds the QR code link with `GoogleAuthenticator::qr_code_url`.
///
/// Trusted: the link depends on the arguments alone (the crate formats them,
/// percent-encoded, into a chart URL); it is named `qr_code_url_of`.
#[verifier::external_body]
pub(crate) fn qr_code_url(
    secret: &str,
    name: &str,
    title: &str,
    width: u32,
    height: u32,
    level: QrLevel,
) -> (r: String)
    ensures
        r@ == qr_code_url_of(secret@, name@, title@, width, height, level),
{
    let level = match level {
        QrLevel::Low => ErrorCorrectionLevel::Low,
        QrLevel::Medium => ErrorCorrectionLevel::Medium,
        QrLevel::Quartile => ErrorCorrectionLevel::Quartile,
        QrLevel::High => ErrorCorrectionLevel::High,
    };
    GoogleAuthenticator::new().qr_code_url(secret, name, title, width, height, level)
}

/// Checks a one-time code with `GoogleAuthenticator::verify_code` (default
/// authenticator, six-digit codes) at the given time slice.
///
/// Trusted: the crate checks the slices from `time_slice - discrepancy` (not
/// below 0) to `time_slice + discrepancy`, and for slice 0 (given, or reached
/// at the low end of that window) it reads the clock. So only where
/// `time_slice > discrepancy` is no slice 0 checked and the answer a function
/// of the arguments (named `totp_accepts`); otherwise nothing more than the
/// next point is stated. It accepts only a code equal to one it generates,
/// which is six digits. The crate adds 1 to `discrepancy`, so `u64::MAX` is
/// left out.
#[verifier::external_body]
pub(crate) fn verify_code(secret: &str, code: &str, discrepancy: u64, time_slice: u64) -> (r: bool)
    requires
        discrepancy < u64::MAX,
    ensures
        time_slice > discrepancy ==> r == totp_accepts(secret@, code@, discrepancy, time_slice),
        r ==> is_six_digit_code(code@),
{
    GoogleAuthenticator::new().verify_code(secret, code, discrepancy, time_slice)
}

} // verus!
