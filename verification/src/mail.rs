use vstd::prelude::*;

use crate::constant::{WEBSITE_EMAIL, WEBSITE_NAME};
use crate::text::chars_of;

verus! {

/// An ASCII letter.
pub open spec fn is_letter(c: char) -> bool {
    ('a' <= c && c <= 'z') || ('A' <= c && c <= 'Z')
}

/// An ASCII letter or digit.
pub open spec fn is_alphanumeric(c: char) -> bool {
    is_letter(c) || ('0' <= c && c <= '9')
}

/// A character allowed before the `@` of an address.
pub open spec fn is_local_char(c: char) -> bool {
    is_alphanumeric(c) || c == '.' || c == '_' || c == '%' || c == '+' || c == '-'
}

/// A character allowed in the domain of an address, before its last dot.
pub open spec fn is_domain_char(c: char) -> bool {
    is_alphanumeric(c) || c == '.' || c == '-'
}

/// `s` splits as `local@domain.tld` at the `@` in position `at` and the dot in
/// position `dot`: a non-empty local part, a non-empty domain, and a
/// top-level domain of at least two letters.
pub open spec fn splits_as_address(s: Seq<char>, at: int, dot: int) -> bool {
    &&& 0 < at
    &&& at + 1 < dot
    &&& dot + 2 < s.len()
    &&& s[at] == '@'
    &&& s[dot] == '.'
    &&& forall|i: int| 0 <= i < at ==> is_local_char(#[trigger] s[i])
    &&& forall|i: int| at < i < dot ==> is_domain_char(#[trigger] s[i])
    &&& forall|i: int| dot < i < s.len() ==> is_letter(#[trigger] s[i])
}

/// `s` has the shape of an email address (`local@domain.tld`).
pub open spec fn is_email_address(s: Seq<char>) -> bool {
    exists|at: int, dot: int| splits_as_address(s, at, dot)
}

fn letter(c: char) -> (r: bool)
    ensures
        r == is_letter(c),
{
    ('a' <= c && c <= 'z') || ('A' <= c && c <= 'Z')
}

fn alphanumeric(c: char) -> (r: bool)
    ensures
        r == is_alphanumeric(c),
{
    letter(c) || ('0' <= c && c <= '9')
}

fn local_char(c: char) -> (r: bool)
    ensures
        r == is_local_char(c),
{
    alphanumeric(c) || c == '.' || c == '_' || c == '%' || c == '+' || c == '-'
}

fn domain_char(c: char) -> (r: bool)
    ensures
        r == is_domain_char(c),
{
    alphanumeric(c) || c == '.' || c == '-'
}

/// Whether `email` has the shape of an email address: `local@domain.tld`,
/// with a local part of letters, digits and `._%+-`, a domain of letters,
/// digits and `.-`, and a top-level domain of at least two letters.
pub fn is_email_valid(email: &str) -> (r: bool)
    ensures
        r == is_email_address(email@),
{
    let s = chars_of(email);
    let n: usize = s.len();
    // the first '@'
    let mut at: usize = 0;
    while at < n && s[at] != '@'
        invariant
            at <= n,
            n == s@.len(),
            forall|i: int| 0 <= i < at ==> s@[i] != '@',
        decreases n - at,
    {
        at = at + 1;
    }
    // the last '.'
    let mut end: usize = n;
    while end > 0 && s[end - 1] != '.'
        invariant
            end <= n,
            n == s@.len(),
            forall|i: int| end <= i < n ==> s@[i] != '.',
        decreases end,
    {
        end = end - 1;
    }
    if at == n || end == 0 {
        proof {
            if exists|a: int, d: int| splits_as_address(s@, a, d) {
                let (a, d) = choose|a: int, d: int| splits_as_address(s@, a, d);
                if at == n {
                    assert(s@[a] == '@');
                } else {
                    assert(s@[d] == '.');
                }
            }
        }
        return false;
    }
    let dot: usize = end - 1;
    let mut ok = 0 < at && at + 1 < dot && n - dot > 2;
    let mut i: usize = 0;
    while ok && i < n
        invariant
            n == s@.len(),
            i <= n,
            ok ==> 0 < at && at + 1 < dot && dot + 2 < n,
            ok ==> forall|k: int| 0 <= k < i ==> {
                &&& (k < at ==> is_local_char(s@[k]))
                &&& (at < k < dot ==> is_domain_char(s@[k]))
                &&& (dot < k ==> is_letter(s@[k]))
            },
            !ok ==> !(0 < at && at + 1 < dot && dot + 2 < n) || exists|k: int| 0 <= k < n && {
                ||| (k < at && !is_local_char(s@[k]))
                ||| (at < k < dot && !is_domain_char(s@[k]))
                ||| (dot < k && !is_letter(s@[k]))
            },
        decreases n - i,
    {
        let c = s[i];
        if i < at {
            ok = local_char(c);
        } else if at < i && i < dot {
            ok = domain_char(c);
        } else if dot < i {
            ok = letter(c);
        }
        i = i + 1;
    }
    proof {
        let e = email@;
        assert(s@ == e);
        if ok {
            assert(splits_as_address(e, at as int, dot as int));
        } else if exists|a: int, d: int| splits_as_address(e, a, d) {
            let (a, d) = choose|a: int, d: int| splits_as_address(e, a, d);
            // the '@' of the split is the first one, its dot the last one
            if (at as int) < a {
                assert(is_local_char(e[at as int]));
            }
            assert(at as int == a);
            if d < dot as int {
                assert(is_letter(e[dot as int]));
            }
            assert(dot as int == d);
            if 0 < at && at + 1 < dot && dot + 2 < n {
                let k: int = choose|k: int| 0 <= k < n && {
                    ||| (k < at && !is_local_char(s@[k]))
                    ||| (at < k < dot && !is_domain_char(s@[k]))
                    ||| (dot < k && !is_letter(s@[k]))
                };
                assert(0 <= k < e.len());
            }
        }
    }
    ok
}

/// The text of a mail as the mailbox stores it: date, sender, recipient,
/// object, then the message.
pub open spec fn mail_text(date: Seq<char>, address: Seq<char>, object: Seq<char>, message: Seq<char>) -> Seq<char> {
    "Date: "@ + date + "\nFrom: "@ + WEBSITE_EMAIL@ + "\nTo: "@ + address + "\nObject: "@ + object
        + "\nMessage:\n"@ + message
}

/// Writes the text of a mail from the service to `address`.
pub fn compose_mail(date: &str, address: &str, object: &str, message: &str) -> (r: String)
    ensures
        r@ == mail_text(date@, address@, object@, message@),
{
    let mut out = String::from_str("Date: ");
    out.append(date);
    out.append("\nFrom: ");
    out.append(WEBSITE_EMAIL);
    out.append("\nTo: ");
    out.append(address);
    out.append("\nObject: ");
    out.append(object);
    out.append("\nMessage:\n");
    out.append(message);
    out
}

/// Object of the mail that carries the Google Authenticator QR code.
pub fn two_fa_mail_subject() -> (r: String)
    ensures
        r@ == "Your 2fa qr code"@,
{
    String::from_str("Your 2fa qr code")
}

/// The opening of the mail that carries the Google Authenticator QR code link.
pub open spec fn two_fa_mail_intro() -> Seq<char> {
    "Here is your qr code link for 2FA.\nYou should activate 2FA on your phone with google authenticator as soon as possible,\nIt is required to continue using our service.\nThis mail should be saved if you want to add other devices\n"@
}

/// The mail that carries the Google Authenticator QR code link.
pub fn two_fa_mail_message(qr_code_url: &str) -> (r: String)
    ensures
        r@ == two_fa_mail_intro() + qr_code_url@,
{
    let mut out = String::from_str(
        "Here is your qr code link for 2FA.\nYou should activate 2FA on your phone with google authenticator as soon as possible,\nIt is required to continue using our service.\nThis mail should be saved if you want to add other devices\n",
    );
    out.append(qr_code_url);
    out
}

/// Object of the mail that answers a registration request.
pub fn registration_subject() -> (r: String)
    ensures
        r@ == "Registration to "@ + WEBSITE_NAME@,
{
    let mut out = String::from_str("Registration to ");
    out.append(WEBSITE_NAME);
    out
}

/// The mail that answers a registration request: the token, or, for an
/// email already registered (no token), a notice.
pub fn registration_message(token: Option<&str>) -> (r: String)
    ensures
        match token {
            Some(t) => r@ == "Here is your token:\n"@ + t@,
            None => r@ == "You are already registered\nIf this message wasn't expected, please ignore it."@,
        },
{
    match token {
        Some(t) => {
            let mut out = String::from_str("Here is your token:\n");
            out.append(t);
            out
        },
        None => String::from_str("You are already registered\nIf this message wasn't expected, please ignore it."),
    }
}

/// Object of the mail that carries a password reset token.
pub fn password_reset_subject() -> (r: String)
    ensures
        r@ == "Password reset to "@ + WEBSITE_NAME@,
{
    let mut out = String::from_str("Password reset to ");
    out.append(WEBSITE_NAME);
    out
}

/// The mail that carries a password reset token.
pub fn password_reset_message(token: &str) -> (r: String)
    ensures
        r@ == "Here is your password reset token.\nIf this mail wasn't expected, please ignore it.\n"@ + token@,
{
    let mut out = String::from_str(
        "Here is your password reset token.\nIf this mail wasn't expected, please ignore it.\n",
    );
    out.append(token);
    out
}

} // verus!
