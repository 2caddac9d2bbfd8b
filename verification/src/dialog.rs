use vstd::prelude::*;

use crate::credential::AuthError;
use crate::mail::{is_email_address, is_email_valid};
use crate::password::{
    byte_len, classify_new_password, is_code_length_ok, is_password_length_ok, new_password_outcome,
    password_score, possible_score, NewPasswordCheck,
};
use crate::text::same_text;
use crate::constant::{MAX_CODE_BYTES, MAX_PASSWORD_BYTES};

verus! {

/// Prompt for the email of a login.
pub const EMAIL_PROMPT: &'static str = "Please enter an email address: ";

/// Answer to an entry that is not an email address.
pub const BAD_EMAIL: &'static str = "Your email is not a real email address.";

/// Prompt for the password of a login.
pub const PASSWORD_PROMPT: &'static str = "Please enter a password: ";

/// Answer to a password entry that is too long.
pub const PASSWORD_TOO_LONG: &'static str = "password too long.";

/// Prompt for a one-time code.
pub const CODE_PROMPT: &'static str = "Please enter a google auth token: ";

/// Answer to a one-time code entry that is too long.
pub const CODE_TOO_LONG: &'static str = "token too long.";

/// Answer to a refused one-time code during a password reset.
pub const RESET_REJECTED: &'static str = "Invalid google auth, password reset rejected.";

/// Whether a menu entry is one of the `numbers_of_choices` choices, counted
/// from 1.
pub fn is_valid_choice(choice: u32, numbers_of_choices: u32) -> (r: bool)
    ensures
        r == (1 <= choice && choice <= numbers_of_choices),
{
    choice <= numbers_of_choices && choice != 0
}

/// Where a login dialog stands.
#[derive(Debug)]
pub enum LoginState {
    /// Waiting for the email.
    AskEmail,
    /// Waiting for the password of `email`.
    AskPassword { email: String },
    /// Waiting to learn whether `email` asks for the second factor.
    AwaitTwoFactor { email: String, password: String },
    /// Waiting for the one-time code.
    AskCode { email: String, password: String },
    /// Nothing more to ask.
    Finished,
}

/// What happens to a login dialog.
#[derive(Debug)]
pub enum LoginEvent {
    /// The user entered a line.
    Entered(String),
    /// The store answered whether the account asks for the second factor.
    TwoFactorStatus(Result<bool, AuthError>),
}

/// What the program does next in a login dialog.
#[derive(Debug)]
pub enum LoginAction {
    /// Show the prompt and read a line.
    Prompt(&'static str),
    /// Show the complaint, then the prompt, and read a line.
    Complain(&'static str, &'static str),
    /// Find out whether the account of this email asks for the second factor.
    LookUpTwoFactor(String),
    /// Check these entries against the store (no code where the second
    /// factor is off).
    Verify { email: String, password: String, code: Option<String> },
    /// Refuse the login.
    Refuse(AuthError),
    /// The event does not fit the state; nothing to do.
    Ignore,
}

/// The login dialog's next state and action.
pub open spec fn login_next(state: LoginState, event: LoginEvent) -> (LoginState, LoginAction) {
    match (state, event) {
        (LoginState::AskEmail, LoginEvent::Entered(e)) => if is_email_address(e@) {
            (LoginState::AskPassword { email: e }, LoginAction::Prompt(PASSWORD_PROMPT))
        } else {
            (LoginState::AskEmail, LoginAction::Complain(BAD_EMAIL, EMAIL_PROMPT))
        },
        (LoginState::AskPassword { email }, LoginEvent::Entered(p)) => if byte_len(p@) <= MAX_PASSWORD_BYTES {
            (LoginState::AwaitTwoFactor { email, password: p }, LoginAction::LookUpTwoFactor(email))
        } else {
            (LoginState::AskPassword { email }, LoginAction::Complain(PASSWORD_TOO_LONG, PASSWORD_PROMPT))
        },
        (LoginState::AwaitTwoFactor { email, password }, LoginEvent::TwoFactorStatus(status)) => match status {
            Ok(true) => (LoginState::AskCode { email, password }, LoginAction::Prompt(CODE_PROMPT)),
            Ok(false) => (LoginState::Finished, LoginAction::Verify { email, password, code: None }),
            Err(err) => (LoginState::Finished, LoginAction::Refuse(err)),
        },
        (LoginState::AskCode { email, password }, LoginEvent::Entered(c)) => if byte_len(c@) <= MAX_CODE_BYTES {
            (LoginState::Finished, LoginAction::Verify { email, password, code: Some(c) })
        } else {
            (LoginState::AskCode { email, password }, LoginAction::Complain(CODE_TOO_LONG, CODE_PROMPT))
        },
        (s, _) => (s, LoginAction::Ignore),
    }
}

/// How a login dialog begins.
pub fn login_start() -> (r: (LoginState, LoginAction))
    ensures
        r == (LoginState::AskEmail, LoginAction::Prompt(EMAIL_PROMPT)),
{
    (LoginState::AskEmail, LoginAction::Prompt(EMAIL_PROMPT))
}

/// Moves a login dialog on: checks each entry as it comes (an email address,
/// a password no longer than allowed, a code no longer than allowed), asks
/// for the one-time code only where the account has the second factor on,
/// and ends with the entries to verify, or a refusal for an unknown account.
pub fn login_step(state: LoginState, event: LoginEvent) -> (r: (LoginState, LoginAction))
    ensures
        r == login_next(state, event),
{
    match (state, event) {
        (LoginState::AskEmail, LoginEvent::Entered(e)) => if is_email_valid(e.as_str()) {
            (LoginState::AskPassword { email: e }, LoginAction::Prompt(PASSWORD_PROMPT))
        } else {
            (LoginState::AskEmail, LoginAction::Complain(BAD_EMAIL, EMAIL_PROMPT))
        },
        (LoginState::AskPassword { email }, LoginEvent::Entered(p)) => if is_password_length_ok(p.as_str()) {
            let e = email.clone();
            (LoginState::AwaitTwoFactor { email, password: p }, LoginAction::LookUpTwoFactor(e))
        } else {
            (LoginState::AskPassword { email }, LoginAction::Complain(PASSWORD_TOO_LONG, PASSWORD_PROMPT))
        },
        (LoginState::AwaitTwoFactor { email, password }, LoginEvent::TwoFactorStatus(status)) => match status {
            Ok(true) => (LoginState::AskCode { email, password }, LoginAction::Prompt(CODE_PROMPT)),
            Ok(false) => (LoginState::Finished, LoginAction::Verify { email, password, code: None }),
            Err(err) => (LoginState::Finished, LoginAction::Refuse(err)),
        },
        (LoginState::AskCode { email, password }, LoginEvent::Entered(c)) => if is_code_length_ok(c.as_str()) {
            (LoginState::Finished, LoginAction::Verify { email, password, code: Some(c) })
        } else {
            (LoginState::AskCode { email, password }, LoginAction::Complain(CODE_TOO_LONG, CODE_PROMPT))
        },
        (s, _) => (s, LoginAction::Ignore),
    }
}

/// What a new password is chosen for; the wording of the dialog differs.
#[derive(Clone, Copy, Debug, PartialEq, Eq, Structural)]
pub enum PasswordPurpose {
    Registration,
    Reset,
}

/// The texts of a new-password dialog: first prompt, confirmation prompt, and
/// the answers to entries too long, different, and too weak.
pub open spec fn password_texts(purpose: PasswordPurpose) -> (&'static str, &'static str, &'static str, &'static str, &'static str) {
    match purpose {
        PasswordPurpose::Registration => (
            "Please enter a password: ",
            "Please confirm your password: ",
            "one or both entries are too long",
            "passwords dont match",
            "password is too weak",
        ),
        PasswordPurpose::Reset => (
            "Please enter your new password: ",
            "Please confirm your new password: ",
            "one or both entries are too long",
            "passwords dont match.",
            "password is too weak.",
        ),
    }
}

/// The texts of a new-password dialog.
pub fn dialog_texts(purpose: PasswordPurpose) -> (r: (&'static str, &'static str, &'static str, &'static str, &'static str))
    ensures
        r == password_texts(purpose),
{
    match purpose {
        PasswordPurpose::Registration => (
            "Please enter a password: ",
            "Please confirm your password: ",
            "one or both entries are too long",
            "passwords dont match",
            "password is too weak",
        ),
        PasswordPurpose::Reset => (
            "Please enter your new password: ",
            "Please confirm your new password: ",
            "one or both entries are too long",
            "passwords dont match.",
            "password is too weak.",
        ),
    }
}

/// Where a new-password dialog stands.
#[derive(Debug)]
pub enum NewPasswordState {
    /// Waiting for the password.
    AskPassword,
    /// Waiting for the confirmation of `password`.
    AskConfirmation { password: String },
    /// Nothing more to ask.
    Finished,
}

/// What the program does next in a new-password dialog.
#[derive(Debug)]
pub enum NewPasswordAction {
    /// Show the prompt and read a line.
    Prompt(&'static str),
    /// Show the complaint, then the prompt, and read a line.
    Complain(&'static str, &'static str),
    /// The password was accepted.
    Accept(String),
    /// Both entries were blank, which the strength check cannot score.
    Blank,
    /// The strength of the password could not be computed.
    Unscorable,
    /// The entry does not fit the state; nothing to do.
    Ignore,
}

/// The new-password dialog's next state and action, given the strength
/// score of the password where the entries are compared.
pub open spec fn new_password_next(
    purpose: PasswordPurpose,
    state: NewPasswordState,
    entry: String,
    score: Option<u8>,
) -> (NewPasswordState, NewPasswordAction) {
    let (first, confirm, too_long, mismatch, weak) = password_texts(purpose);
    match state {
        NewPasswordState::AskPassword => (
            NewPasswordState::AskConfirmation { password: entry },
            NewPasswordAction::Prompt(confirm),
        ),
        NewPasswordState::AskConfirmation { password } => if password@.len() == 0 && entry@.len() == 0 {
            (NewPasswordState::Finished, NewPasswordAction::Blank)
        } else {
            match new_password_outcome(password@, entry@, score) {
                NewPasswordCheck::TooLong => (NewPasswordState::AskPassword, NewPasswordAction::Complain(too_long, first)),
                NewPasswordCheck::Mismatch => (NewPasswordState::AskPassword, NewPasswordAction::Complain(mismatch, first)),
                NewPasswordCheck::TooWeak => (NewPasswordState::AskPassword, NewPasswordAction::Complain(weak, first)),
                NewPasswordCheck::Unscored => (NewPasswordState::Finished, NewPasswordAction::Unscorable),
                NewPasswordCheck::Accepted => (NewPasswordState::Finished, NewPasswordAction::Accept(password)),
            }
        },
        NewPasswordState::Finished => (NewPasswordState::Finished, NewPasswordAction::Ignore),
    }
}

/// The password whose strength a step scores, if it scores one.
pub open spec fn scored_password(state: NewPasswordState) -> Seq<char> {
    match state {
        NewPasswordState::AskConfirmation { password } => password@,
        _ => Seq::empty(),
    }
}

/// How a new-password dialog begins.
pub fn new_password_start(purpose: PasswordPurpose) -> (r: (NewPasswordState, NewPasswordAction))
    ensures
        r == (NewPasswordState::AskPassword, NewPasswordAction::Prompt(password_texts(purpose).0)),
{
    let (first, _, _, _, _) = dialog_texts(purpose);
    (NewPasswordState::AskPassword, NewPasswordAction::Prompt(first))
}

/// Moves a new-password dialog on, given the strength score of the password
/// where the entries are compared (`None` where none could be computed): reads
/// the password, then its confirmation, then checks them (length, equality,
/// strength) and starts over with a complaint, or accepts the password.
pub fn new_password_step_scored(
    purpose: PasswordPurpose,
    state: NewPasswordState,
    entry: String,
    score: Option<u8>,
) -> (r: (NewPasswordState, NewPasswordAction))
    ensures
        r == new_password_next(purpose, state, entry, score),
{
    let (first, confirm, too_long, mismatch, weak) = dialog_texts(purpose);
    match state {
        NewPasswordState::AskPassword => (
            NewPasswordState::AskConfirmation { password: entry },
            NewPasswordAction::Prompt(confirm),
        ),
        NewPasswordState::AskConfirmation { password } => {
            if password.as_str().is_empty() && entry.as_str().is_empty() {
                return (NewPasswordState::Finished, NewPasswordAction::Blank);
            }
            match classify_new_password(password.as_str(), entry.as_str(), score) {
                NewPasswordCheck::TooLong => (NewPasswordState::AskPassword, NewPasswordAction::Complain(too_long, first)),
                NewPasswordCheck::Mismatch => (NewPasswordState::AskPassword, NewPasswordAction::Complain(mismatch, first)),
                NewPasswordCheck::TooWeak => (NewPasswordState::AskPassword, NewPasswordAction::Complain(weak, first)),
                NewPasswordCheck::Unscored => (NewPasswordState::Finished, NewPasswordAction::Unscorable),
                NewPasswordCheck::Accepted => (NewPasswordState::Finished, NewPasswordAction::Accept(password)),
            }
        },
        NewPasswordState::Finished => (NewPasswordState::Finished, NewPasswordAction::Ignore),
    }
}

/// Moves a new-password dialog on, scoring the password with zxcvbn (no user
/// inputs) only where both entries fit and are equal, as the check needs.
pub fn new_password_step(purpose: PasswordPurpose, state: NewPasswordState, entry: String) -> (r: (NewPasswordState, NewPasswordAction))
    ensures
        exists|score: Option<u8>|
            possible_score(score, scored_password(state)) && r == #[trigger] new_password_next(
                purpose,
                state,
                entry,
                score,
            ),
{
    let score: Option<u8> = match &state {
        NewPasswordState::AskConfirmation { password } => {
            if !password.as_str().is_empty() && is_password_length_ok(password.as_str())
                && is_password_length_ok(entry.as_str()) && same_text(password.as_str(), entry.as_str()) {
                let no_inputs: [&str; 0] = [];
                password_score(password.as_str(), no_inputs.as_slice())
            } else {
                None
            }
        },
        _ => None,
    };
    let ghost st = state;
    let ghost e = entry;
    let r = new_password_step_scored(purpose, state, entry, score);
    assert(possible_score(score, scored_password(st)) && r == new_password_next(purpose, st, e, score));
    r
}

/// Where the second-factor check before a password reset stands.
#[derive(Clone, Copy, Debug, PartialEq, Eq, Structural)]
pub enum ResetGateState {
    /// Waiting to learn whether the account asks for the second factor.
    AwaitTwoFactor,
    /// Waiting for the one-time code.
    AskCode,
    /// Waiting for the verdict on the code.
    AwaitVerdict,
    /// Nothing more to ask.
    Finished,
}

/// What happens to the second-factor check before a password reset.
#[derive(Debug)]
pub enum ResetGateEvent {
    /// The store answered whether the account asks for the second factor.
    TwoFactorStatus(Result<bool, AuthError>),
    /// The user entered a line.
    Entered(String),
    /// The store answered whether the code is accepted.
    CodeVerdict(bool),
}

/// What the program does next in the second-factor check before a password reset.
#[derive(Debug)]
pub enum ResetGateAction {
    /// Show the prompt and read a line.
    Prompt(&'static str),
    /// Show the complaint, then the prompt, and read a line.
    Complain(&'static str, &'static str),
    /// Check this one-time code for the account.
    VerifyCode(String),
    /// Go on to choose the new password.
    Proceed,
    /// Stop the reset with this answer.
    Reject(&'static str),
    /// Stop the reset: the account is unknown.
    Fail(AuthError),
    /// The event does not fit the state; nothing to do.
    Ignore,
}

/// The second-factor check's next state and action: without the second
/// factor the reset proceeds at once; with it, only after an accepted code.
pub open spec fn reset_gate_next(state: ResetGateState, event: ResetGateEvent) -> (ResetGateState, ResetGateAction) {
    match (state, event) {
        (ResetGateState::AwaitTwoFactor, ResetGateEvent::TwoFactorStatus(status)) => match status {
            Ok(true) => (ResetGateState::AskCode, ResetGateAction::Prompt(CODE_PROMPT)),
            Ok(false) => (ResetGateState::Finished, ResetGateAction::Proceed),
            Err(err) => (ResetGateState::Finished, ResetGateAction::Fail(err)),
        },
        (ResetGateState::AskCode, ResetGateEvent::Entered(c)) => if byte_len(c@) <= MAX_CODE_BYTES {
            (ResetGateState::AwaitVerdict, ResetGateAction::VerifyCode(c))
        } else {
            (ResetGateState::AskCode, ResetGateAction::Complain(CODE_TOO_LONG, CODE_PROMPT))
        },
        (ResetGateState::AwaitVerdict, ResetGateEvent::CodeVerdict(accepted)) => if accepted {
            (ResetGateState::Finished, ResetGateAction::Proceed)
        } else {
            (ResetGateState::Finished, ResetGateAction::Reject(RESET_REJECTED))
        },
        (s, _) => (s, ResetGateAction::Ignore),
    }
}

/// Moves the second-factor check before a password reset on.
pub fn reset_gate_step(state: ResetGateState, event: ResetGateEvent) -> (r: (ResetGateState, ResetGateAction))
    ensures
        r == reset_gate_next(state, event),
{
    match (state, event) {
        (ResetGateState::AwaitTwoFactor, ResetGateEvent::TwoFactorStatus(status)) => match status {
            Ok(true) => (ResetGateState::AskCode, ResetGateAction::Prompt(CODE_PROMPT)),
            Ok(false) => (ResetGateState::Finished, ResetGateAction::Proceed),
            Err(err) => (ResetGateState::Finished, ResetGateAction::Fail(err)),
        },
        (ResetGateState::AskCode, ResetGateEvent::Entered(c)) => if is_code_length_ok(c.as_str()) {
            (ResetGateState::AwaitVerdict, ResetGateAction::VerifyCode(c))
        } else {
            (ResetGateState::AskCode, ResetGateAction::Complain(CODE_TOO_LONG, CODE_PROMPT))
        },
        (ResetGateState::AwaitVerdict, ResetGateEvent::CodeVerdict(accepted)) => if accepted {
            (ResetGateState::Finished, ResetGateAction::Proceed)
        } else {
            (ResetGateState::Finished, ResetGateAction::Reject(RESET_REJECTED))
        },
        (s, _) => (s, ResetGateAction::Ignore),
    }
}

/// What a login dialog keeps of its entries: the email it waits with is an
/// address, and the password it waits with is short enough.
pub open spec fn login_state_ok(state: LoginState) -> bool {
    match state {
        LoginState::AskPassword { email } => is_email_address(email@),
        LoginState::AwaitTwoFactor { email, password } => is_email_address(email@) && byte_len(password@)
            <= MAX_PASSWORD_BYTES,
        LoginState::AskCode { email, password } => is_email_address(email@) && byte_len(password@)
            <= MAX_PASSWORD_BYTES,
        _ => true,
    }
}

/// Every step of a login dialog keeps its entries checked: the store is only
/// ever asked about an email address, and the entries handed over for
/// verification are an address, a password and (only with the second factor
/// on) a code, each short enough.
pub proof fn lemma_login_dialog_checks_entries(state: LoginState, event: LoginEvent)
    requires
        login_state_ok(state),
    ensures
        login_state_ok(login_next(state, event).0),
        login_next(state, event).1 matches LoginAction::LookUpTwoFactor(e) ==> is_email_address(e@),
        login_next(state, event).1 matches LoginAction::Verify { email, password, code } ==> {
            &&& is_email_address(email@)
            &&& byte_len(password@) <= MAX_PASSWORD_BYTES
            &&& (code matches Some(c) ==> byte_len(c@) <= MAX_CODE_BYTES)
            &&& (code is Some <==> state is AskCode)
        },
{
}

/// A password is accepted only when both entries are equal, short enough,
/// and the password scored at least the minimum strength.
pub proof fn lemma_accepted_password_passed_checks(
    purpose: PasswordPurpose,
    state: NewPasswordState,
    entry: String,
    score: Option<u8>,
)
    ensures
        new_password_next(purpose, state, entry, score).1 matches NewPasswordAction::Accept(p) ==> {
            &&& state is AskConfirmation
            &&& p@ == entry@
            &&& byte_len(p@) <= MAX_PASSWORD_BYTES
            &&& score matches Some(s) && s >= crate::constant::MIN_PASSWORD_SCORE
        },
{
}

/// A password reset goes on only for an account without the second factor,
/// or after its one-time code was accepted.
pub proof fn lemma_reset_needs_second_factor(state: ResetGateState, event: ResetGateEvent)
    ensures
        reset_gate_next(state, event).1 is Proceed ==> {
            ||| state == ResetGateState::AwaitTwoFactor && event matches ResetGateEvent::TwoFactorStatus(Ok(false))
            ||| state == ResetGateState::AwaitVerdict && event matches ResetGateEvent::CodeVerdict(true)
        },
{
}

} // verus!
