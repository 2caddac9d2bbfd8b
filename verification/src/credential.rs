use vstd::prelude::*;
use vstd::pervasive::unreached;
use vstd::utf8::*;

use crate::authenticator::{
    create_secret, is_secret_char, is_six_digit_code, qr_code_url, qr_code_url_of, totp_accepts, verify_code,
    QrLevel,
};
use crate::constant::{SECRET_LENGTH, TOTP_DISCREPANCY, TOTP_PERIOD_SECS, WEBSITE_NAME, AUTH_FAILED};
use crate::crypto::{
    base64_decode, base64_decoded, base64_encode, base64_encoded, password_hash, password_hash_verify,
    pwhash_accepts, Base64Variant, HashCost, HASHED_PASSWORD_BYTES,
};
use crate::search::{first_match, is_first_match, lemma_first_match_is, lemma_no_match, lemma_some_match};
use crate::mail::{two_fa_mail_intro, two_fa_mail_message};
use crate::text::same_text;
use crate::time::{Timestamp, NANOS_PER_SEC};

verus! {

/// An account of the service: its email (its identity), the Base64 text of
/// its hashed password, its Google Authenticator secret, and whether the
/// second factor is asked for at login.
#[derive(Debug)]
pub struct Credential {
    pub email: String,
    pub password_hash: String,
    pub google_authenticator_secret: String,
    pub is_2fa_active: bool,
}

/// Why a credential could not be made or changed.
#[derive(Clone, Copy, Debug, PartialEq, Eq, Structural)]
pub enum CredentialError {
    /// libsodium could not hash the password.
    HashingFailed,
}

/// Why an authentication was refused.
#[derive(Clone, Copy, Debug, PartialEq, Eq, Structural)]
pub enum AuthError {
    /// No account has that email.
    AuthenticationFailed,
}

impl AuthError {
    /// The text shown for the error.
    pub fn message(&self) -> (r: &'static str)
        ensures
            r@ == AUTH_FAILED@,
    {
        AUTH_FAILED
    }
}

/// The test "this credential has email `email`".
pub open spec fn with_email(email: Seq<char>) -> spec_fn(Credential) -> bool {
    |c: Credential| c.email@ == email
}

/// Position of the first credential with email `email`, if any.
pub open spec fn first_with_email(creds: Seq<Credential>, email: Seq<char>) -> Option<int> {
    first_match(creds, with_email(email))
}

/// Some credential has email `email`.
pub open spec fn email_in_use_spec(creds: Seq<Credential>, email: Seq<char>) -> bool {
    exists|i: int| 0 <= i < creds.len() && (#[trigger] creds[i]).email@ == email
}

/// No two credentials share an email.
pub open spec fn emails_unique(creds: Seq<Credential>) -> bool {
    forall|i: int, j: int|
        0 <= i < creds.len() && 0 <= j < creds.len() && i != j ==> (#[trigger] creds[i]).email@
            != (#[trigger] creds[j]).email@
}

/// The bytes of the hashed password that the credential stores, if its text
/// decodes to a hashed password of the right length.
pub open spec fn stored_hash(c: Credential) -> Option<Seq<u8>> {
    match base64_decoded(c.password_hash@, Base64Variant::UrlSafe) {
        Some(h) => if h.len() == HASHED_PASSWORD_BYTES {
            Some(h)
        } else {
            None
        },
        None => None,
    }
}

/// The credential stores a hash that accepts `password`.
pub open spec fn stores_password(c: Credential, password: Seq<char>) -> bool {
    stored_hash(c) matches Some(h) && pwhash_accepts(h, encode_utf8(password))
}

/// A Google Authenticator secret as the service draws it.
pub open spec fn is_fresh_secret(secret: Seq<char>) -> bool {
    &&& secret.len() == SECRET_LENGTH
    &&& forall|i: int| 0 <= i < secret.len() ==> is_secret_char(#[trigger] secret[i])
}

/// `c` is a new account for `email` with password `password`: second factor
/// on, a fresh secret, and a hash that accepts the password.
pub open spec fn is_new_credential(c: Credential, email: Seq<char>, password: Seq<char>) -> bool {
    &&& c.email@ == email
    &&& c.is_2fa_active
    &&& is_fresh_secret(c.google_authenticator_secret@)
    &&& stores_password(c, password)
}

/// `a` is the account `b` with nothing but, perhaps, its password changed.
pub open spec fn same_account(a: Credential, b: Credential) -> bool {
    &&& a.email@ == b.email@
    &&& a.google_authenticator_secret@ == b.google_authenticator_secret@
    &&& a.is_2fa_active == b.is_2fa_active
}

/// `after` is `before` with one new account for `email` and `password` at the end.
pub open spec fn credential_added(
    before: Seq<Credential>,
    after: Seq<Credential>,
    email: Seq<char>,
    password: Seq<char>,
) -> bool {
    &&& after.len() == before.len() + 1
    &&& after.drop_last() == before
    &&& is_new_credential(after.last(), email, password)
}

/// `after` is `before` with the first account of `email` moved to the end,
/// its password now `password`.
pub open spec fn password_changed(
    before: Seq<Credential>,
    after: Seq<Credential>,
    email: Seq<char>,
    password: Seq<char>,
) -> bool {
    match first_with_email(before, email) {
        Some(i) => {
            &&& after.len() == before.len()
            &&& after.drop_last() == before.remove(i)
            &&& same_account(after.last(), before[i])
            &&& stores_password(after.last(), password)
        },
        None => false,
    }
}

/// `c` is an account for `email` with the Google Authenticator secret
/// `secret` and the second factor on, whose stored text is the Base64 of the
/// hashed password `hash`.
pub open spec fn holds_new_account(c: Credential, email: Seq<char>, secret: Seq<char>, hash: Seq<u8>) -> bool {
    &&& c.email@ == email
    &&& c.google_authenticator_secret@ == secret
    &&& c.is_2fa_active
    &&& c.password_hash@ == base64_encoded(hash, Base64Variant::UrlSafe)
    &&& base64_decoded(c.password_hash@, Base64Variant::UrlSafe) == Some(hash)
}

/// `after` is `before` with the first account of `email` moved to the end,
/// its stored text now the Base64 of the hashed password `hash`.
pub open spec fn hash_replaced(before: Seq<Credential>, after: Seq<Credential>, email: Seq<char>, hash: Seq<u8>) -> bool {
    match first_with_email(before, email) {
        Some(i) => {
            &&& after.len() == before.len()
            &&& after.drop_last() == before.remove(i)
            &&& same_account(after.last(), before[i])
            &&& after.last().password_hash@ == base64_encoded(hash, Base64Variant::UrlSafe)
            &&& base64_decoded(after.last().password_hash@, Base64Variant::UrlSafe) == Some(hash)
        },
        None => false,
    }
}

/// `c` with its second factor switched the other way.
pub open spec fn toggled(c: Credential) -> Credential {
    Credential {
        email: c.email,
        password_hash: c.password_hash,
        google_authenticator_secret: c.google_authenticator_secret,
        is_2fa_active: !c.is_2fa_active,
    }
}

/// `after` is `before` with the first account of `email` moved to the end,
/// its second factor switched.
pub open spec fn two_fa_toggled(before: Seq<Credential>, after: Seq<Credential>, email: Seq<char>) -> bool {
    match first_with_email(before, email) {
        Some(i) => after == before.remove(i).push(toggled(before[i])),
        None => false,
    }
}

/// Whether the first account of `email` asks for the second factor.
pub open spec fn two_fa_status(creds: Seq<Credential>, email: Seq<char>) -> Result<bool, AuthError> {
    match first_with_email(creds, email) {
        Some(i) => Ok(creds[i].is_2fa_active),
        None => Err(AuthError::AuthenticationFailed),
    }
}

/// Whether the one-time code `code` is accepted for the first account of
/// `email` at time slice `time_slice` (a slice above `TOTP_DISCREPANCY`; the
/// check reads the clock for slice 0): only a six-digit code can be.
pub open spec fn second_factor_accepted(
    creds: Seq<Credential>,
    email: Seq<char>,
    code: Seq<char>,
    time_slice: u64,
) -> bool {
    match first_with_email(creds, email) {
        Some(i) => is_six_digit_code(code) && totp_accepts(
            creds[i].google_authenticator_secret@,
            code,
            TOTP_DISCREPANCY,
            time_slice,
        ),
        None => false,
    }
}

/// What any acceptance of `code` for `email` needs, whatever the time: an
/// account with that email, and a six-digit code.
pub open spec fn second_factor_possible(creds: Seq<Credential>, email: Seq<char>, code: Seq<char>) -> bool {
    first_with_email(creds, email) is Some && is_six_digit_code(code)
}

/// The time slice of one-time codes that a timestamp falls in.
pub open spec fn time_slice_of(t: Timestamp) -> u64 {
    (t.secs / TOTP_PERIOD_SECS) as u64
}

/// The time slice at which one-time codes are checked for a clock reading:
/// the slice the reading falls in, or, for a reading in the first slices
/// after the epoch, the first slice whose window of accepted slices stays
/// above slice 0.
pub open spec fn code_slice_of(t: Timestamp) -> u64 {
    if time_slice_of(t) > TOTP_DISCREPANCY {
        time_slice_of(t)
    } else {
        (TOTP_DISCREPANCY + 1) as u64
    }
}

/// The Google Authenticator secret of the first account of `email` (empty
/// without such an account).
pub open spec fn account_secret(creds: Seq<Credential>, email: Seq<char>) -> Seq<char> {
    match first_with_email(creds, email) {
        Some(i) => creds[i].google_authenticator_secret@,
        None => Seq::empty(),
    }
}

/// The answer to "is `password` the password of `email`": `false` without
/// such an account, nothing where its stored hash is not a hashed password.
pub open spec fn password_verdict(creds: Seq<Credential>, email: Seq<char>, password: Seq<char>) -> Option<bool> {
    match first_with_email(creds, email) {
        Some(i) => match stored_hash(creds[i]) {
            Some(h) => Some(pwhash_accepts(h, encode_utf8(password))),
            None => None,
        },
        None => Some(false),
    }
}

/// The answer to a login of an existing account, given whether its one-time
/// code was accepted: with the second factor on, the code must be accepted
/// first, then the password; otherwise the password alone. Nothing where the
/// password had to be checked against a stored hash that is not a hashed
/// password.
pub open spec fn login_outcome(
    creds: Seq<Credential>,
    email: Seq<char>,
    password: Seq<char>,
    code_accepted: bool,
) -> Option<bool> {
    match first_with_email(creds, email) {
        Some(i) => if creds[i].is_2fa_active && !code_accepted {
            Some(false)
        } else {
            password_verdict(creds, email, password)
        },
        None => Some(false),
    }
}

/// The answer to a login at time slice `time_slice` (above `TOTP_DISCREPANCY`).
pub open spec fn login_verdict(
    creds: Seq<Credential>,
    email: Seq<char>,
    password: Seq<char>,
    code: Seq<char>,
    time_slice: u64,
) -> Option<bool> {
    login_outcome(creds, email, password, second_factor_accepted(creds, email, code, time_slice))
}

impl Credential {
    /// A copy of the credential.
    pub fn duplicate(&self) -> (r: Credential)
        ensures
            r == *self,
    {
        Credential {
            email: self.email.clone(),
            password_hash: self.password_hash.clone(),
            google_authenticator_secret: self.google_authenticator_secret.clone(),
            is_2fa_active: self.is_2fa_active,
        }
    }

    /// Position of the first credential with email `email`.
    pub fn position_of(all_cred: &Vec<Credential>, email: &str) -> (r: Option<usize>)
        ensures
            match r {
                Some(i) => first_with_email(all_cred@, email@) == Some(i as int),
                None => first_with_email(all_cred@, email@) is None,
            },
    {
        let mut i: usize = 0;
        while i < all_cred.len()
            invariant
                i <= all_cred@.len(),
                forall|j: int| 0 <= j < i ==> !with_email(email@)(#[trigger] all_cred@[j]),
            decreases all_cred@.len() - i,
        {
            if same_text(all_cred[i].email.as_str(), email) {
                proof {
                    assert(is_first_match(all_cred@, with_email(email@), i as int));
                    lemma_first_match_is(all_cred@, with_email(email@), i as int);
                }
                return Some(i);
            }
            i = i + 1;
        }
        proof {
            lemma_no_match(all_cred@, with_email(email@));
        }
        None
    }

    /// Whether some credential has email `email`.
    pub fn email_in_use(all_cred: &Vec<Credential>, email: &str) -> (r: bool)
        ensures
            r == email_in_use_spec(all_cred@, email@),
    {
        let mut i: usize = 0;
        while i < all_cred.len()
            invariant
                i <= all_cred@.len(),
                forall|j: int| 0 <= j < i ==> (#[trigger] all_cred@[j]).email@ != email@,
            decreases all_cred@.len() - i,
        {
            if same_text(all_cred[i].email.as_str(), email) {
                return true;
            }
            i = i + 1;
        }
        false
    }

    /// The Base64 text that a credential stores for the outcome of hashing a
    /// password: the text of the hash, or the error where hashing failed.
    pub fn hash_text_from(hashed: Option<Vec<u8>>) -> (r: Result<String, CredentialError>)
        ensures
            match hashed {
                Some(h) => r matches Ok(t) && t@ == base64_encoded(h@, Base64Variant::UrlSafe)
                    && base64_decoded(t@, Base64Variant::UrlSafe) == Some(h@),
                None => r == Err::<String, CredentialError>(CredentialError::HashingFailed),
            },
    {
        match hashed {
            Some(h) => Ok(base64_encode(h.as_slice(), Base64Variant::UrlSafe)),
            None => Err(CredentialError::HashingFailed),
        }
    }

    /// Hashes `password` into the Base64 text that a credential stores.
    fn hash_text(password: &str) -> (r: Result<String, CredentialError>)
        ensures
            r matches Ok(t) ==> exists|h: Seq<u8>|
                #![trigger base64_encoded(h, Base64Variant::UrlSafe)]
                t@ == base64_encoded(h, Base64Variant::UrlSafe) && base64_decoded(t@, Base64Variant::UrlSafe)
                    == Some(h) && h.len() == HASHED_PASSWORD_BYTES && pwhash_accepts(h, encode_utf8(password@)),
            r is Err ==> r == Err::<String, CredentialError>(CredentialError::HashingFailed),
    {
        let hashed = password_hash(password.as_bytes(), HashCost::Interactive);
        let ghost hashed_bytes = match &hashed {
            Some(h) => Some(h@),
            None => None::<Seq<u8>>,
        };
        let r = Credential::hash_text_from(hashed);
        proof {
            if let Some(h) = hashed_bytes {
                assert(base64_encoded(h, Base64Variant::UrlSafe) == r->Ok_0@);
            }
        }
        r
    }

    /// A new account for `email`: a fresh Google Authenticator secret, the
    /// hash of `password`, and the second factor on.
    pub fn new(email: &str, password: &str) -> (r: Result<Credential, CredentialError>)
        ensures
            r matches Ok(c) ==> is_new_credential(c, email@, password@),
    {
        let secret = create_secret(SECRET_LENGTH);
        let hashed = password_hash(password.as_bytes(), HashCost::Interactive);
        Credential::from_hash(email, secret, hashed)
    }

    /// A new account for `email` with the secret `secret` and the second
    /// factor on, storing the outcome of hashing its password: the account
    /// where hashing gave a hashed password, the error where it failed.
    pub fn from_hash(email: &str, secret: String, hashed: Option<Vec<u8>>) -> (r: Result<Credential, CredentialError>)
        ensures
            match hashed {
                Some(h) => r matches Ok(c) && holds_new_account(c, email@, secret@, h@),
                None => r == Err::<Credential, CredentialError>(CredentialError::HashingFailed),
            },
    {
        match Credential::hash_text_from(hashed) {
            Ok(hash) => Ok(
                Credential {
                    email: email.to_owned(),
                    password_hash: hash,
                    google_authenticator_secret: secret,
                    is_2fa_active: true,
                },
            ),
            Err(e) => Err(e),
        }
    }

    /// Replaces the stored hash with a hash of `new_unhashed_pass`; on failure
    /// the credential is unchanged.
    pub fn set_pass_hash(&mut self, new_unhashed_pass: &str) -> (r: Result<(), CredentialError>)
        ensures
            r is Ok ==> same_account(*final(self), *old(self)) && stores_password(
                *final(self),
                new_unhashed_pass@,
            ),
            r is Err ==> *final(self) == *old(self),
    {
        let hash = Credential::hash_text(new_unhashed_pass)?;
        self.password_hash = hash;
        Ok(())
    }

    /// The link to the QR code that sets up Google Authenticator for this account.
    pub fn qr_code_url(&self) -> (r: String)
        ensures
            r@ == qr_code_url_of(
                self.google_authenticator_secret@,
                WEBSITE_NAME@,
                "2FA"@,
                0,
                0,
                QrLevel::Medium,
            ),
    {
        qr_code_url(self.google_authenticator_secret.as_str(), WEBSITE_NAME, "2FA", 0, 0, QrLevel::Medium)
    }

    /// The mail that gives the account its Google Authenticator QR code link.
    pub fn two_fa_mail_message(&self) -> (r: String)
        ensures
            r@ == two_fa_mail_intro() + qr_code_url_of(
                self.google_authenticator_secret@,
                WEBSITE_NAME@,
                "2FA"@,
                0,
                0,
                QrLevel::Medium,
            ),
    {
        let url = self.qr_code_url();
        two_fa_mail_message(url.as_str())
    }

    /// Adds a new account for `email` with password `password` at the end;
    /// on failure the credentials are unchanged.
    pub fn add_new_credential_in_db(all_credentials: &mut Vec<Credential>, email: &str, password: &str) -> (r: Result<(), CredentialError>)
        ensures
            r is Ok ==> credential_added(old(all_credentials)@, final(all_credentials)@, email@, password@),
            r is Err ==> final(all_credentials)@ == old(all_credentials)@,
    {
        let secret = create_secret(SECRET_LENGTH);
        let ghost secret_text = secret@;
        let hashed = password_hash(password.as_bytes(), HashCost::Interactive);
        let ghost hashed_bytes = match &hashed {
            Some(h) => Some(h@),
            None => None::<Seq<u8>>,
        };
        let r = Credential::add_hashed_credential(all_credentials, email, secret, hashed);
        proof {
            if let Some(h) = hashed_bytes {
                lemma_hashed_registration(old(all_credentials)@, all_credentials@, email@, password@, secret_text, h);
            }
        }
        r
    }

    /// Adds at the end a new account for `email` with the secret `secret`,
    /// storing the outcome of hashing its password; where hashing failed, the
    /// credentials are unchanged.
    pub fn add_hashed_credential(
        all_credentials: &mut Vec<Credential>,
        email: &str,
        secret: String,
        hashed: Option<Vec<u8>>,
    ) -> (r: Result<(), CredentialError>)
        ensures
            match hashed {
                Some(h) => {
                    &&& r is Ok
                    &&& final(all_credentials)@.len() == old(all_credentials)@.len() + 1
                    &&& final(all_credentials)@.drop_last() == old(all_credentials)@
                    &&& holds_new_account(final(all_credentials)@.last(), email@, secret@, h@)
                },
                None => {
                    &&& r == Err::<(), CredentialError>(CredentialError::HashingFailed)
                    &&& final(all_credentials)@ == old(all_credentials)@
                },
            },
    {
        match Credential::from_hash(email, secret, hashed) {
            Ok(c) => {
                all_credentials.push(c);
                proof {
                    assert(all_credentials@.drop_last() =~= old(all_credentials)@);
                }
                Ok(())
            },
            Err(e) => Err(e),
        }
    }

    /// Gives the first account of `email` the password `new_password` and moves
    /// it to the end; on failure the credentials are unchanged.
    pub fn change_password_in_db(all_cred: &mut Vec<Credential>, email: &str, new_password: &str) -> (r: Result<(), CredentialError>)
        requires
            first_with_email(old(all_cred)@, email@) is Some,
        ensures
            r is Ok ==> password_changed(old(all_cred)@, final(all_cred)@, email@, new_password@),
            r is Err ==> final(all_cred)@ == old(all_cred)@,
    {
        let hashed = password_hash(new_password.as_bytes(), HashCost::Interactive);
        let ghost hashed_bytes = match &hashed {
            Some(h) => Some(h@),
            None => None::<Seq<u8>>,
        };
        let r = Credential::change_password_with_hash(all_cred, email, hashed);
        proof {
            if let Some(h) = hashed_bytes {
                lemma_hashed_password_change(old(all_cred)@, all_cred@, email@, new_password@, h);
            }
        }
        r
    }

    /// Stores the outcome of hashing a new password for the first account of
    /// `email`: where hashing gave a hashed password, its Base64 text replaces
    /// the stored one and the account moves to the end; where hashing failed,
    /// the credentials are unchanged.
    pub fn change_password_with_hash(all_cred: &mut Vec<Credential>, email: &str, hashed: Option<Vec<u8>>) -> (r: Result<(), CredentialError>)
        requires
            first_with_email(old(all_cred)@, email@) is Some,
        ensures
            match hashed {
                Some(h) => r is Ok && hash_replaced(old(all_cred)@, final(all_cred)@, email@, h@),
                None => {
                    &&& r == Err::<(), CredentialError>(CredentialError::HashingFailed)
                    &&& final(all_cred)@ == old(all_cred)@
                },
            },
    {
        let pos = Credential::position_of(all_cred, email);
        let my_cred_pos: usize = match pos {
            Some(p) => p,
            None => unreached(),
        };
        let hash = match Credential::hash_text_from(hashed) {
            Ok(t) => t,
            Err(e) => {
                return Err(e);
            },
        };
        let mut my_cred = all_cred[my_cred_pos].duplicate();
        my_cred.password_hash = hash;
        let _ = all_cred.remove(my_cred_pos);
        all_cred.push(my_cred);
        proof {
            assert(all_cred@.drop_last() =~= old(all_cred)@.remove(my_cred_pos as int));
        }
        Ok(())
    }

    /// Switches the second factor of the first account of `email` and moves it
    /// to the end.
    pub fn change_2fa_in_db(all_cred: &mut Vec<Credential>, email: &str)
        requires
            first_with_email(old(all_cred)@, email@) is Some,
        ensures
            two_fa_toggled(old(all_cred)@, final(all_cred)@, email@),
    {
        let pos = Credential::position_of(all_cred, email);
        let my_cred_pos: usize = match pos {
            Some(p) => p,
            None => unreached(),
        };
        let mut my_cred = all_cred.remove(my_cred_pos);
        my_cred.is_2fa_active = !my_cred.is_2fa_active;
        all_cred.push(my_cred);
        proof {
            assert(all_cred@ =~= old(all_cred)@.remove(my_cred_pos as int).push(toggled(old(all_cred)@[my_cred_pos as int])));
        }
    }

    /// Whether the account of `email` asks for the second factor; an unknown
    /// email is refused.
    pub fn is_2fa_active(all_cred: &Vec<Credential>, email: &str) -> (r: Result<bool, AuthError>)
        ensures
            r == two_fa_status(all_cred@, email@),
    {
        match Credential::position_of(all_cred, email) {
            Some(i) => Ok(all_cred[i].is_2fa_active),
            None => Err(AuthError::AuthenticationFailed),
        }
    }

    /// Whether `code_2fa` is a valid one-time code of the account of `email`
    /// at time slice `time_slice`. Where the window of accepted slices reaches
    /// slice 0, the authenticator takes that slice from the clock.
    pub fn is_verified_with_2fa_at(all_cred: &Vec<Credential>, email: &str, code_2fa: &str, time_slice: u64) -> (r: bool)
        ensures
            time_slice > TOTP_DISCREPANCY ==> r == second_factor_accepted(all_cred@, email@, code_2fa@, time_slice),
            r ==> second_factor_possible(all_cred@, email@, code_2fa@),
    {
        match Credential::position_of(all_cred, email) {
            Some(i) => verify_code(
                all_cred[i].google_authenticator_secret.as_str(),
                code_2fa,
                TOTP_DISCREPANCY,
                time_slice,
            ),
            None => false,
        }
    }

    /// The time slice of one-time codes that a timestamp falls in.
    pub fn time_slice(now: &Timestamp) -> (r: u64)
        requires
            now.secs >= 0,
        ensures
            r == time_slice_of(*now),
    {
        (now.secs / TOTP_PERIOD_SECS) as u64
    }

    /// The time slice at which one-time codes are checked for the clock
    /// reading `now`.
    pub fn code_slice(now: &Timestamp) -> (r: u64)
        requires
            now.secs >= 0,
        ensures
            r == code_slice_of(*now),
            r > TOTP_DISCREPANCY,
    {
        let slice: u64 = Credential::time_slice(now);
        if slice > TOTP_DISCREPANCY {
            slice
        } else {
            TOTP_DISCREPANCY + 1
        }
    }

    /// Whether `code_2fa` is a valid one-time code of the account of `email`
    /// now: the clock is read once, and the authenticator checks the code
    /// against the account's secret at the time slice of that reading.
    pub fn is_verified_with_2fa(all_cred: &Vec<Credential>, email: &str, code_2fa: &str) -> (r: bool)
        ensures
            exists|now: Timestamp|
                now.secs >= 0 && now.nanos < NANOS_PER_SEC && r == second_factor_accepted(
                    all_cred@,
                    email@,
                    code_2fa@,
                    #[trigger] code_slice_of(now),
                ),
            r ==> second_factor_possible(all_cred@, email@, code_2fa@),
    {
        let now = Timestamp::now();
        let slice: u64 = Credential::code_slice(&now);
        let r = Credential::is_verified_with_2fa_at(all_cred, email, code_2fa, slice);
        assert(r == second_factor_accepted(all_cred@, email@, code_2fa@, code_slice_of(now)));
        r
    }

    /// The stored hash of a credential, if its text decodes to a hashed
    /// password of the right length.
    fn decoded_hash(c: &Credential) -> (r: Option<Vec<u8>>)
        ensures
            match r {
                Some(h) => stored_hash(*c) == Some(h@),
                None => stored_hash(*c) is None,
            },
    {
        match base64_decode(c.password_hash.as_str(), Base64Variant::UrlSafe) {
            Some(h) => if h.len() == HASHED_PASSWORD_BYTES {
                Some(h)
            } else {
                None
            },
            None => None,
        }
    }

    /// Whether `password` is the password of the account of `email` (`false`
    /// for an unknown email). The account's stored hash must be a hashed
    /// password: `try_verified_with_password` checks that first.
    pub fn is_verified_with_password(all_cred: &Vec<Credential>, email: &str, password: &str) -> (r: bool)
        requires
            password_verdict(all_cred@, email@, password@) is Some,
        ensures
            password_verdict(all_cred@, email@, password@) == Some(r),
    {
        match Credential::position_of(all_cred, email) {
            Some(i) => match Credential::decoded_hash(&all_cred[i]) {
                Some(h) => password_hash_verify(h.as_slice(), password.as_bytes()),
                None => false,
            },
            None => false,
        }
    }

    /// Like `is_verified_with_password`, for any stored text: nothing where the
    /// account's stored hash is not a hashed password.
    pub fn try_verified_with_password(all_cred: &Vec<Credential>, email: &str, password: &str) -> (r: Option<bool>)
        ensures
            r == password_verdict(all_cred@, email@, password@),
    {
        match Credential::position_of(all_cred, email) {
            Some(i) => match Credential::decoded_hash(&all_cred[i]) {
                Some(_) => Some(Credential::is_verified_with_password(all_cred, email, password)),
                None => None,
            },
            None => Some(false),
        }
    }

    /// Checks a login of an account at time slice `time_slice`: with the second
    /// factor on, `code_2fa` first, then the password; without it, the
    /// password alone.
    pub fn check_login_at(all_cred: &Vec<Credential>, email: &str, password: &str, code_2fa: &str, time_slice: u64) -> (r: Option<bool>)
        ensures
            time_slice > TOTP_DISCREPANCY ==> r == login_verdict(all_cred@, email@, password@, code_2fa@, time_slice),
            exists|accepted: bool|
                (accepted ==> second_factor_possible(all_cred@, email@, code_2fa@)) && r == #[trigger] login_outcome(
                    all_cred@,
                    email@,
                    password@,
                    accepted,
                ),
    {
        match Credential::position_of(all_cred, email) {
            Some(i) => {
                if all_cred[i].is_2fa_active {
                    let accepted = Credential::is_verified_with_2fa_at(all_cred, email, code_2fa, time_slice);
                    let r = if !accepted {
                        Some(false)
                    } else {
                        Credential::try_verified_with_password(all_cred, email, password)
                    };
                    assert(r == login_outcome(all_cred@, email@, password@, accepted));
                    r
                } else {
                    let r = Credential::try_verified_with_password(all_cred, email, password);
                    assert(r == login_outcome(all_cred@, email@, password@, false));
                    r
                }
            },
            None => {
                assert(login_outcome(all_cred@, email@, password@, false) == Some(false));
                Some(false)
            },
        }
    }

    /// Checks a login of an account now: the clock is read once, and with the
    /// second factor on, the authenticator checks `code_2fa` against the
    /// account's secret at the time slice of that reading before the password
    /// is checked; `check_login_at` gives the answer for a given time slice.
    pub fn check_login(all_cred: &Vec<Credential>, email: &str, password: &str, code_2fa: &str) -> (r: Option<bool>)
        ensures
            exists|now: Timestamp|
                now.secs >= 0 && now.nanos < NANOS_PER_SEC && r == login_verdict(
                    all_cred@,
                    email@,
                    password@,
                    code_2fa@,
                    #[trigger] code_slice_of(now),
                ),
            r == Some(true) && two_fa_status(all_cred@, email@) == Ok::<bool, AuthError>(true) ==> exists|s: u64|
                s > TOTP_DISCREPANCY && #[trigger] totp_accepts(
                    account_secret(all_cred@, email@),
                    code_2fa@,
                    TOTP_DISCREPANCY,
                    s,
                ),
            exists|accepted: bool|
                (accepted ==> second_factor_possible(all_cred@, email@, code_2fa@)) && r == #[trigger] login_outcome(
                    all_cred@,
                    email@,
                    password@,
                    accepted,
                ),
    {
        let now = Timestamp::now();
        let slice: u64 = Credential::code_slice(&now);
        let r = Credential::check_login_at(all_cred, email, password, code_2fa, slice);
        proof {
            lemma_clock_login_needs_code(all_cred@, email@, password@, code_2fa@, now);
        }
        assert(r == login_verdict(all_cred@, email@, password@, code_2fa@, code_slice_of(now)));
        r
    }
}


/// At most one credential has email `email`.
pub open spec fn sole_holder(creds: Seq<Credential>, email: Seq<char>) -> bool {
    forall|i: int, j: int|
        0 <= i < creds.len() && 0 <= j < creds.len() && (#[trigger] creds[i]).email@ == email
            && (#[trigger] creds[j]).email@ == email ==> i == j
}

/// Where all emails are unique, each email has at most one holder.
pub proof fn lemma_unique_gives_sole_holder(creds: Seq<Credential>, email: Seq<char>)
    requires
        emails_unique(creds),
    ensures
        sole_holder(creds, email),
{
}

/// The account that alone holds `email` is the first with it.
proof fn lemma_holder_is_first(creds: Seq<Credential>, email: Seq<char>, k: int)
    requires
        sole_holder(creds, email),
        0 <= k < creds.len(),
        creds[k].email@ == email,
    ensures
        first_with_email(creds, email) == Some(k),
{
    assert forall|j: int| 0 <= j < k implies !with_email(email)(#[trigger] creds[j]) by {
        if creds[j].email@ == email {
            assert(j == k);
        }
    }
    lemma_first_match_is(creds, with_email(email), k);
}

/// Without a first account of `email`, no account has it.
proof fn lemma_no_owner(creds: Seq<Credential>, email: Seq<char>)
    requires
        first_with_email(creds, email) is None,
    ensures
        forall|j: int| 0 <= j < creds.len() ==> (#[trigger] creds[j]).email@ != email,
{
    assert forall|j: int| 0 <= j < creds.len() implies (#[trigger] creds[j]).email@ != email by {
        if creds[j].email@ == email {
            lemma_some_match(creds, with_email(email), j);
        }
    }
}

/// Where `after` is `before` with the item at `i` moved to the end (and
/// perhaps changed), the others keep their order.
proof fn lemma_moved_to_end(before: Seq<Credential>, after: Seq<Credential>, i: int)
    requires
        0 <= i < before.len(),
        after.len() == before.len(),
        after.drop_last() == before.remove(i),
    ensures
        forall|a: int| 0 <= a < after.len() - 1 ==> #[trigger] after[a] == before[if a < i { a } else { a + 1 }],
{
    assert forall|a: int| 0 <= a < after.len() - 1 implies #[trigger] after[a] == before[if a < i { a } else { a + 1 }] by {
        assert(after.drop_last()[a] == after[a]);
        assert(after.drop_last()[a] == before.remove(i)[a]);
    }
}

/// Moving the item at `i` to the end, with its email kept, keeps emails unique.
proof fn lemma_moved_keeps_unique(before: Seq<Credential>, after: Seq<Credential>, i: int)
    requires
        emails_unique(before),
        0 <= i < before.len(),
        after.len() == before.len(),
        after.drop_last() == before.remove(i),
        after.last().email@ == before[i].email@,
    ensures
        emails_unique(after),
{
    lemma_moved_to_end(before, after, i);
    let n: int = after.len() as int;
    assert(after[n - 1] == after.last());
    assert forall|a: int, b: int|
        0 <= a < n && 0 <= b < n && a != b implies (#[trigger] after[a]).email@ != (#[trigger] after[b]).email@ by {
        let ia: int = if a == n - 1 { i } else if a < i { a } else { a + 1 };
        let ib: int = if b == n - 1 { i } else if b < i { b } else { b + 1 };
        assert(after[a].email@ == before[ia].email@);
        assert(after[b].email@ == before[ib].email@);
    }
}

/// Moving the sole holder of `email` to the end, with its email kept, leaves
/// it the sole holder, now last.
proof fn lemma_moved_holder(before: Seq<Credential>, after: Seq<Credential>, i: int, email: Seq<char>)
    requires
        sole_holder(before, email),
        0 <= i < before.len(),
        before[i].email@ == email,
        after.len() == before.len(),
        after.drop_last() == before.remove(i),
        after.last().email@ == email,
    ensures
        sole_holder(after, email),
        first_with_email(after, email) == Some(after.len() - 1),
{
    lemma_moved_to_end(before, after, i);
    let n: int = after.len() as int;
    assert(after[n - 1] == after.last());
    assert forall|a: int| 0 <= a < n - 1 implies (#[trigger] after[a]).email@ != email by {
        let ia: int = if a < i { a } else { a + 1 };
        assert(after[a] == before[ia]);
        if before[ia].email@ == email {
            assert(ia == i);
        }
    }
    assert forall|a: int, b: int|
        0 <= a < n && 0 <= b < n && (#[trigger] after[a]).email@ == email && (#[trigger] after[b]).email@
            == email implies a == b by {
        if a != n - 1 {
            assert(after[a].email@ != email);
        }
        if b != n - 1 {
            assert(after[b].email@ != email);
        }
    }
    lemma_holder_is_first(after, email, n - 1);
}

/// After a password change, the new password logs the account in, and its
/// second factor is as it was (the account being the only one with its email).
pub proof fn lemma_password_change_then_login(
    before: Seq<Credential>,
    after: Seq<Credential>,
    email: Seq<char>,
    password: Seq<char>,
    code: Seq<char>,
    time_slice: u64,
)
    requires
        sole_holder(before, email),
        password_changed(before, after, email, password),
    ensures
        password_verdict(after, email, password) == Some(true),
        two_fa_status(after, email) == two_fa_status(before, email),
        second_factor_accepted(after, email, code, time_slice) == second_factor_accepted(before, email, code, time_slice),
        sole_holder(after, email),
{
    let i: int = first_with_email(before, email)->0;
    assert(is_first_match(before, with_email(email), i));
    lemma_moved_holder(before, after, i, email);
}

/// A password change keeps emails unique.
pub proof fn lemma_password_change_keeps_unique(
    before: Seq<Credential>,
    after: Seq<Credential>,
    email: Seq<char>,
    password: Seq<char>,
)
    requires
        emails_unique(before),
        password_changed(before, after, email, password),
    ensures
        emails_unique(after),
{
    let i: int = first_with_email(before, email)->0;
    assert(is_first_match(before, with_email(email), i));
    lemma_moved_keeps_unique(before, after, i);
}

/// Switching the second factor turns it the other way round and leaves the
/// password as it was (the account being the only one with its email).
pub proof fn lemma_toggle_2fa(
    before: Seq<Credential>,
    after: Seq<Credential>,
    email: Seq<char>,
    password: Seq<char>,
)
    requires
        sole_holder(before, email),
        two_fa_toggled(before, after, email),
    ensures
        two_fa_status(before, email) matches Ok(b) && two_fa_status(after, email) == Ok::<bool, AuthError>(!b),
        password_verdict(after, email, password) == password_verdict(before, email, password),
        sole_holder(after, email),
{
    let i: int = first_with_email(before, email)->0;
    assert(is_first_match(before, with_email(email), i));
    assert(after.drop_last() =~= before.remove(i));
    lemma_moved_holder(before, after, i, email);
}

/// Switching the second factor keeps emails unique.
pub proof fn lemma_toggle_keeps_unique(before: Seq<Credential>, after: Seq<Credential>, email: Seq<char>)
    requires
        emails_unique(before),
        two_fa_toggled(before, after, email),
    ensures
        emails_unique(after),
{
    let i: int = first_with_email(before, email)->0;
    assert(is_first_match(before, with_email(email), i));
    assert(after.drop_last() =~= before.remove(i));
    lemma_moved_keeps_unique(before, after, i);
}

/// A new account for an email that no account has: its password logs it in,
/// it asks for the second factor, and it is the only account with its email.
pub proof fn lemma_registration_then_login(
    before: Seq<Credential>,
    after: Seq<Credential>,
    email: Seq<char>,
    password: Seq<char>,
)
    requires
        first_with_email(before, email) is None,
        credential_added(before, after, email, password),
    ensures
        password_verdict(after, email, password) == Some(true),
        two_fa_status(after, email) == Ok::<bool, AuthError>(true),
        sole_holder(after, email),
{
    lemma_no_owner(before, email);
    let n: int = after.len() as int;
    assert forall|a: int| 0 <= a < n - 1 implies (#[trigger] after[a]) == before[a] by {
        assert(after.drop_last()[a] == before[a]);
    }
    assert(after[n - 1] == after.last());
    assert forall|a: int, b: int|
        0 <= a < n && 0 <= b < n && (#[trigger] after[a]).email@ == email && (#[trigger] after[b]).email@
            == email implies a == b by {
        if a != n - 1 {
            assert(after[a] == before[a]);
        }
        if b != n - 1 {
            assert(after[b] == before[b]);
        }
    }
    lemma_holder_is_first(after, email, n - 1);
}

/// A registration for an email that no account has keeps emails unique.
pub proof fn lemma_registration_keeps_unique(
    before: Seq<Credential>,
    after: Seq<Credential>,
    email: Seq<char>,
    password: Seq<char>,
)
    requires
        emails_unique(before),
        first_with_email(before, email) is None,
        credential_added(before, after, email, password),
    ensures
        emails_unique(after),
{
    lemma_no_owner(before, email);
    let n: int = after.len() as int;
    assert forall|a: int| 0 <= a < n - 1 implies (#[trigger] after[a]) == before[a] by {
        assert(after.drop_last()[a] == before[a]);
    }
    assert(after[n - 1] == after.last());
    assert forall|a: int, b: int|
        0 <= a < n && 0 <= b < n && a != b implies (#[trigger] after[a]).email@ != (#[trigger] after[b]).email@ by {
        if a == n - 1 {
            assert(after[b] == before[b]);
        } else if b == n - 1 {
            assert(after[a] == before[a]);
        } else {
            assert(after[a] == before[a]);
            assert(after[b] == before[b]);
        }
    }
}

/// A login succeeds only with the right password, and, where the second
/// factor is on, only with an accepted one-time code; where it is off, the
/// code plays no part.
pub proof fn lemma_login_needs_factors(
    creds: Seq<Credential>,
    email: Seq<char>,
    password: Seq<char>,
    code: Seq<char>,
    time_slice: u64,
    other_code: Seq<char>,
    other_slice: u64,
)
    ensures
        login_verdict(creds, email, password, code, time_slice) == Some(true) ==> {
            &&& password_verdict(creds, email, password) == Some(true)
            &&& (two_fa_status(creds, email) == Ok::<bool, AuthError>(true) ==> second_factor_accepted(
                creds,
                email,
                code,
                time_slice,
            ))
        },
        two_fa_status(creds, email) == Ok::<bool, AuthError>(false) ==> login_verdict(
            creds,
            email,
            password,
            code,
            time_slice,
        ) == login_verdict(creds, email, password, other_code, other_slice),
        two_fa_status(creds, email) is Err ==> login_verdict(creds, email, password, code, time_slice) == Some(false),
{
}

/// With the second factor on, an entry that is not a six-digit code never
/// logs the account in, whatever the password and whatever the clock reads:
/// no time slice accepts it, and neither does a check that read the clock.
pub proof fn lemma_non_code_refused(
    creds: Seq<Credential>,
    email: Seq<char>,
    password: Seq<char>,
    code: Seq<char>,
    accepted: bool,
    time_slice: u64,
)
    requires
        !is_six_digit_code(code),
        two_fa_status(creds, email) == Ok::<bool, AuthError>(true),
        accepted ==> second_factor_possible(creds, email, code),
    ensures
        login_outcome(creds, email, password, accepted) == Some(false),
        !second_factor_accepted(creds, email, code, time_slice),
        login_verdict(creds, email, password, code, time_slice) == Some(false),
{
}

/// A registration whose password was hashed: where hashing gave a hashed
/// password that accepts the password, the new account is a registration of
/// that password, and, for an email that no account had, the password logs
/// it in and it asks for the second factor.
pub proof fn lemma_hashed_registration(
    before: Seq<Credential>,
    after: Seq<Credential>,
    email: Seq<char>,
    password: Seq<char>,
    secret: Seq<char>,
    hash: Seq<u8>,
)
    requires
        after.len() == before.len() + 1,
        after.drop_last() == before,
        holds_new_account(after.last(), email, secret, hash),
        is_fresh_secret(secret),
        hash.len() == HASHED_PASSWORD_BYTES,
        pwhash_accepts(hash, encode_utf8(password)),
    ensures
        credential_added(before, after, email, password),
        first_with_email(before, email) is None ==> {
            &&& password_verdict(after, email, password) == Some(true)
            &&& two_fa_status(after, email) == Ok::<bool, AuthError>(true)
        },
{
    if first_with_email(before, email) is None {
        lemma_registration_then_login(before, after, email, password);
    }
}

/// A password change whose new password was hashed: where hashing gave a
/// hashed password that accepts the new password, the change is a change to
/// that password, and, for an account alone with its email, the new password
/// logs it in.
pub proof fn lemma_hashed_password_change(
    before: Seq<Credential>,
    after: Seq<Credential>,
    email: Seq<char>,
    password: Seq<char>,
    hash: Seq<u8>,
)
    requires
        hash_replaced(before, after, email, hash),
        hash.len() == HASHED_PASSWORD_BYTES,
        pwhash_accepts(hash, encode_utf8(password)),
    ensures
        password_changed(before, after, email, password),
        sole_holder(before, email) ==> password_verdict(after, email, password) == Some(true),
{
    if sole_holder(before, email) {
        lemma_password_change_then_login(before, after, email, password, Seq::empty(), 0);
    }
}

/// A login checked at a clock reading uses a time slice above
/// `TOTP_DISCREPANCY` (the reading's own slice wherever that is above it), and,
/// for an account with the second factor on, succeeds only where the
/// authenticator accepts the code for that account's secret at that slice
/// and the password matches the stored hash.
pub proof fn lemma_clock_login_needs_code(
    creds: Seq<Credential>,
    email: Seq<char>,
    password: Seq<char>,
    code: Seq<char>,
    now: Timestamp,
)
    ensures
        code_slice_of(now) > TOTP_DISCREPANCY,
        time_slice_of(now) > TOTP_DISCREPANCY ==> code_slice_of(now) == time_slice_of(now),
        login_verdict(creds, email, password, code, code_slice_of(now)) == Some(true) && two_fa_status(creds, email)
            == Ok::<bool, AuthError>(true) ==> {
            &&& totp_accepts(account_secret(creds, email), code, TOTP_DISCREPANCY, code_slice_of(now))
            &&& is_six_digit_code(code)
            &&& password_verdict(creds, email, password) == Some(true)
        },
        two_fa_status(creds, email) == Ok::<bool, AuthError>(true) && !totp_accepts(
            account_secret(creds, email),
            code,
            TOTP_DISCREPANCY,
            code_slice_of(now),
        ) ==> login_verdict(creds, email, password, code, code_slice_of(now)) == Some(false),
{
}

} // verus!
