use vstd::prelude::*;

use crate::credential::{email_in_use_spec, first_with_email, with_email, Credential};
use crate::mail::{is_email_address, is_email_valid};
use crate::search::{is_first_match, lemma_first_match_is, lemma_no_match, lemma_some_match};
use crate::time::{nanos_between, Timestamp};
use crate::token::{first_with_text, ttl_nanos, valid_at, with_text, Token};

verus! {

/// Where a token handed in by a user leads.
#[derive(Clone, Copy, Debug, PartialEq, Eq, Structural)]
pub enum TokenRoute {
    /// No token has that text, or it has expired.
    Invalid,
    /// The token at this position is valid and its email has an account.
    PasswordReset(usize),
    /// The token at this position is valid and its email has no account yet.
    Registration(usize),
}

/// Where the text `b64` leads at time `now`: the first token with that text,
/// if it is still valid, to a password reset for an email that has an
/// account, to a registration for one that has none.
pub open spec fn token_route(tokens: Seq<Token>, creds: Seq<Credential>, b64: Seq<char>, now: Timestamp) -> TokenRoute {
    match first_with_text(tokens, b64) {
        Some(i) => if !valid_at(tokens[i], now) {
            TokenRoute::Invalid
        } else if email_in_use_spec(creds, tokens[i].initiator_email@) {
            TokenRoute::PasswordReset(i as usize)
        } else {
            TokenRoute::Registration(i as usize)
        },
        None => TokenRoute::Invalid,
    }
}

/// Decides where the token text `b64_token` leads at time `now`.
pub fn route_token(all_tokens: &Vec<Token>, all_credentials: &Vec<Credential>, b64_token: &str, now: &Timestamp) -> (r: TokenRoute)
    ensures
        r == token_route(all_tokens@, all_credentials@, b64_token@, *now),
{
    match Token::position_of(all_tokens, b64_token) {
        Some(i) => {
            let my_token = &all_tokens[i];
            if !my_token.is_token_valid_at(now) {
                TokenRoute::Invalid
            } else if Credential::email_in_use(all_credentials, my_token.initiator_email.as_str()) {
                TokenRoute::PasswordReset(i)
            } else {
                TokenRoute::Registration(i)
            }
        },
        None => TokenRoute::Invalid,
    }
}

/// A token just made and stored, handed in before it expires, leads to a
/// password reset or a registration for its email (no earlier token having
/// the same text).
pub proof fn lemma_fresh_token_routes(tokens: Seq<Token>, creds: Seq<Credential>, t: Token, now: Timestamp)
    requires
        first_with_text(tokens, t.b64_token@) is None,
        nanos_between(t.creation_time, now) < ttl_nanos(),
    ensures
        token_route(tokens.push(t), creds, t.b64_token@, now) == if email_in_use_spec(creds, t.initiator_email@) {
            TokenRoute::PasswordReset(tokens.len() as usize)
        } else {
            TokenRoute::Registration(tokens.len() as usize)
        },
{
    let all = tokens.push(t);
    let k: int = tokens.len() as int;
    assert forall|j: int| 0 <= j < k implies !with_text(t.b64_token@)(#[trigger] all[j]) by {
        assert(all[j] == tokens[j]);
        if with_text(t.b64_token@)(tokens[j]) {
            lemma_some_match(tokens, with_text(t.b64_token@), j);
        }
    }
    assert(all[k] == t);
    assert(is_first_match(all, with_text(t.b64_token@), k));
    lemma_first_match_is(all, with_text(t.b64_token@), k);
}

/// A token handed in after it has expired leads nowhere.
pub proof fn lemma_expired_token_is_invalid(tokens: Seq<Token>, creds: Seq<Credential>, b64: Seq<char>, now: Timestamp)
    requires
        first_with_text(tokens, b64) matches Some(i) && !valid_at(tokens[i], now),
    ensures
        token_route(tokens, creds, b64, now) == TokenRoute::Invalid,
{
}

/// A token made at `made` and handed in at `at`: while less than its lifetime
/// has passed it leads on (to a registration or a password reset), and once
/// its lifetime has passed since `made` it is refused as invalid.
pub proof fn lemma_token_made_at_expires(
    tokens: Seq<Token>,
    creds: Seq<Credential>,
    t: Token,
    made: Timestamp,
    at: Timestamp,
)
    requires
        first_with_text(tokens, t.b64_token@) is None,
        t.creation_time == made,
    ensures
        nanos_between(made, at) >= ttl_nanos() ==> token_route(tokens.push(t), creds, t.b64_token@, at)
            == TokenRoute::Invalid,
        nanos_between(made, at) < ttl_nanos() ==> token_route(tokens.push(t), creds, t.b64_token@, at)
            != TokenRoute::Invalid,
{
    let all = tokens.push(t);
    let k: int = tokens.len() as int;
    assert forall|j: int| 0 <= j < k implies !with_text(t.b64_token@)(#[trigger] all[j]) by {
        assert(all[j] == tokens[j]);
        if with_text(t.b64_token@)(tokens[j]) {
            lemma_some_match(tokens, with_text(t.b64_token@), j);
        }
    }
    assert(all[k] == t);
    assert(is_first_match(all, with_text(t.b64_token@), k));
    lemma_first_match_is(all, with_text(t.b64_token@), k);
}

/// A token leads to a registration only for an email that no account has,
/// and to a password reset only for one that an account has: the service
/// never registers an email twice through a token.
pub proof fn lemma_route_matches_accounts(tokens: Seq<Token>, creds: Seq<Credential>, b64: Seq<char>, now: Timestamp)
    requires
        tokens.len() <= usize::MAX,
    ensures
        token_route(tokens, creds, b64, now) matches TokenRoute::Registration(i) ==> {
            &&& first_with_text(tokens, b64) == Some(i as int)
            &&& valid_at(tokens[i as int], now)
            &&& first_with_email(creds, tokens[i as int].initiator_email@) is None
        },
        token_route(tokens, creds, b64, now) matches TokenRoute::PasswordReset(i) ==> {
            &&& first_with_text(tokens, b64) == Some(i as int)
            &&& valid_at(tokens[i as int], now)
            &&& first_with_email(creds, tokens[i as int].initiator_email@) is Some
        },
{
    if let Some(i) = first_with_text(tokens, b64) {
        assert(is_first_match(tokens, with_text(b64), i));
        let email = tokens[i].initiator_email@;
        if email_in_use_spec(creds, email) {
            let j = choose|j: int| 0 <= j < creds.len() && (#[trigger] creds[j]).email@ == email;
            lemma_some_match(creds, with_email(email), j);
        } else {
            assert forall|j: int| 0 <= j < creds.len() implies !with_email(email)(#[trigger] creds[j]) by {
                if creds[j].email@ == email {
                    assert(email_in_use_spec(creds, email));
                }
            }
            lemma_no_match(creds, with_email(email));
        }
    }
}

/// What the service does with a request for a token sent by mail.
#[derive(Clone, Copy, Debug, PartialEq, Eq)]
pub enum TokenRequestPlan {
    /// The entry is not an email address: show this answer and stop.
    NotAnEmail(&'static str),
    /// Make a token and store it, but send no mail.
    TokenOnly,
    /// Make a token, store it, and mail it.
    TokenAndMail,
    /// Mail a notice without a token.
    MailOnly,
}

/// What a registration request leads to: for an email with an account, a
/// notice by mail and no token; for a new email, a token by mail.
pub open spec fn registration_plan(creds: Seq<Credential>, email: Seq<char>) -> TokenRequestPlan {
    if !is_email_address(email) {
        TokenRequestPlan::NotAnEmail("Not an email address")
    } else if email_in_use_spec(creds, email) {
        TokenRequestPlan::MailOnly
    } else {
        TokenRequestPlan::TokenAndMail
    }
}

/// What a password reset request leads to: a token in every case (so that
/// the answer takes the same time), mailed only to an email with an account.
pub open spec fn password_reset_plan(creds: Seq<Credential>, email: Seq<char>) -> TokenRequestPlan {
    if !is_email_address(email) {
        TokenRequestPlan::NotAnEmail("Not an email address.")
    } else if email_in_use_spec(creds, email) {
        TokenRequestPlan::TokenAndMail
    } else {
        TokenRequestPlan::TokenOnly
    }
}

/// Decides what a registration request for `email` leads to.
pub fn plan_registration_request(all_credentials: &Vec<Credential>, email: &str) -> (r: TokenRequestPlan)
    ensures
        r == registration_plan(all_credentials@, email@),
{
    if !is_email_valid(email) {
        TokenRequestPlan::NotAnEmail("Not an email address")
    } else if Credential::email_in_use(all_credentials, email) {
        TokenRequestPlan::MailOnly
    } else {
        TokenRequestPlan::TokenAndMail
    }
}

/// Decides what a password reset request for `email` leads to.
pub fn plan_password_reset_request(all_credentials: &Vec<Credential>, email: &str) -> (r: TokenRequestPlan)
    ensures
        r == password_reset_plan(all_credentials@, email@),
{
    if !is_email_valid(email) {
        TokenRequestPlan::NotAnEmail("Not an email address.")
    } else if Credential::email_in_use(all_credentials, email) {
        TokenRequestPlan::TokenAndMail
    } else {
        TokenRequestPlan::TokenOnly
    }
}

/// No registration token is ever made for an email that has an account, and
/// a reset token is mailed only to an email that has one.
pub proof fn lemma_token_requests(creds: Seq<Credential>, email: Seq<char>)
    ensures
        registration_plan(creds, email) is TokenAndMail ==> first_with_email(creds, email) is None,
        password_reset_plan(creds, email) is TokenAndMail ==> first_with_email(creds, email) is Some,
        registration_plan(creds, email) is NotAnEmail <==> password_reset_plan(creds, email) is NotAnEmail,
{
    if email_in_use_spec(creds, email) {
        let j = choose|j: int| 0 <= j < creds.len() && (#[trigger] creds[j]).email@ == email;
        lemma_some_match(creds, with_email(email), j);
    } else {
        assert forall|j: int| 0 <= j < creds.len() implies !with_email(email)(#[trigger] creds[j]) by {
            if creds[j].email@ == email {
                assert(email_in_use_spec(creds, email));
            }
        }
        lemma_no_match(creds, with_email(email));
    }
}

} // verus!
