use vstd::prelude::*;

use crate::constant::{TOKEN_RANDOM_BYTES, TTL};
use crate::crypto::{
    base64_decoded, base64_encode, base64_encoded, base64_text_len, is_base64_char, random_bytes, Base64Variant,
};
use crate::search::{first_match, is_first_match, lemma_first_match_is, lemma_no_match};
use crate::text::same_text;
use crate::time::{nanos_between, total_nanos, Timestamp, NANOS_PER_SEC};

verus! {

/// A one-use token sent by mail: the Base64 text of random bytes, when it was
/// made, and the email it was asked for.
#[derive(Debug)]
pub struct Token {
    pub b64_token: String,
    pub creation_time: Timestamp,
    pub initiator_email: String,
}

/// How long a token lives, in nanoseconds.
pub open spec fn ttl_nanos() -> int {
    TTL * 60 * 1_000_000_000
}

/// The token is still valid at `now`: less than its lifetime has passed
/// since it was made.
pub open spec fn valid_at(t: Token, now: Timestamp) -> bool {
    nanos_between(t.creation_time, now) < ttl_nanos()
}

/// The test "this token is valid at `now`".
pub open spec fn valid_at_pred(now: Timestamp) -> spec_fn(Token) -> bool {
    |t: Token| valid_at(t, now)
}

/// The two tokens are equal in every field.
pub open spec fn same_token(a: Token, b: Token) -> bool {
    &&& a.b64_token@ == b.b64_token@
    &&& a.creation_time == b.creation_time
    &&& a.initiator_email@ == b.initiator_email@
}

/// The test "this token differs from `t`".
pub open spec fn other_than(t: Token) -> spec_fn(Token) -> bool {
    |u: Token| !same_token(u, t)
}

/// The test "this token's text is `b64`".
pub open spec fn with_text(b64: Seq<char>) -> spec_fn(Token) -> bool {
    |t: Token| t.b64_token@ == b64
}

/// Position of the first token whose text is `b64`, if any.
pub open spec fn first_with_text(tokens: Seq<Token>, b64: Seq<char>) -> Option<int> {
    first_match(tokens, with_text(b64))
}

/// `t` is a token freshly made for `email`: the text of random bytes (as
/// many as a token draws), made at a time that the clock gave.
pub open spec fn is_fresh_token(t: Token, email: Seq<char>) -> bool {
    &&& t.initiator_email@ == email
    &&& t.creation_time.secs >= 0
    &&& t.creation_time.nanos < NANOS_PER_SEC
    &&& t.b64_token@.len() == base64_text_len(TOKEN_RANDOM_BYTES as nat, Base64Variant::UrlSafe)
    &&& forall|i: int| 0 <= i < t.b64_token@.len() ==> is_base64_char(#[trigger] t.b64_token@[i], Base64Variant::UrlSafe)
    &&& exists|b: Seq<u8>|
        b.len() == TOKEN_RANDOM_BYTES && #[trigger] base64_encoded(b, Base64Variant::UrlSafe) == t.b64_token@
            && base64_decoded(t.b64_token@, Base64Variant::UrlSafe) == Some(b)
}

impl Token {
    /// A copy of the token.
    pub fn duplicate(&self) -> (r: Token)
        ensures
            r == *self,
    {
        Token {
            b64_token: self.b64_token.clone(),
            creation_time: self.creation_time,
            initiator_email: self.initiator_email.clone(),
        }
    }

    /// A new token for `initiator_email`: random bytes as Base64 text, stamped
    /// with the current time.
    pub fn create(initiator_email: &str) -> (r: Token)
        ensures
            is_fresh_token(r, initiator_email@),
    {
        let random = random_bytes(TOKEN_RANDOM_BYTES);
        let now = Timestamp::now();
        let t = Token::create_at(initiator_email, random.as_slice(), now);
        assert(base64_encoded(random@, Base64Variant::UrlSafe) == t.b64_token@);
        t
    }

    /// A token for `initiator_email` made at `now` from the bytes `random`:
    /// their Base64 text, stamped with `now`.
    pub fn create_at(initiator_email: &str, random: &[u8], now: Timestamp) -> (r: Token)
        ensures
            r.initiator_email@ == initiator_email@,
            r.creation_time == now,
            r.b64_token@ == base64_encoded(random@, Base64Variant::UrlSafe),
            base64_decoded(r.b64_token@, Base64Variant::UrlSafe) == Some(random@),
            r.b64_token@.len() == base64_text_len(random@.len(), Base64Variant::UrlSafe),
            forall|i: int| 0 <= i < r.b64_token@.len() ==> is_base64_char(#[trigger] r.b64_token@[i], Base64Variant::UrlSafe),
    {
        let b64 = base64_encode(random, Base64Variant::UrlSafe);
        Token { b64_token: b64, creation_time: now, initiator_email: initiator_email.to_owned() }
    }

    /// Whether the two tokens are equal in every field.
    pub fn same_as(&self, other: &Token) -> (r: bool)
        ensures
            r == same_token(*self, *other),
    {
        same_text(self.b64_token.as_str(), other.b64_token.as_str())
            && self.creation_time == other.creation_time
            && same_text(self.initiator_email.as_str(), other.initiator_email.as_str())
    }

    /// Whether the token is still valid at `now`.
    pub fn is_token_valid_at(&self, now: &Timestamp) -> (r: bool)
        ensures
            r == valid_at(*self, *now),
    {
        self.creation_time.is_within(now, (TTL as i128) * 60 * 1_000_000_000)
    }

    /// Whether the token is still valid now (the clock is read once).
    pub fn is_token_valid(&self) -> (r: bool)
        ensures
            exists|now: Timestamp| now.secs >= 0 && now.nanos < NANOS_PER_SEC && r == #[trigger] valid_at(*self, now),
    {
        let now = Timestamp::now();
        self.is_token_valid_at(&now)
    }

    /// Position of the first token whose text is `b64_token`.
    pub fn position_of(all_tokens: &Vec<Token>, b64_token: &str) -> (r: Option<usize>)
        ensures
            match r {
                Some(i) => first_with_text(all_tokens@, b64_token@) == Some(i as int),
                None => first_with_text(all_tokens@, b64_token@) is None,
            },
    {
        let mut i: usize = 0;
        while i < all_tokens.len()
            invariant
                i <= all_tokens@.len(),
                forall|j: int| 0 <= j < i ==> !with_text(b64_token@)(#[trigger] all_tokens@[j]),
            decreases all_tokens@.len() - i,
        {
            if same_text(all_tokens[i].b64_token.as_str(), b64_token) {
                proof {
                    assert(is_first_match(all_tokens@, with_text(b64_token@), i as int));
                    lemma_first_match_is(all_tokens@, with_text(b64_token@), i as int);
                }
                return Some(i);
            }
            i = i + 1;
        }
        proof {
            lemma_no_match(all_tokens@, with_text(b64_token@));
        }
        None
    }

    /// Adds a token at the end.
    pub fn add_new_token_in_db(all_tokens: &mut Vec<Token>, new_token: Token)
        ensures
            final(all_tokens)@ == old(all_tokens)@.push(new_token),
    {
        all_tokens.push(new_token);
    }

    /// Keeps the tokens that are still valid at `now`, in order.
    pub fn retain_valid_tokens(all_tokens: &mut Vec<Token>, now: &Timestamp)
        ensures
            final(all_tokens)@ == old(all_tokens)@.filter(valid_at_pred(*now)),
    {
        let ghost before = all_tokens@;
        let mut kept: Vec<Token> = Vec::new();
        let mut i: usize = 0;
        assert(before.take(0) =~= Seq::<Token>::empty());
        while i < all_tokens.len()
            invariant
                all_tokens@ == before,
                i <= before.len(),
                kept@ == before.take(i as int).filter(valid_at_pred(*now)),
            decreases before.len() - i,
        {
            assert(before.take(i + 1).drop_last() =~= before.take(i as int));
            assert(before.take(i + 1).last() == before[i as int]);
            reveal(Seq::filter);
            assert(before.take(i + 1).filter(valid_at_pred(*now)) == if valid_at_pred(*now)(before[i as int]) {
                before.take(i as int).filter(valid_at_pred(*now)).push(before[i as int])
            } else {
                before.take(i as int).filter(valid_at_pred(*now))
            });
            if all_tokens[i].is_token_valid_at(now) {
                kept.push(all_tokens[i].duplicate());
            }
            i = i + 1;
        }
        assert(before.take(before.len() as int) =~= before);
        *all_tokens = kept;
    }

    /// Drops the tokens that have expired (the clock is read once).
    pub fn delete_old_token(all_tokens: &mut Vec<Token>)
        ensures
            exists|now: Timestamp|
                now.secs >= 0 && now.nanos < NANOS_PER_SEC && final(all_tokens)@ == old(all_tokens)@.filter(
                    #[trigger] valid_at_pred(now),
                ),
    {
        let now = Timestamp::now();
        Token::retain_valid_tokens(all_tokens, &now);
    }

    /// Drops every token equal to this one, keeping the others in order.
    pub fn delete(&self, all_tokens: &mut Vec<Token>)
        ensures
            final(all_tokens)@ == old(all_tokens)@.filter(other_than(*self)),
    {
        let ghost before = all_tokens@;
        let mut kept: Vec<Token> = Vec::new();
        let mut i: usize = 0;
        assert(before.take(0) =~= Seq::<Token>::empty());
        while i < all_tokens.len()
            invariant
                all_tokens@ == before,
                i <= before.len(),
                kept@ == before.take(i as int).filter(other_than(*self)),
            decreases before.len() - i,
        {
            assert(before.take(i + 1).drop_last() =~= before.take(i as int));
            assert(before.take(i + 1).last() == before[i as int]);
            reveal(Seq::filter);
            assert(before.take(i + 1).filter(other_than(*self)) == if other_than(*self)(before[i as int]) {
                before.take(i as int).filter(other_than(*self)).push(before[i as int])
            } else {
                before.take(i as int).filter(other_than(*self))
            });
            if !all_tokens[i].same_as(self) {
                kept.push(all_tokens[i].duplicate());
            }
            i = i + 1;
        }
        assert(before.take(before.len() as int) =~= before);
        *all_tokens = kept;
    }
}


/// Filtering keeps a sequence whose items all pass.
proof fn lemma_filter_keeps_all(s: Seq<Token>, p: spec_fn(Token) -> bool)
    requires
        forall|i: int| 0 <= i < s.len() ==> p(#[trigger] s[i]),
    ensures
        s.filter(p) == s,
    decreases s.len(),
{
    reveal(Seq::filter);
    if s.len() > 0 {
        let rest = s.drop_last();
        assert forall|i: int| 0 <= i < rest.len() implies p(#[trigger] rest[i]) by {
            assert(rest[i] == s[i]);
        }
        lemma_filter_keeps_all(rest, p);
        assert(p(s[s.len() - 1]));
        assert(rest.push(s.last()) =~= s);
    }
}

/// A token is valid when it is made, stays valid until its lifetime has
/// passed, and once expired never becomes valid again.
pub proof fn lemma_token_lifetime(t: Token, earlier: Timestamp, later: Timestamp)
    requires
        total_nanos(earlier) <= total_nanos(later),
    ensures
        valid_at(t, t.creation_time),
        valid_at(t, later) ==> valid_at(t, earlier),
        !valid_at(t, earlier) ==> !valid_at(t, later),
{
}

/// Dropping the expired tokens keeps exactly the tokens valid at that time:
/// every token kept is valid, and every valid token is kept.
pub proof fn lemma_expired_dropped(tokens: Seq<Token>, now: Timestamp)
    ensures
        forall|k: int|
            0 <= k < tokens.filter(valid_at_pred(now)).len() ==> valid_at(
                #[trigger] tokens.filter(valid_at_pred(now))[k],
                now,
            ),
        forall|i: int|
            0 <= i < tokens.len() && valid_at(tokens[i], now) ==> tokens.filter(valid_at_pred(now)).contains(
                #[trigger] tokens[i],
            ),
        tokens.filter(valid_at_pred(now)).len() <= tokens.len(),
{
    let kept = tokens.filter(valid_at_pred(now));
    assert forall|k: int| 0 <= k < kept.len() implies valid_at(#[trigger] kept[k], now) by {
        tokens.lemma_filter_pred(valid_at_pred(now), k);
    }
    assert forall|i: int| 0 <= i < tokens.len() && valid_at(tokens[i], now) implies kept.contains(
        #[trigger] tokens[i],
    ) by {
        tokens.lemma_filter_contains(valid_at_pred(now), i);
    }
    tokens.lemma_filter_len(valid_at_pred(now));
}

/// Deleting a token leaves no token equal to it, keeps every other one, and
/// deleting it again changes nothing.
pub proof fn lemma_token_deleted(tokens: Seq<Token>, t: Token)
    ensures
        forall|k: int|
            0 <= k < tokens.filter(other_than(t)).len() ==> !same_token(
                #[trigger] tokens.filter(other_than(t))[k],
                t,
            ),
        forall|i: int|
            0 <= i < tokens.len() && !same_token(tokens[i], t) ==> tokens.filter(other_than(t)).contains(
                #[trigger] tokens[i],
            ),
        tokens.filter(other_than(t)).filter(other_than(t)) == tokens.filter(other_than(t)),
{
    let kept = tokens.filter(other_than(t));
    assert forall|k: int| 0 <= k < kept.len() implies !same_token(#[trigger] kept[k], t) by {
        tokens.lemma_filter_pred(other_than(t), k);
    }
    assert forall|i: int| 0 <= i < tokens.len() && !same_token(tokens[i], t) implies kept.contains(
        #[trigger] tokens[i],
    ) by {
        tokens.lemma_filter_contains(other_than(t), i);
    }
    assert forall|k: int| 0 <= k < kept.len() implies other_than(t)(#[trigger] kept[k]) by {
        tokens.lemma_filter_pred(other_than(t), k);
    }
    lemma_filter_keeps_all(kept, other_than(t));
}

/// A token's text is 344 characters long: the padded Base64 of its random bytes.
pub proof fn lemma_token_text_length()
    ensures
        base64_text_len(TOKEN_RANDOM_BYTES as nat, Base64Variant::UrlSafe) == 344,
{
}

} // verus!
