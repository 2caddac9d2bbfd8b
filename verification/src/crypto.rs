use vstd::prelude::*;

use sodiumoxide::base64;
use sodiumoxide::crypto::pwhash;
use sodiumoxide::randombytes;

verus! {

/// The Base64 alphabets and paddings that libsodium offers.
#[derive(Clone, Copy, Debug, PartialEq, Eq, Structural)]
pub enum Base64Variant {
    Original,
    OriginalNoPadding,
    UrlSafe,
    UrlSafeNoPadding,
}

/// How much work and memory a password hash costs.
#[derive(Clone, Copy, Debug, PartialEq, Eq, Structural)]
pub enum HashCost {
    Interactive,
    Sensitive,
}

/// Length in bytes of a hashed password (scrypt's password verification
/// string, `HASHEDPASSWORDBYTES` in sodiumoxide).
pub const HASHED_PASSWORD_BYTES: usize = 102;

/// Whether the variant pads its text with `=` to a multiple of four characters.
pub open spec fn is_padded(variant: Base64Variant) -> bool {
    variant == Base64Variant::Original || variant == Base64Variant::UrlSafe
}

/// Whether the variant uses the URL-safe alphabet (`-` and `_`).
pub open spec fn is_url_safe(variant: Base64Variant) -> bool {
    variant == Base64Variant::UrlSafe || variant == Base64Variant::UrlSafeNoPadding
}

/// Length of the Base64 text of `n` bytes: four characters for each three
/// bytes, and for the one or two bytes left, four padded characters or two
/// or three unpadded ones.
pub open spec fn base64_text_len(n: nat, variant: Base64Variant) -> nat {
    let full = (n / 3) * 4;
    let rest = n % 3;
    if rest == 0 {
        full
    } else if is_padded(variant) {
        full + 4
    } else {
        full + rest + 1
    }
}

/// A character that the variant's Base64 text may hold.
pub open spec fn is_base64_char(c: char, variant: Base64Variant) -> bool {
    ||| ('A' <= c && c <= 'Z')
    ||| ('a' <= c && c <= 'z')
    ||| ('0' <= c && c <= '9')
    ||| (is_url_safe(variant) && (c == '-' || c == '_'))
    ||| (!is_url_safe(variant) && (c == '+' || c == '/'))
    ||| (is_padded(variant) && c == '=')
}

/// The text that libsodium's Base64 encoder writes for `bin`.
pub uninterp spec fn base64_encoded(bin: Seq<u8>, variant: Base64Variant) -> Seq<char>;

/// What libsodium's Base64 decoder gives for `b64`: the bytes, or nothing
/// where the text is not valid Base64 of that variant.
pub uninterp spec fn base64_decoded(b64: Seq<char>, variant: Base64Variant) -> Option<Seq<u8>>;

/// Whether `pwhash_verify` accepts `password` for the hashed password `hashed`.
pub uninterp spec fn pwhash_accepts(hashed: Seq<u8>, password: Seq<u8>) -> bool;

/// Encodes bytes as Base64 with `sodiumoxide::base64::encode`.
///
/// Trusted: the result is libsodium's encoding, named `base64_encoded`, and
/// decoding it with the same variant gives the bytes back (RFC 4648, which
/// libsodium implements). Its length is what `sodium_bin2base64` computes
/// (`base64_text_len`), and it holds only the variant's characters
/// (`b64_byte_to_char` or `b64_byte_to_urlsafe_char`, and `=` for padding).
#[verifier::external_body]
pub(crate) fn base64_encode(bin: &[u8], variant: Base64Variant) -> (r: String)
    ensures
        r@ == base64_encoded(bin@, variant),
        base64_decoded(r@, variant) == Some(bin@),
        r@.len() == base64_text_len(bin@.len(), variant),
        forall|i: int| 0 <= i < r@.len() ==> is_base64_char(#[trigger] r@[i], variant),
{
    let v = match variant {
        Base64Variant::Original => base64::Variant::Original,
        Base64Variant::OriginalNoPadding => base64::Variant::OriginalNoPadding,
        Base64Variant::UrlSafe => base64::Variant::UrlSafe,
        Base64Variant::UrlSafeNoPadding => base64::Variant::UrlSafeNoPadding,
    };
    base64::encode(bin, v)
}

/// Decodes Base64 text with `sodiumoxide::base64::decode`.
///
/// Trusted: the result is what libsodium's decoder gives, named `base64_decoded`;
/// its error becomes `None`.
#[verifier::external_body]
pub(crate) fn base64_decode(b64: &str, variant: Base64Variant) -> (r: Option<Vec<u8>>)
    ensures
        match r {
            Some(v) => base64_decoded(b64@, variant) == Some(v@),
            None => base64_decoded(b64@, variant) is None,
        },
{
    let v = match variant {
        Base64Variant::Original => base64::Variant::Original,
        Base64Variant::OriginalNoPadding => base64::Variant::OriginalNoPadding,
        Base64Variant::UrlSafe => base64::Variant::UrlSafe,
        Base64Variant::UrlSafeNoPadding => base64::Variant::UrlSafeNoPadding,
    };
    base64::decode(b64, v).ok()
}

/// Draws `size` random bytes with `sodiumoxide::randombytes::randombytes`.
///
/// Trusted: only the length is stated; the bytes come from libsodium's
/// random generator.
#[verifier::external_body]
pub(crate) fn random_bytes(size: usize) -> (r: Vec<u8>)
    ensures
        r@.len() == size,
{
    randombytes::randombytes(size)
}

/// Hashes a password with `sodiumoxide::crypto::pwhash::pwhash` (scrypt, with a
/// fresh random salt).
///
/// Trusted: on success the hashed password has `HASHEDPASSWORDBYTES` bytes and
/// `pwhash_verify` accepts the same password for it (sodiumoxide's
/// documentation of `pwhash_verify`). Which salt is drawn, and whether
/// libsodium fails (`Err(())`, here `None`), is not stated.
#[verifier::external_body]
pub(crate) fn password_hash(passwd: &[u8], cost: HashCost) -> (r: Option<Vec<u8>>)
    ensures
        r matches Some(h) ==> h@.len() == HASHED_PASSWORD_BYTES && pwhash_accepts(h@, passwd@),
{
    let (ops, mem) = match cost {
        HashCost::Interactive => (pwhash::OPSLIMIT_INTERACTIVE, pwhash::MEMLIMIT_INTERACTIVE),
        HashCost::Sensitive => (pwhash::OPSLIMIT_SENSITIVE, pwhash::MEMLIMIT_SENSITIVE),
    };
    match pwhash::pwhash(passwd, ops, mem) {
        Ok(h) => Some(h.as_ref().to_vec()),
        Err(()) => None,
    }
}

/// Checks a password against a hashed password with
/// `sodiumoxide::crypto::pwhash::pwhash_verify`, the bytes turned into a
/// `HashedPassword` by `HashedPassword::from_slice`, which succeeds on exactly
/// `HASHEDPASSWORDBYTES` bytes.
///
/// Trusted: the answer is `pwhash_verify`'s, named `pwhash_accepts`.
#[verifier::external_body]
pub(crate) fn password_hash_verify(hashed: &[u8], passwd: &[u8]) -> (r: bool)
    requires
        hashed@.len() == HASHED_PASSWORD_BYTES,
    ensures
        r == pwhash_accepts(hashed@, passwd@),
{
    match pwhash::HashedPassword::from_slice(hashed) {
        Some(hp) => pwhash::pwhash_verify(&hp, passwd),
        None => false,
    }
}

} // verus!
