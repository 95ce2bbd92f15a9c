//! Identities: ed25519 secret keys whose public halves are written as
//! 52-character id52 strings, from the `fastn_id52` crate.

use vstd::prelude::*;
use crate::text::{utf8_len, trim_spec, trim_text};

verus! {

#[verifier::external_type_specification]
#[verifier::external_body]
pub struct ExSecretKey(fastn_id52::SecretKey);

#[verifier::external_type_specification]
#[verifier::external_body]
pub struct ExPublicKey(fastn_id52::PublicKey);

/// `fastn_id52::SecretKey::public_key`: the public half of `k`. Nothing is
/// claimed of it beyond its type.
#[verifier::external_body]
pub(crate) fn secret_key_public(k: &fastn_id52::SecretKey) -> fastn_id52::PublicKey {
    k.public_key()
}

/// `fastn_id52::SecretKey::generate`: a fresh key from the operating
/// system's random number generator. Nothing is claimed of which key.
#[verifier::external_body]
pub(crate) fn generate_secret_key() -> (k: fastn_id52::SecretKey) {
    fastn_id52::SecretKey::generate()
}

/// A lowercase hexadecimal digit.
pub open spec fn is_hex_lower(c: char) -> bool {
    ('0' <= c && c <= '9') || ('a' <= c && c <= 'f')
}

/// The value of a character of the base32 alphabet (`A`-`Z`, then `2`-`7`),
/// letters taken in either case.
pub open spec fn base32_value(c: char) -> Option<nat> {
    if 'A' <= c && c <= 'Z' {
        Some((c as nat - 'A' as nat) as nat)
    } else if 'a' <= c && c <= 'z' {
        Some((c as nat - 'a' as nat) as nat)
    } else if '2' <= c && c <= '7' {
        Some((c as nat - '2' as nat + 26) as nat)
    } else {
        None
    }
}

/// Whether `fastn_id52::SecretKey::from_str` accepts `text` of 52 or 64
/// bytes: 64 bytes must be lowercase hexadecimal digits; any other length
/// must be base32 characters whose last one carries no bits beyond the 32
/// bytes of the key (its value is a multiple of 16).
pub open spec fn secret_key_text_parses(text: Seq<char>) -> bool {
    if utf8_len(text) == 64 {
        forall|i: int| 0 <= i < text.len() ==> is_hex_lower(#[trigger] text[i])
    } else {
        text.len() > 0
            && (forall|i: int| 0 <= i < text.len() ==> #[trigger] base32_value(text[i]) is Some)
            && base32_value(text.last()).unwrap() % 16 == 0
    }
}

/// `fastn_id52::SecretKey::from_str`: the key that `text` encodes. The
/// contract claims that it succeeds exactly where `secret_key_text_parses`
/// holds: a text of 64 bytes is decoded with `data_encoding::HEXLOWER`
/// (lowercase digits only, 4 bits each), any other after
/// `to_ascii_uppercase` with `data_encoding::BASE32_NOPAD` (5 bits each,
/// trailing bits checked: of the last character's 5 bits the low 4 lie past
/// the 32 bytes and must be zero); any 32 bytes make a key. Which key is not
/// stated. The function decodes into a buffer of 32 bytes and panics (an
/// assertion of `data_encoding`) unless the text is 64 bytes long (hex) or
/// 52 bytes long (base32), so those are required.
#[verifier::external_body]
pub(crate) fn parse_secret_key(text: &str) -> (r: Option<fastn_id52::SecretKey>)
    requires
        utf8_len(text@) == 52 || utf8_len(text@) == 64,
    ensures
        r is Some == secret_key_text_parses(text@),
{
    <fastn_id52::SecretKey as std::str::FromStr>::from_str(text).ok()
}


/// The secret key that a key file's text holds, white space around it
/// aside; the key's text must be 52 or 64 bytes long, as the key parser
/// requires.
pub fn read_secret_key(content: &str) -> (r: Option<fastn_id52::SecretKey>)
    requires
        utf8_len(trim_spec(content@)) == 52 || utf8_len(trim_spec(content@)) == 64,
    ensures
        r is Some == secret_key_text_parses(trim_spec(content@)),
{
    let t = trim_text(content);
    parse_secret_key(t.as_str())
}

} // verus!
