//! The calls that leave this crate. Each function here has a contract that is
//! taken on trust: its doc comment says what is claimed of the outside code.

use crate::calendar::{utc_moment, CalendarDate, UtcDateTime};
use crate::error::TokenFault;
use chrono::{Datelike, Timelike};
use vstd::prelude::*;
use vstd::utf8::{decode_utf8, valid_utf8};

verus! {

/// Whether the regular expression `pattern` matches somewhere in `text`, as
/// the `regex` crate decides it; `None` where the crate refuses the pattern.
pub uninterp spec fn regex_search(pattern: Seq<char>, text: Seq<char>) -> Option<bool>;

/// Compiles `pattern` with `regex::Regex::new` and searches `text` with
/// `Regex::is_match`. The claim is only that the outcome depends on the two
/// texts alone, so that it can be called [`regex_search`]; `None` stands for
/// the error that `Regex::new` returns.
#[verifier::external_body]
pub(crate) fn search(pattern: &str, text: &str) -> (found: Option<bool>)
    ensures
        found == regex_search(pattern@, text@),
{
    match regex::Regex::new(pattern) {
        Ok(expression) => Some(expression.is_match(text)),
        Err(_) => None,
    }
}

/// Whether `hash` is a bcrypt hash of `password`, as `pwhash` decides it.
pub uninterp spec fn bcrypt_matches(password: Seq<char>, hash: Seq<char>) -> bool;

/// The texts that can be shown to `pwhash` as a hash: every character lies
/// between the space and U+007F. The crate looks the characters of the salt up
/// in a table of 96 entries that begins at the space, and checks the bound one
/// too high.
pub open spec fn plain_hash(hash: Seq<char>) -> bool {
    forall|i: int| 0 <= i < hash.len() ==> 0x20 <= (#[trigger] hash[i]) as u32 <= 0x7f
}

/// Whether `password` opens an account that holds `hash`: the hash can be
/// shown to `pwhash`, and it is a hash of the password.
pub open spec fn hash_opens(password: Seq<char>, hash: Seq<char>) -> bool {
    plain_hash(hash) && bcrypt_matches(password, hash)
}

/// `pwhash::bcrypt::verify`: hashes `password` again with the cost and salt
/// that `hash` carries and compares. The claim is only that the answer depends
/// on the two texts alone, so that it can be called [`bcrypt_matches`]. A
/// hash with a character outside [`plain_hash`] is kept away: the crate would
/// read beyond its table.
#[verifier::external_body]
pub(crate) fn bcrypt_verify(password: &str, hash: &str) -> (ok: bool)
    requires
        plain_hash(hash@),
    ensures
        ok == bcrypt_matches(password@, hash@),
{
    pwhash::bcrypt::verify(password, hash)
}

/// `pwhash::bcrypt::hash`: hashes `password` with a salt drawn at random, so
/// two calls differ. Claimed of every hash that comes back: it is written
/// with `$`, digits and the 64 characters of the crate's alphabet, and
/// `bcrypt::verify` accepts it for the same password. `None` stands for the
/// crate's error.
#[verifier::external_body]
pub(crate) fn bcrypt_hash(password: &str) -> (hash: Option<String>)
    ensures
        hash matches Some(h) ==> plain_hash(h@) && bcrypt_matches(password@, h@),
{
    pwhash::bcrypt::hash(password).ok()
}

/// `uuid::Uuid::new_v4`, written out by `to_string`: a random identifier in
/// the hyphenated form, which has 36 characters.
#[verifier::external_body]
pub(crate) fn fresh_id() -> (id: String)
    ensures
        id@.len() == 36,
{
    uuid::Uuid::new_v4().to_string()
}

/// `chrono::DateTime::from_timestamp` with no nanoseconds, read back through
/// `Datelike` and `Timelike`. The source divides the timestamp by 86 400,
/// rounding down, into a day number and a second of the day, and has a date
/// for the day where its year lies in the crate's range. The date is that of
/// the proleptic Gregorian calendar, which [`utc_moment`] writes out.
#[verifier::external_body]
pub(crate) fn utc_from_timestamp(seconds: i64) -> (moment: Option<UtcDateTime>)
    ensures
        moment == utc_moment(seconds as int),
{
    match chrono::DateTime::from_timestamp(seconds, 0) {
        Some(t) => Some(
            UtcDateTime {
                date: CalendarDate { year: t.year(), month: t.month(), day: t.day() },
                hour: t.hour(),
                minute: t.minute(),
                second: t.second(),
            },
        ),
        None => None,
    }
}

/// The date of `chrono::Utc::now`. It depends on the clock; `Datelike`
/// documents the ranges of the month and of the day.
#[verifier::external_body]
pub(crate) fn today() -> (date: CalendarDate)
    ensures
        1 <= date.month <= 12,
        1 <= date.day <= 31,
{
    let d = chrono::Utc::now().naive_utc().date();
    CalendarDate { year: d.year(), month: d.month(), day: d.day() }
}

/// The timestamps that the clock can show: `chrono::Utc::now` returns only
/// for a time at or after the epoch whose day number fits 32 bits.
pub open spec fn clock_time(seconds: i64) -> bool {
    0 <= seconds < 86_400 * 0x8000_0000
}

/// The Unix timestamp of `chrono::Utc::now`, in seconds. It depends on the
/// clock. The source takes the time that has passed since the epoch, which is
/// not negative, and returns only where `DateTime::from_timestamp` has a date
/// for it: that bounds the timestamp.
#[verifier::external_body]
pub(crate) fn now() -> (seconds: i64)
    ensures
        clock_time(seconds),
{
    chrono::Utc::now().timestamp()
}

/// A JSON value of `serde_json`: here the claims that a token carries.
#[verifier::external_type_specification]
#[verifier::external_body]
pub struct ExJsonValue(serde_json::Value);

/// The error with which `jsonwebtoken` refuses a token.
#[verifier::external_type_specification]
#[verifier::external_body]
pub struct ExTokenError(jsonwebtoken::errors::Error);

/// The members of a JSON object whose value is a string, by their key. A
/// value that is no object has none.
pub uninterp spec fn json_texts(value: serde_json::Value) -> Map<Seq<char>, Seq<char>>;

/// The members of a JSON object whose value is an integer that fits 64 bits
/// with a sign, by their key. A value that is no object has none.
pub uninterp spec fn json_integers(value: serde_json::Value) -> Map<Seq<char>, int>;

/// `Value::get` followed by `Value::as_str`: the string under `key`, where
/// `value` is an object that has a string there.
#[verifier::external_body]
pub(crate) fn json_text(value: &serde_json::Value, key: &str) -> (text: Option<String>)
    ensures
        text is Some == json_texts(*value).contains_key(key@),
        text matches Some(t) ==> json_texts(*value)[key@] == t@,
{
    value.get(key).and_then(serde_json::Value::as_str).map(str::to_string)
}

/// `Value::get` followed by `Value::as_i64`: the integer under `key`, where
/// `value` is an object that has one there which fits an `i64`.
#[verifier::external_body]
pub(crate) fn json_integer(value: &serde_json::Value, key: &str) -> (number: Option<i64>)
    ensures
        number is Some == json_integers(*value).contains_key(key@),
        number matches Some(n) ==> json_integers(*value)[key@] == n,
{
    value.get(key).and_then(serde_json::Value::as_i64)
}

/// The token that `jsonwebtoken` issues under `secret` with HMAC-SHA256 for
/// claims of four members, two strings and then two integers, each given as
/// its key and its value; `None` where the crate reports an error.
pub uninterp spec fn hs256_token(
    first: (Seq<char>, Seq<char>),
    second: (Seq<char>, Seq<char>),
    third: (Seq<char>, int),
    fourth: (Seq<char>, int),
    secret: Seq<char>,
) -> Option<Seq<char>>;

/// Whether `token`, signed under `secret`, reads back as the claims that it
/// was made of. This is said only of the claims `sub`, `email`, `exp` and
/// `iat` with an expiry that is not negative.
pub open spec fn reads_back(
    first: (Seq<char>, Seq<char>),
    second: (Seq<char>, Seq<char>),
    third: (Seq<char>, int),
    fourth: (Seq<char>, int),
    secret: Seq<char>,
    token: Seq<char>,
) -> bool {
    first.0 == "sub"@ && second.0 == "email"@ && third.0 == "exp"@ && fourth.0 == "iat"@
        && third.1 >= 0 ==> token_reading(token, secret) == Ok::<
        (Map<Seq<char>, Seq<char>>, Map<Seq<char>, int>),
        TokenFault,
    >(
        (
            Map::<Seq<char>, Seq<char>>::empty().insert("sub"@, first.1).insert("email"@, second.1),
            Map::<Seq<char>, int>::empty().insert("exp"@, third.1).insert("iat"@, fourth.1),
        ),
    )
}

/// `jsonwebtoken::encode` with the default header, which names HS256, on
/// a JSON object of the four members in their order and a key made by
/// `EncodingKey::from_secret`. The token depends on the arguments alone, so
/// that it can be called [`hs256_token`].
///
/// One more thing is claimed, of the claims `sub`, `email`, `exp` and `iat`
/// with an expiry that is not negative: apart from the clock, decoding accepts
/// the token under the same secret and reads these four claims from it. The
/// sources show it step by step. The token is the header, the claims and the
/// signature, each in base64 and joined by dots, so it splits into the same
/// three parts; the header names HS256; the signature is compared with the one
/// that is made again from the same message and key; the claims are parsed
/// from the JSON that was written, in which strings and integers come back as
/// they went in; and the expiry that is asked for is there as a number that is
/// not negative.
#[verifier::external_body]
pub(crate) fn sign_claims(
    first: (&str, &str),
    second: (&str, &str),
    third: (&str, i64),
    fourth: (&str, i64),
    secret: &str,
) -> (token: Option<String>)
    ensures
        token is Some == hs256_token(
            (first.0@, first.1@),
            (second.0@, second.1@),
            (third.0@, third.1 as int),
            (fourth.0@, fourth.1 as int),
            secret@,
        ) is Some,
        token matches Some(t) ==> hs256_token(
            (first.0@, first.1@),
            (second.0@, second.1@),
            (third.0@, third.1 as int),
            (fourth.0@, fourth.1 as int),
            secret@,
        ) == Some(t@),
        token matches Some(t) ==> reads_back(
            (first.0@, first.1@),
            (second.0@, second.1@),
            (third.0@, third.1 as int),
            (fourth.0@, fourth.1 as int),
            secret@,
            t@,
        ),
{
    let mut claims = serde_json::Map::new();
    claims.insert(first.0.to_string(), serde_json::Value::from(first.1));
    claims.insert(second.0.to_string(), serde_json::Value::from(second.1));
    claims.insert(third.0.to_string(), serde_json::Value::from(third.1));
    claims.insert(fourth.0.to_string(), serde_json::Value::from(fourth.1));
    let key = jsonwebtoken::EncodingKey::from_secret(secret.as_bytes());
    jsonwebtoken::encode(&jsonwebtoken::Header::default(), &claims, &key).ok()
}

/// The kind that `Error::kind` of `jsonwebtoken` reports for `error`.
pub uninterp spec fn token_fault(error: jsonwebtoken::errors::Error) -> TokenFault;

/// `Error::kind` of `jsonwebtoken`, handed out as the library's enum of the
/// same kinds, one for one; the kinds that decoding with a secret cannot give
/// are one. What a kind means for the guard is decided elsewhere.
#[verifier::external_body]
pub(crate) fn fault_of(error: &jsonwebtoken::errors::Error) -> (fault: TokenFault)
    ensures
        fault == token_fault(*error),
{
    match error.kind() {
        jsonwebtoken::errors::ErrorKind::InvalidToken => TokenFault::InvalidToken,
        jsonwebtoken::errors::ErrorKind::InvalidSignature => TokenFault::InvalidSignature,
        jsonwebtoken::errors::ErrorKind::InvalidAlgorithm => TokenFault::InvalidAlgorithm,
        jsonwebtoken::errors::ErrorKind::MissingRequiredClaim(_) => {
            TokenFault::MissingRequiredClaim
        },
        jsonwebtoken::errors::ErrorKind::ExpiredSignature => TokenFault::ExpiredSignature,
        jsonwebtoken::errors::ErrorKind::Base64(_) => TokenFault::Base64,
        jsonwebtoken::errors::ErrorKind::Json(_) => TokenFault::Json,
        jsonwebtoken::errors::ErrorKind::Utf8(_) => TokenFault::Utf8,
        _ => TokenFault::Other,
    }
}

/// What `jsonwebtoken::decode` makes of `token` for `secret` apart from the
/// clock: the string members and the integer members of the claims, as
/// [`json_texts`] and [`json_integers`] read them, where the form of the token
/// and its HS256 signature under `secret` are accepted and the claims hold an
/// expiry; the kind of the error where they are not.
pub uninterp spec fn token_reading(token: Seq<char>, secret: Seq<char>) -> Result<
    (Map<Seq<char>, Seq<char>>, Map<Seq<char>, int>),
    TokenFault,
>;

/// `jsonwebtoken::decode` with `Validation::new(Algorithm::HS256)` and a
/// key made by `DecodingKey::from_secret`: the claims of `token` as a JSON
/// value, or the crate's error.
///
/// The source checks the form of the token, its algorithm and its signature
/// under the key and reads the claims from the payload. Then it validates
/// them: it reads the clock, asks for an expiry among the claims, and compares
/// the expiry with the clock. Nothing but that comparison uses the clock. So
/// the clock decides between the claims and an expired signature, and nothing
/// else: whatever else comes back depends on the two texts alone and is called
/// [`token_reading`]. Whether a token has expired is not claimed.
#[verifier::external_body]
pub(crate) fn decode_token(token: &str, secret: &str) -> (outcome: Result<
    serde_json::Value,
    jsonwebtoken::errors::Error,
>)
    ensures
        match outcome {
            Ok(payload) => token_reading(token@, secret@) == Ok::<_, TokenFault>(
                (json_texts(payload), json_integers(payload)),
            ),
            Err(error) => if token_fault(error) == TokenFault::ExpiredSignature {
                token_reading(token@, secret@) is Ok
            } else {
                token_reading(token@, secret@) == Err::<
                    (Map<Seq<char>, Seq<char>>, Map<Seq<char>, int>),
                    TokenFault,
                >(token_fault(error))
            },
        },
{
    let key = jsonwebtoken::DecodingKey::from_secret(secret.as_bytes());
    let validation = jsonwebtoken::Validation::new(jsonwebtoken::Algorithm::HS256);
    jsonwebtoken::decode::<serde_json::Value>(token, &key, &validation).map(|data| data.claims)
}

/// The bytes that `text` writes in standard base64 with padding, as the
/// `base64` crate decodes it; `None` where the crate reports an error.
pub uninterp spec fn base64_decoded(text: Seq<char>) -> Option<Seq<u8>>;

/// `base64::decode`, which decodes with the standard alphabet and padding.
/// The claim is only that the outcome depends on the text alone, so that it
/// can be called [`base64_decoded`]; `None` stands for the crate's error.
#[verifier::external_body]
pub(crate) fn base64_decode(text: &str) -> (bytes: Option<Vec<u8>>)
    ensures
        bytes is Some == base64_decoded(text@) is Some,
        bytes matches Some(b) ==> base64_decoded(text@) == Some(b@),
{
    base64::decode(text).ok()
}

/// `String::from_utf8`: the text that `bytes` encode in UTF-8, where they
/// encode one; `None` stands for the error that it returns otherwise.
#[verifier::external_body]
pub(crate) fn utf8_text(bytes: Vec<u8>) -> (text: Option<String>)
    ensures
        text is Some == valid_utf8(bytes@),
        text matches Some(t) ==> t@ == decode_utf8(bytes@),
{
    String::from_utf8(bytes).ok()
}

} // verus!
