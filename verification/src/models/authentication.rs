//! Credentials and bearer tokens.

use crate::adapters::{
    bcrypt_verify, clock_time, decode_token, fault_of, hash_opens, hs256_token, json_integer,
    json_integers, json_text, json_texts, now, plain_hash, sign_claims, token_reading,
};
use crate::error::{AuthError, SettingsError, StoreError, TokenFault};
use crate::models::user::{live_user_with_email, User, UserRow};
use crate::rows::find_last;
use crate::schema::Database;
use crate::text::{chars_of, decimal_i64, parse_i64};
use vstd::prelude::*;
use vstd::string::*;

verus! {

/// The credentials that a user logs in with.
#[derive(Debug, Clone, PartialEq, Eq)]
pub struct AuthUser {
    pub email: String,
    pub password: String,
}

/// What a bearer token states: whose it is, when it was issued and when it
/// expires, the times in seconds of the Unix epoch.
#[derive(Debug, Clone, PartialEq, Eq)]
pub struct Claims {
    pub sub: String,
    pub email: String,
    pub exp: i64,
    pub iat: i64,
}

/// The secret that signs tokens and the lifetime of a token in seconds.
#[derive(Debug, Clone, PartialEq, Eq)]
pub struct TokenSettings {
    pub secret: String,
    pub lifetime: i64,
}

/// The lifetime of a token where none is configured.
pub const DEFAULT_LIFETIME: i64 = 300;

impl TokenSettings {
    /// The settings that two configuration variables give, or why they give
    /// none. The secret must be set and not empty. The lifetime is written in
    /// decimal, and is 300 seconds where it is not set.
    pub open spec fn read(secret: Option<String>, lifetime: Option<String>) -> Result<
        (Seq<char>, i64),
        SettingsError,
    > {
        match secret {
            Some(text) if text@.len() > 0 => match lifetime {
                Some(number) => match decimal_i64(number@) {
                    Some(seconds) => Ok((text@, seconds)),
                    None => Err(SettingsError::InvalidLifetime),
                },
                None => Ok((text@, DEFAULT_LIFETIME)),
            },
            _ => Err(SettingsError::MissingSecret),
        }
    }

    /// Makes the settings from two configuration variables: see
    /// [`TokenSettings::read`]. A process that gets an error here has no secret
    /// to sign with and is not to start.
    pub fn from_variables(secret: Option<String>, lifetime: Option<String>) -> (r: Result<
        TokenSettings,
        SettingsError,
    >)
        ensures
            match TokenSettings::read(secret, lifetime) {
                Ok((text, seconds)) => r matches Ok(s) && s.secret@ == text && s.lifetime
                    == seconds,
                Err(error) => r == Err::<TokenSettings, SettingsError>(error),
            },
    {
        let secret = match secret {
            Some(text) => text,
            None => {
                return Err(SettingsError::MissingSecret);
            },
        };
        if secret.as_str().unicode_len() == 0 {
            return Err(SettingsError::MissingSecret);
        }
        let lifetime = match lifetime {
            Some(text) => match parse_i64(text.as_str()) {
                Some(seconds) => seconds,
                None => {
                    return Err(SettingsError::InvalidLifetime);
                },
            },
            None => DEFAULT_LIFETIME,
        };
        Ok(TokenSettings { secret, lifetime })
    }
}

/// The claims of a token issued to `user` at second `now` for `lifetime`
/// seconds, where its expiry fits 64 bits.
pub open spec fn claims_at(user: UserRow, lifetime: int, now: int) -> Option<
    (Seq<char>, Seq<char>, int, int),
> {
    if i64::MIN <= now + lifetime <= i64::MAX {
        Some((user.id, user.email, now + lifetime, now))
    } else {
        None
    }
}

/// The token issued to `user` at second `now`: the signed claims of
/// [`claims_at`], and the empty text where there are none or they cannot be
/// signed.
pub open spec fn token_at(user: UserRow, secret: Seq<char>, lifetime: int, now: int) -> Seq<
    char,
> {
    match claims_at(user, lifetime, now) {
        Some((sub, email, exp, iat)) => match hs256_token(
            ("sub"@, sub),
            ("email"@, email),
            ("exp"@, exp),
            ("iat"@, iat),
            secret,
        ) {
            Some(token) => token,
            None => Seq::empty(),
        },
        None => Seq::empty(),
    }
}

impl Claims {
    /// The claims of a token issued to `user` at second `now` for `lifetime`
    /// seconds: see [`claims_at`].
    pub fn issue(user: &User, lifetime: i64, now: i64) -> (r: Option<Claims>)
        ensures
            match claims_at(user@, lifetime as int, now as int) {
                Some((sub, email, exp, iat)) => r matches Some(c) && c.sub@ == sub && c.email@
                    == email && c.exp == exp && c.iat == iat,
                None => r is None,
            },
    {
        match now.checked_add(lifetime) {
            Some(exp) => Some(
                Claims { sub: user.id.clone(), email: user.email.clone(), exp, iat: now },
            ),
            None => None,
        }
    }

    /// Whether `payload` holds the four claims, each of its kind.
    pub open spec fn readable(payload: serde_json::Value) -> bool {
        holds_claims(json_texts(payload), json_integers(payload))
    }

    /// Reads the four claims from the payload of a token; `None` where one is
    /// missing or of another kind.
    pub fn from_payload(payload: &serde_json::Value) -> (r: Option<Claims>)
        ensures
            r is Some == Claims::readable(*payload),
            r matches Some(c) ==> {
                &&& c.sub@ == json_texts(*payload)["sub"@]
                &&& c.email@ == json_texts(*payload)["email"@]
                &&& c.exp == json_integers(*payload)["exp"@]
                &&& c.iat == json_integers(*payload)["iat"@]
            },
    {
        let sub = json_text(payload, "sub");
        let email = json_text(payload, "email");
        let exp = json_integer(payload, "exp");
        let iat = json_integer(payload, "iat");
        match (sub, email, exp, iat) {
            (Some(sub), Some(email), Some(exp), Some(iat)) => Some(Claims { sub, email, exp, iat }),
            _ => None,
        }
    }
}

/// Whether claims of `user` are signed at second `now`: there are claims,
/// their expiry is not negative, and the signing gives a token.
pub open spec fn signed_at(user: UserRow, secret: Seq<char>, lifetime: int, now: int) -> bool {
    match claims_at(user, lifetime, now) {
        Some((sub, email, exp, iat)) => exp >= 0 && hs256_token(
            ("sub"@, sub),
            ("email"@, email),
            ("exp"@, exp),
            ("iat"@, iat),
            secret,
        ) is Some,
        None => false,
    }
}

/// The members of the claims of a token issued to `user` at second `now` for
/// `lifetime` seconds: the strings by their key, and the integers.
pub open spec fn members_at(user: UserRow, lifetime: int, now: int) -> (
    Map<Seq<char>, Seq<char>>,
    Map<Seq<char>, int>,
) {
    (
        Map::<Seq<char>, Seq<char>>::empty().insert("sub"@, user.id).insert("email"@, user.email),
        Map::<Seq<char>, int>::empty().insert("exp"@, now + lifetime).insert("iat"@, now),
    )
}

/// Whether `token` is the one issued to `user` at second `now`: it is the
/// token of [`token_at`], and where the claims were signed it reads back as
/// those claims under the same secret.
pub open spec fn issued_at(
    user: UserRow,
    secret: Seq<char>,
    lifetime: int,
    now: int,
    token: Seq<char>,
) -> bool {
    &&& token == token_at(user, secret, lifetime, now)
    &&& signed_at(user, secret, lifetime, now) ==> token_reading(token, secret) == Ok::<
        _,
        TokenFault,
    >(members_at(user, lifetime, now))
}

/// Whether `token` is one that is issued to `user` now: the token of
/// [`issued_at`] for some second that the clock can show.
pub open spec fn issued_now(
    user: UserRow,
    secret: Seq<char>,
    lifetime: int,
    token: Seq<char>,
) -> bool {
    exists|now: i64|
        clock_time(now) && #[trigger] issued_at(user, secret, lifetime, now as int, token)
}

/// Issues a token to `user`, valid from now for the configured lifetime and
/// signed with the configured secret. The result is the empty text where no
/// token can be made.
pub fn generate(user: &User, settings: &TokenSettings) -> (token: String)
    ensures
        issued_now(user@, settings.secret@, settings.lifetime as int, token@),
{
    let now = now();
    let token = generate_at(user, settings, now);
    assert(issued_at(user@, settings.secret@, settings.lifetime as int, now as int, token@));
    token
}

/// Issues a token to `user` as [`generate`] does, at second `now`.
pub fn generate_at(user: &User, settings: &TokenSettings, now: i64) -> (token: String)
    ensures
        issued_at(user@, settings.secret@, settings.lifetime as int, now as int, token@),
{
    match Claims::issue(user, settings.lifetime, now) {
        Some(claims) => {
            let signed = sign_claims(
                ("sub", claims.sub.as_str()),
                ("email", claims.email.as_str()),
                ("exp", claims.exp),
                ("iat", claims.iat),
                settings.secret.as_str(),
            );
            match signed {
                Some(token) => token,
                None => String::new(),
            }
        },
        None => String::new(),
    }
}

/// The user that the payload of a token names, or the reason why it names
/// none.
pub fn claimed_identity(payload: &serde_json::Value) -> (r: Result<User, AuthError>)
    ensures
        if Claims::readable(*payload) {
            r matches Ok(u) && u@ == named_user(json_texts(*payload))
        } else {
            r == Err::<User, AuthError>(AuthError::Malformed)
        },
{
    match Claims::from_payload(payload) {
        Some(claims) => Ok(User::from_jwt(&claims)),
        None => Err(AuthError::Malformed),
    }
}

/// What a kind of refusal means for whoever shows a token: a wrong signature
/// and a past expiry are told apart, every other kind is a malformed token.
pub open spec fn refusal_of(fault: TokenFault) -> AuthError {
    match fault {
        TokenFault::InvalidSignature => AuthError::InvalidSignature,
        TokenFault::ExpiredSignature => AuthError::Expired,
        _ => AuthError::Malformed,
    }
}

/// Sorts a kind of refusal: see [`refusal_of`].
pub fn refusal(fault: TokenFault) -> (error: AuthError)
    ensures
        error == refusal_of(fault),
{
    match fault {
        TokenFault::InvalidSignature => AuthError::InvalidSignature,
        TokenFault::ExpiredSignature => AuthError::Expired,
        _ => AuthError::Malformed,
    }
}

/// Whether `texts` and `integers` hold the four claims of a user, each of
/// its kind: `sub` and `email` are strings, `exp` and `iat` are integers.
pub open spec fn holds_claims(
    texts: Map<Seq<char>, Seq<char>>,
    integers: Map<Seq<char>, int>,
) -> bool {
    &&& texts.contains_key("sub"@)
    &&& texts.contains_key("email"@)
    &&& integers.contains_key("exp"@)
    &&& integers.contains_key("iat"@)
}

/// The user that claims name: `sub` is the identifier, `email` the address.
/// The record is made from the claims alone: it carries no password and is
/// not deleted.
pub open spec fn named_user(texts: Map<Seq<char>, Seq<char>>) -> UserRow {
    UserRow {
        id: texts["sub"@],
        email: texts["email"@],
        password: Seq::empty(),
        is_deleted: false,
    }
}

/// Whether `token` carries the claims of a user for whoever holds `secret`.
pub open spec fn names_a_user(token: Seq<char>, secret: Seq<char>) -> bool {
    match token_reading(token, secret) {
        Ok((texts, integers)) => holds_claims(texts, integers),
        Err(_) => false,
    }
}

/// Whether `user` is the one that the claims of `token` name for whoever
/// holds `secret`.
pub open spec fn token_names(token: Seq<char>, secret: Seq<char>, user: UserRow) -> bool {
    match token_reading(token, secret) {
        Ok((texts, integers)) => holds_claims(texts, integers) && user == named_user(texts),
        Err(_) => false,
    }
}

/// Whether `r` is an answer to `token` for whoever holds `secret`.
///
/// A token whose form or signature is not accepted is refused for that
/// reason, sorted by [`refusal_of`]. One that is accepted is refused as
/// expired where the clock says so. Otherwise it gives the user that its
/// claims name, and is malformed where they are not the claims of a user.
pub open spec fn verify_answer(
    token: Seq<char>,
    secret: Seq<char>,
    r: Result<User, AuthError>,
) -> bool {
    match token_reading(token, secret) {
        Ok((texts, integers)) => {
            ||| r == Err::<User, AuthError>(AuthError::Expired)
            ||| if holds_claims(texts, integers) {
                r matches Ok(u) && u@ == named_user(texts)
            } else {
                r == Err::<User, AuthError>(AuthError::Malformed)
            }
        },
        Err(fault) => r == Err::<User, AuthError>(refusal_of(fault)),
    }
}

/// Checks the signature and the expiry of `token` and returns the user that
/// it names. The user is taken from the token as it stands: the store is not
/// asked, so the record carries no password and is not deleted.
///
/// Only the clock is left open: see [`verify_answer`].
pub fn verify(token: String, settings: &TokenSettings) -> (r: Result<User, AuthError>)
    ensures
        verify_answer(token@, settings.secret@, r),
        r matches Ok(u) ==> token_names(token@, settings.secret@, u@),
        !names_a_user(token@, settings.secret@) ==> r is Err,
{
    match decode_token(token.as_str(), settings.secret.as_str()) {
        Ok(payload) => claimed_identity(&payload),
        Err(error) => Err(refusal(fault_of(&error))),
    }
}

/// Whether a hash can be shown to the hashing crate: see [`plain_hash`].
pub fn is_plain_hash(hash: &str) -> (plain: bool)
    ensures
        plain == plain_hash(hash@),
{
    let chars = chars_of(hash);
    let n = chars.len();
    let mut i: usize = 0;
    while i < n
        invariant
            n == chars@.len(),
            chars@ == hash@,
            i <= n,
            forall|j: int| 0 <= j < i ==> 0x20 <= (#[trigger] chars@[j]) as u32 <= 0x7f,
        decreases n - i,
    {
        let code: u32 = chars[i] as u32;
        if code < 0x20 || code > 0x7f {
            return false;
        }
        i += 1;
    }
    true
}

impl AuthUser {
    /// Whether `password` is the one whose hash `user` holds. A stored text
    /// that cannot be a hash opens nothing.
    pub fn verify(password: String, user: &User) -> (r: Result<(), StoreError>)
        ensures
            r == if hash_opens(password@, user.password@) {
                Ok::<(), StoreError>(())
            } else {
                Err::<(), StoreError>(StoreError::NotFound)
            },
    {
        if is_plain_hash(user.password.as_str()) && bcrypt_verify(
            password.as_str(),
            user.password.as_str(),
        ) {
            Ok(())
        } else {
            Err(StoreError::NotFound)
        }
    }

    /// The account that `email` and `password` open: the one registered last
    /// under `email` among those not deleted.
    pub open spec fn opened(users: Seq<UserRow>, email: Seq<char>, password: Seq<char>) -> Option<
        UserRow,
    > {
        match find_last(users, live_user_with_email(email)) {
            Some(row) => if hash_opens(password, row.password) {
                Some(row)
            } else {
                None
            },
            None => None,
        }
    }

    /// Logs a user in: returns the account that `email` and `password` open
    /// together with a token issued to it now, and reports that nothing was
    /// found where they open none.
    pub fn authenticate(db: &Database, email: &str, password: &str, settings: &TokenSettings) -> (r:
        Result<(User, String), StoreError>)
        ensures
            match AuthUser::opened(db@.users, email@, password@) {
                Some(row) => r matches Ok((user, token)) && user@ == row && issued_now(
                    row,
                    settings.secret@,
                    settings.lifetime as int,
                    token@,
                ),
                None => r == Err::<(User, String), StoreError>(StoreError::NotFound),
            },
    {
        let user = match User::get_by_email(db, &String::from_str(email)) {
            Ok(user) => user,
            Err(err) => {
                return Err(err);
            },
        };
        match AuthUser::verify(String::from_str(password), &user) {
            Ok(_) => (),
            Err(err) => {
                return Err(err);
            },
        };
        let token = user.generate_jwt(settings);
        Ok((user, token))
    }
}

/// The round trip of a token: one that was issued to a user and signed is
/// answered, under the same secret, with that user or as expired, never with
/// another user and never for another reason. Which of the two it is the clock
/// decides.
pub proof fn lemma_issued_token_names_its_user(
    user: UserRow,
    secret: Seq<char>,
    lifetime: int,
    now: int,
    token: Seq<char>,
    r: Result<User, AuthError>,
)
    requires
        issued_at(user, secret, lifetime, now, token),
        signed_at(user, secret, lifetime, now),
        verify_answer(token, secret, r),
    ensures
        r == Err::<User, AuthError>(AuthError::Expired) || (r matches Ok(named) && named@ == (
            UserRow { id: user.id, email: user.email, password: Seq::empty(), is_deleted: false }
        )),
{
    reveal_strlit("sub");
    reveal_strlit("email");
    reveal_strlit("exp");
    reveal_strlit("iat");
    let members = members_at(user, lifetime, now);
    assert(members.0.contains_key("sub"@) && members.0.contains_key("email"@));
    assert(members.1.contains_key("exp"@) && members.1.contains_key("iat"@));
    assert("sub"@ != "email"@) by {
        assert("sub"@.len() == 3 && "email"@.len() == 5);
    }
    assert(members.0["sub"@] == user.id);
    assert(members.0["email"@] == user.email);
}

} // verus!
