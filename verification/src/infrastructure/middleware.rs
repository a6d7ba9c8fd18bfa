//! The guard in front of the protected routes. It reads the `Authorization`
//! header of a request, checks a bearer token or a pair of basic credentials,
//! and either attaches the user to the request or rejects it.

use crate::adapters::{base64_decode, base64_decoded, hash_opens, utf8_text};
use crate::error::AuthError;
use crate::models::authentication::{verify, verify_answer, AuthUser, TokenSettings};
use crate::models::user::{live_user_with_email, User, UserRow};
use crate::rows::lemma_last_where;
use crate::schema::{Database, Tables};
use crate::text::{
    chars_of, first_field, first_two_fields, first_word, lemma_fields_of_pair, read_word,
    second_field, second_word,
};
use vstd::prelude::*;
use vstd::string::*;
use vstd::utf8::{decode_utf8, valid_utf8};

verus! {

/// What a request carries under `Authorization`.
#[derive(Debug, Clone, PartialEq, Eq)]
pub enum AuthorizationHeader {
    /// The request has no such header.
    Missing,
    /// The header holds bytes that are no visible text.
    Unreadable,
    /// The header's text.
    Value(String),
}

/// A request as the guard sees it: its `Authorization` header and the user
/// that the guard attached, if it did.
#[derive(Debug, Clone, PartialEq, Eq)]
pub struct Request {
    pub authorization: AuthorizationHeader,
    pub identity: Option<User>,
}

/// Why the guard rejects a request. This is for the operator's log: the
/// reply tells less.
#[derive(Debug, Clone, Copy, PartialEq, Eq, Structural)]
pub enum Cause {
    /// The request has no `Authorization` header.
    NoHeader,
    /// The header is no text.
    UnreadableHeader,
    /// The header names another scheme than `Bearer` and `Basic`, or none.
    UnknownScheme,
    /// The token was refused, for this reason.
    Token(AuthError),
    /// The basic credential is not base64.
    NotBase64,
    /// The basic credential is base64 for bytes that are no text.
    NotText,
    /// No account is opened by the address and the password.
    Credentials,
}

/// A rejection: what the reply says, and the cause for the log.
#[derive(Debug, Clone, PartialEq, Eq)]
pub struct Rejection {
    pub message: String,
    pub cause: Cause,
}

/// What the guard does with a request.
#[derive(Debug, Clone, PartialEq, Eq)]
pub enum Admission {
    /// The request goes on to its handler, with the user attached.
    Forward,
    /// The request is answered at the guard with `status` and `body`; `cause`
    /// is for the log.
    Reject { status: u16, body: String, cause: Cause },
}

/// The status of every rejection at the guard.
pub const UNAUTHORIZED: u16 = 401;

/// `row` without its password hash.
pub open spec fn scrubbed(row: UserRow) -> UserRow {
    UserRow { password: Seq::empty(), ..row }
}

/// The address and the password that a basic credential holds, or the
/// reason why it holds none. The credential is base64 for `address:password`;
/// where the text holds no colon the password is empty, and what follows a
/// second colon is dropped.
pub open spec fn basic_credentials(data: Seq<char>) -> Result<
    (Seq<char>, Seq<char>),
    (Seq<char>, Cause),
> {
    match base64_decoded(data) {
        Some(bytes) => if valid_utf8(bytes) {
            let text = decode_utf8(bytes);
            Ok(
                (
                    first_field(text),
                    match second_field(text) {
                        Some(password) => password,
                        None => Seq::empty(),
                    },
                ),
            )
        } else {
            Err(("Could not parse the authentication header"@, Cause::NotText))
        },
        None => Err(("Could not decode base64 header"@, Cause::NotBase64)),
    }
}

/// What the guard answers to a basic credential.
pub open spec fn basic_outcome(data: Seq<char>, users: Seq<UserRow>) -> Result<
    UserRow,
    (Seq<char>, Cause),
> {
    match basic_credentials(data) {
        Ok((email, password)) => match AuthUser::opened(users, email, password) {
            Some(row) => Ok(scrubbed(row)),
            None => Err(("Invalid credentials for basic auth"@, Cause::Credentials)),
        },
        Err(reason) => Err(reason),
    }
}

/// Whether `r` is what `expected` describes.
pub open spec fn answers(
    r: Result<User, Rejection>,
    expected: Result<UserRow, (Seq<char>, Cause)>,
) -> bool {
    match expected {
        Ok(row) => r matches Ok(user) && user@ == row,
        Err((reason, cause)) => r matches Err(said) && said.message@ == reason && said.cause
            == cause,
    }
}

/// A rejection with the message `message`.
fn reject(message: &str, cause: Cause) -> (r: Rejection)
    ensures
        r.message@ == message@,
        r.cause == cause,
{
    Rejection { message: String::from_str(message), cause }
}

/// The scheme that a header names, and the credential behind it: its first
/// two words. The credential is empty where the header has one word only.
pub open spec fn scheme_and_credential(header: Seq<char>) -> Option<(Seq<char>, Seq<char>)> {
    match first_word(header) {
        Some(scheme) => Some(
            (
                scheme,
                match second_word(header) {
                    Some(credential) => credential,
                    None => Seq::empty(),
                },
            ),
        ),
        None => None,
    }
}

/// Splits a header into scheme and credential: see
/// [`scheme_and_credential`].
pub fn split_header(header: &str) -> (r: Option<(String, String)>)
    ensures
        match scheme_and_credential(header@) {
            Some((scheme, credential)) => r matches Some((s, c)) && s@ == scheme && c@
                == credential,
            None => r is None,
        },
{
    let chars = chars_of(header);
    let (scheme, end) = read_word(header, &chars, 0);
    match scheme {
        Some(scheme) => {
            let (credential, _) = read_word(header, &chars, end);
            match credential {
                Some(credential) => Some((scheme, credential)),
                None => Some((scheme, String::new())),
            }
        },
        None => None,
    }
}

/// What a checked token means for the guard: the user that it names, or one
/// message for every reason of failure, with the reason as the cause.
pub fn bearer_outcome(checked: Result<User, AuthError>) -> (r: Result<User, Rejection>)
    ensures
        match checked {
            Ok(user) => r matches Ok(u) && u@ == user@,
            Err(reason) => answers(
                r,
                Err(("Something wrong with the signature"@, Cause::Token(reason))),
            ),
        },
{
    match checked {
        Ok(user) => Ok(user),
        Err(reason) => Err(reject("Something wrong with the signature", Cause::Token(reason))),
    }
}

/// Admits the bearer of a token that [`verify`] accepts. The user is the one
/// that the claims of the token name for the configured secret; the store is
/// not asked. Every token that is refused gets the same message.
pub fn bearer_auth(data: &str, settings: &TokenSettings) -> (r: Result<User, Rejection>)
    ensures
        bearer_answer(data@, settings.secret@, r),
{
    bearer_outcome(verify(String::from_str(data), settings))
}

/// Admits the user whose address and password a basic credential holds: see
/// [`basic_outcome`]. The record comes back without its password hash.
pub fn basic_auth(data: &str, db: &Database, settings: &TokenSettings) -> (r: Result<
    User,
    Rejection,
>)
    ensures
        answers(r, basic_outcome(data@, db@.users)),
{
    let bytes = match base64_decode(data) {
        Some(bytes) => bytes,
        None => {
            return Err(reject("Could not decode base64 header", Cause::NotBase64));
        },
    };
    let decoded = match utf8_text(bytes) {
        Some(text) => text,
        None => {
            return Err(reject("Could not parse the authentication header", Cause::NotText));
        },
    };
    let (email, password) = first_two_fields(decoded.as_str());
    let password = match password {
        Some(password) => password,
        None => String::new(),
    };
    match AuthUser::authenticate(db, email.as_str(), password.as_str(), settings) {
        Ok((user, _)) => Ok(
            User {
                id: user.id,
                email: user.email,
                password: String::new(),
                is_deleted: user.is_deleted,
            },
        ),
        Err(_) => Err(reject("Invalid credentials for basic auth", Cause::Credentials)),
    }
}

/// Whether `r` is an answer that the guard may give to the bearer of
/// `token`, tokens being signed with `secret`: what [`verify_answer`] allows
/// for the token. Whoever is let in is the user that the claims of the token
/// name. Every rejection gives the same message; its cause is the reason of
/// the refusal.
pub open spec fn bearer_answer(
    token: Seq<char>,
    secret: Seq<char>,
    r: Result<User, Rejection>,
) -> bool {
    match r {
        Ok(user) => verify_answer(token, secret, Ok(user)),
        Err(said) => {
            &&& said.message@ == "Something wrong with the signature"@
            &&& said.cause matches Cause::Token(reason)
            &&& verify_answer(token, secret, Err(reason))
        },
    }
}

/// Whether `r` is an answer that the guard may give to a request with this
/// header, the store holding `users` and tokens being signed with `secret`.
///
/// A request without the header, or with one that is no text, is rejected.
/// Otherwise the first word of the header names the scheme: `Bearer` is
/// followed by a token, which is answered as [`bearer_answer`] says, `Basic`
/// by a credential, which is answered as [`basic_outcome`] says, and any
/// other scheme is rejected.
pub open spec fn guard_answer(
    header: AuthorizationHeader,
    users: Seq<UserRow>,
    secret: Seq<char>,
    r: Result<User, Rejection>,
) -> bool {
    match header {
        AuthorizationHeader::Missing => answers(
            r,
            Err(("Couldn't retrieve header"@, Cause::NoHeader)),
        ),
        AuthorizationHeader::Unreadable => answers(
            r,
            Err(("Couldn't parse the header"@, Cause::UnreadableHeader)),
        ),
        AuthorizationHeader::Value(text) => match scheme_and_credential(text@) {
            Some((scheme, credential)) => if scheme == "Bearer"@ {
                bearer_answer(credential, secret, r)
            } else if scheme == "Basic"@ {
                answers(r, basic_outcome(credential, users))
            } else {
                answers(r, Err(("Not valid authentication method"@, Cause::UnknownScheme)))
            },
            None => answers(r, Err(("Not valid authentication method"@, Cause::UnknownScheme))),
        },
    }
}

/// Decides whether a request with this `Authorization` header is let in: see
/// [`guard_answer`].
pub fn is_logged(header: &AuthorizationHeader, db: &Database, settings: &TokenSettings) -> (r:
    Result<User, Rejection>)
    ensures
        guard_answer(*header, db@.users, settings.secret@, r),
{
    let text = match header {
        AuthorizationHeader::Missing => {
            return Err(reject("Couldn't retrieve header", Cause::NoHeader));
        },
        AuthorizationHeader::Unreadable => {
            return Err(reject("Couldn't parse the header", Cause::UnreadableHeader));
        },
        AuthorizationHeader::Value(text) => text,
    };
    match split_header(text.as_str()) {
        Some((scheme, credential)) => {
            if scheme == String::from_str("Bearer") {
                bearer_auth(credential.as_str(), settings)
            } else if scheme == String::from_str("Basic") {
                basic_auth(credential.as_str(), db, settings)
            } else {
                Err(reject("Not valid authentication method", Cause::UnknownScheme))
            }
        },
        None => Err(reject("Not valid authentication method", Cause::UnknownScheme)),
    }
}

/// The guard, before it is put in front of a service.
#[derive(Debug, Clone, Copy, PartialEq, Eq)]
pub struct LoggedGuard;

/// The guard in front of the service `service`.
pub struct LoggedGuardMiddleware<S> {
    pub service: S,
}

impl LoggedGuard {
    /// Puts the guard in front of `service`.
    pub fn new_transform<S>(&self, service: S) -> (guard: LoggedGuardMiddleware<S>)
        ensures
            guard.service == service,
    {
        LoggedGuardMiddleware { service }
    }
}

impl<S> LoggedGuardMiddleware<S> {
    /// Passes a request through the guard. Where [`is_logged`] lets it in, the
    /// user is attached to the request, which goes on to the service; where it
    /// does not, the request stays as it is and is answered with status 401
    /// and the message; the cause goes along for the log.
    pub fn call(&self, req: &mut Request, db: &Database, settings: &TokenSettings) -> (r: Admission)
        ensures
            final(req).authorization == old(req).authorization,
            match r {
                Admission::Forward => final(req).identity matches Some(user) && guard_answer(
                    old(req).authorization,
                    db@.users,
                    settings.secret@,
                    Ok(user),
                ),
                Admission::Reject { status, body, cause } => {
                    &&& status == UNAUTHORIZED
                    &&& final(req).identity == old(req).identity
                    &&& guard_answer(
                        old(req).authorization,
                        db@.users,
                        settings.secret@,
                        Err(Rejection { message: body, cause }),
                    )
                },
            },
    {
        match is_logged(&req.authorization, db, settings) {
            Ok(auth) => {
                req.identity = Some(auth);
                Admission::Forward
            },
            Err(e) => Admission::Reject { status: UNAUTHORIZED, body: e.message, cause: e.cause },
        }
    }
}

/// An account that was registered last is the one that its address and
/// its password open, whatever the store held before.
pub proof fn lemma_registered_user_logs_in(tables: Tables, row: UserRow, password: Seq<char>)
    requires
        !row.is_deleted,
        hash_opens(password, row.password),
    ensures
        AuthUser::opened(tables.plus_user(row).users, row.email, password) == Some(row),
{
    let users = tables.plus_user(row).users;
    assert(users[users.len() - 1] == row);
    lemma_last_where(users, live_user_with_email(row.email), users.len() as int);
}

/// A basic credential that is base64 for `address:password` admits the
/// account that the two open, without its password hash, and is rejected
/// where they open none. Neither the address nor the password holds a colon.
pub proof fn lemma_basic_round_trip(
    data: Seq<char>,
    users: Seq<UserRow>,
    email: Seq<char>,
    password: Seq<char>,
)
    requires
        base64_decoded(data) matches Some(bytes) && valid_utf8(bytes) && decode_utf8(bytes) == email
            + seq![':'] + password,
        forall|i: int| 0 <= i < email.len() ==> #[trigger] email[i] != ':',
        forall|i: int| 0 <= i < password.len() ==> #[trigger] password[i] != ':',
    ensures
        basic_outcome(data, users) == match AuthUser::opened(users, email, password) {
            Some(row) => Ok::<UserRow, (Seq<char>, Cause)>(scrubbed(row)),
            None => Err::<UserRow, (Seq<char>, Cause)>(
                ("Invalid credentials for basic auth"@, Cause::Credentials),
            ),
        },
{
    lemma_fields_of_pair(email, password);
}

} // verus!
