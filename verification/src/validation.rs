//! The format rules for e-mail addresses and passwords.

use crate::adapters::{regex_search, search};
use crate::text::chars_of;
use vstd::prelude::*;
use vstd::string::*;

verus! {

/// `a` to `z`.
pub open spec fn is_lower(c: char) -> bool {
    'a' <= c <= 'z'
}

/// `a` to `z` and `0` to `9`.
pub open spec fn is_lower_alnum(c: char) -> bool {
    is_lower(c) || '0' <= c <= '9'
}

/// What may begin and end the part before the `@`.
pub open spec fn is_local_edge(c: char) -> bool {
    is_lower_alnum(c) || c == '_' || c == '+'
}

/// What may stand anywhere in the part before the `@`.
pub open spec fn is_local_inner(c: char) -> bool {
    is_local_edge(c) || c == '.'
}

/// What separates two labels of a domain.
pub open spec fn is_separator(c: char) -> bool {
    c == '-' || c == '.'
}

/// The part before the `@`: not empty, made of lower-case letters, digits,
/// `_`, `+` and `.`, with no `.` at either end.
pub open spec fn is_local_part(s: Seq<char>) -> bool {
    &&& s.len() >= 1
    &&& is_local_edge(s.first())
    &&& is_local_edge(s.last())
    &&& forall|i: int| 0 <= i < s.len() ==> is_local_inner(#[trigger] s[i])
}

/// The labels of a domain: runs of lower-case letters and digits, none empty,
/// with a single `-` or `.` between any two.
pub open spec fn is_domain_labels(s: Seq<char>) -> bool {
    &&& s.len() >= 1
    &&& is_lower_alnum(s.first())
    &&& is_lower_alnum(s.last())
    &&& forall|i: int| 0 <= i < s.len() ==> is_lower_alnum(#[trigger] s[i]) || is_separator(s[i])
    &&& forall|i: int|
        0 <= i < s.len() - 1 ==> !(is_separator(#[trigger] s[i]) && is_separator(s[i + 1]))
}

/// Whether `s` reads as an address with its `@` at position `at` and the dot
/// before its top-level name at position `dot`: a local part, the `@`, the
/// labels of the domain, the dot, and at least two lower-case letters.
/// What follows those two letters is not looked at.
pub open spec fn email_split(s: Seq<char>, at: int, dot: int) -> bool {
    &&& 0 < at < dot
    &&& dot + 2 < s.len()
    &&& is_local_part(s.subrange(0, at))
    &&& s[at] == '@'
    &&& is_domain_labels(s.subrange(at + 1, dot))
    &&& s[dot] == '.'
    &&& is_lower(s[dot + 1])
    &&& is_lower(s[dot + 2])
}

/// The addresses that registration accepts: those that begin with
/// `local@labels.tld` in the sense of [`email_split`].
pub open spec fn is_email(s: Seq<char>) -> bool {
    exists|at: int, dot: int| email_split(s, at, dot)
}

fn lower(c: char) -> (r: bool)
    ensures
        r == is_lower(c),
{
    'a' <= c && c <= 'z'
}

fn lower_alnum(c: char) -> (r: bool)
    ensures
        r == is_lower_alnum(c),
{
    ('a' <= c && c <= 'z') || ('0' <= c && c <= '9')
}

fn local_inner(c: char) -> (r: bool)
    ensures
        r == is_local_inner(c),
{
    lower_alnum(c) || c == '_' || c == '+' || c == '.'
}

/// In any reading of `s` as an address the `@` stands where the run of
/// local-part characters that begins `s` ends.
proof fn lemma_at_sign_position(s: Seq<char>, run: int, at: int, dot: int)
    requires
        0 <= run <= s.len(),
        forall|i: int| 0 <= i < run ==> is_local_inner(#[trigger] s[i]),
        run < s.len() ==> !is_local_inner(s[run]),
        email_split(s, at, dot),
    ensures
        at == run,
{
    let local = s.subrange(0, at);
    if at < run {
        assert(is_local_inner(s[at]));
    } else if at > run {
        assert(is_local_inner(local[run]));
    }
}

/// Whether `email` has the form of an address: see [`is_email`].
pub fn verify_email(email: String) -> (ok: bool)
    ensures
        ok == is_email(email@),
{
    let chars = chars_of(email.as_str());
    let ghost s = chars@;
    let n = chars.len();
    let mut at: usize = 0;
    while at < n && local_inner(chars[at])
        invariant
            n == chars@.len(),
            at <= n,
            forall|i: int| 0 <= i < at ==> is_local_inner(#[trigger] chars@[i]),
        decreases n - at,
    {
        at += 1;
    }
    if at == 0 || at >= n || chars[at] != '@' || chars[0] == '.' || chars[at - 1] == '.' {
        proof {
            assert forall|a: int, d: int| !email_split(s, a, d) by {
                if email_split(s, a, d) {
                    lemma_at_sign_position(s, at as int, a, d);
                    let local = s.subrange(0, a);
                    assert(local.first() == s[0]);
                    assert(local.last() == s[a - 1]);
                }
            }
        }
        return false;
    }
    let start = at + 1;
    let mut i = start;
    let mut after_alnum = false;
    while i < n
        invariant
            s == chars@,
            s == email@,
            n == s.len(),
            0 < at < n,
            start == at + 1,
            start <= i <= n,
            s[at as int] == '@',
            is_local_part(s.subrange(0, at as int)),
            forall|k: int| 0 <= k < at ==> is_local_inner(#[trigger] s[k]),
            !is_local_inner(s[at as int]),
            forall|j: int| start <= j < i ==> is_lower_alnum(#[trigger] s[j]) || is_separator(s[j]),
            forall|j: int|
                start <= j < i - 1 ==> !(is_separator(#[trigger] s[j]) && is_separator(s[j + 1])),
            i > start ==> is_lower_alnum(s[start as int]),
            after_alnum == (i > start && is_lower_alnum(s[i - 1])),
            forall|d: int| d < i ==> !email_split(s, at as int, d),
        decreases n - i,
    {
        let c = chars[i];
        if lower_alnum(c) {
            after_alnum = true;
        } else if c == '-' || c == '.' {
            if !after_alnum {
                proof {
                    assert forall|a: int, d: int| !email_split(s, a, d) by {
                        if email_split(s, a, d) {
                            lemma_at_sign_position(s, at as int, a, d);
                            let labels = s.subrange(start as int, d);
                            if i == start {
                                assert(labels.first() == s[start as int]);
                            } else if d == i {
                                assert(labels.last() == s[i - 1]);
                            } else {
                                assert(d > i);
                                assert(labels[i - 1 - start] == s[i - 1]);
                                assert(labels[i - start] == s[i as int]);
                                assert(is_separator(labels[i - 1 - start]));
                            }
                        }
                    }
                }
                return false;
            }
            if c == '.' && n - i > 2 && lower(chars[i + 1]) && lower(chars[i + 2]) {
                proof {
                    let labels = s.subrange(start as int, i as int);
                    assert(labels.first() == s[start as int]);
                    assert(labels.last() == s[i - 1]);
                    assert forall|k: int| 0 <= k < labels.len() implies is_lower_alnum(
                        #[trigger] labels[k],
                    ) || is_separator(labels[k]) by {
                        assert(labels[k] == s[start + k]);
                    }
                    assert forall|k: int| 0 <= k < labels.len() - 1 implies !(is_separator(
                        #[trigger] labels[k],
                    ) && is_separator(labels[k + 1])) by {
                        assert(labels[k] == s[start + k]);
                        assert(labels[k + 1] == s[start + k + 1]);
                    }
                    assert(email_split(s, at as int, i as int));
                }
                return true;
            }
            after_alnum = false;
        } else {
            proof {
                assert forall|a: int, d: int| !email_split(s, a, d) by {
                    if email_split(s, a, d) {
                        lemma_at_sign_position(s, at as int, a, d);
                        let labels = s.subrange(start as int, d);
                        if d > i {
                            assert(labels[i - start] == s[i as int]);
                        }
                    }
                }
            }
            return false;
        }
        i += 1;
    }
    proof {
        assert forall|a: int, d: int| !email_split(s, a, d) by {
            if email_split(s, a, d) {
                lemma_at_sign_position(s, at as int, a, d);
            }
        }
    }
    false
}

/// An address put together from a well-formed local part, well-formed domain
/// labels and a top-level name of two or more lower-case letters is accepted,
/// whatever follows the first two letters of that name.
pub proof fn lemma_well_formed_email_accepted(
    local: Seq<char>,
    labels: Seq<char>,
    top_level: Seq<char>,
)
    requires
        is_local_part(local),
        is_domain_labels(labels),
        top_level.len() >= 2,
        is_lower(top_level[0]),
        is_lower(top_level[1]),
    ensures
        is_email(local + seq!['@'] + labels + seq!['.'] + top_level),
{
    let s = local + seq!['@'] + labels + seq!['.'] + top_level;
    let at = local.len() as int;
    let dot = at + 1 + labels.len();
    assert(s.subrange(0, at) =~= local);
    assert(s.subrange(at + 1, dot) =~= labels);
    assert(s[dot + 1] == top_level[0]);
    assert(s[dot + 2] == top_level[1]);
    assert(email_split(s, at, dot));
}

/// A text without `@` is no address.
pub proof fn lemma_email_needs_at_sign(s: Seq<char>)
    requires
        forall|i: int| 0 <= i < s.len() ==> #[trigger] s[i] != '@',
    ensures
        !is_email(s),
{
}

/// A text with nothing before its `@` is no address, and neither is the
/// empty text.
pub proof fn lemma_email_needs_local_part(s: Seq<char>)
    requires
        s.len() == 0 || s[0] == '@',
    ensures
        !is_email(s),
{
    assert forall|at: int, dot: int| !email_split(s, at, dot) by {
        if email_split(s, at, dot) {
            assert(s.subrange(0, at).first() == s[0]);
        }
    }
}

/// A text in which no `@` is followed by a lower-case letter or a digit has
/// no domain, and is no address.
pub proof fn lemma_email_needs_domain(s: Seq<char>)
    requires
        forall|i: int|
            0 <= i < s.len() && #[trigger] s[i] == '@' ==> !(i + 1 < s.len() && is_lower_alnum(
                s[i + 1],
            )),
    ensures
        !is_email(s),
{
    assert forall|at: int, dot: int| !email_split(s, at, dot) by {
        if email_split(s, at, dot) {
            assert(s.subrange(at + 1, dot).first() == s[at + 1]);
        }
    }
}

/// A text in which no dot is followed by two lower-case letters has no
/// top-level name, and is no address.
pub proof fn lemma_email_needs_top_level_name(s: Seq<char>)
    requires
        forall|i: int|
            0 <= i && i + 2 < s.len() && #[trigger] s[i] == '.' ==> !(is_lower(s[i + 1])
                && is_lower(s[i + 2])),
    ensures
        !is_email(s),
{
}

/// The pattern that finds a lower-case letter.
pub open spec fn lowercase_pattern() -> Seq<char> {
    "\\p{Ll}"@
}

/// The pattern that finds an upper-case letter.
pub open spec fn uppercase_pattern() -> Seq<char> {
    "\\p{Lu}"@
}

/// The pattern that finds a digit or another numeric character.
pub open spec fn digit_pattern() -> Seq<char> {
    "\\p{N}"@
}

/// The pattern that finds a symbol: a character that is neither a letter nor
/// numeric.
pub open spec fn symbol_pattern() -> Seq<char> {
    "[^\\p{L}\\p{N}]"@
}

/// Whether `password` holds a character of the class that `pattern` finds.
pub open spec fn has_class(pattern: Seq<char>, password: Seq<char>) -> bool {
    regex_search(pattern, password) == Some(true)
}

/// The passwords that are strong enough: at least eight characters, among
/// them a lower-case letter, an upper-case letter, a digit and a symbol.
pub open spec fn is_strong_password(password: Seq<char>) -> bool {
    &&& has_class(lowercase_pattern(), password)
    &&& has_class(uppercase_pattern(), password)
    &&& has_class(digit_pattern(), password)
    &&& has_class(symbol_pattern(), password)
    &&& password.len() >= 8
}

/// Decides on a password from what was found in it: each argument but the
/// last is the outcome of the search for one class of characters, `length`
/// counts the password's characters.
pub fn password_verdict(
    lowercase: Option<bool>,
    uppercase: Option<bool>,
    digit: Option<bool>,
    symbol: Option<bool>,
    length: usize,
) -> (ok: bool)
    ensures
        ok == (lowercase == Some(true) && uppercase == Some(true) && digit == Some(true) && symbol
            == Some(true) && length >= 8),
{
    let found = |outcome: Option<bool>| -> (yes: bool)
        ensures
            yes == (outcome == Some(true)),
        {
            match outcome {
                Some(b) => b,
                None => false,
            }
        };
    found(lowercase) && found(uppercase) && found(digit) && found(symbol) && length >= 8
}

/// Whether `password` is strong enough: see [`is_strong_password`].
pub fn verify_password(password: String) -> (ok: bool)
    ensures
        ok == is_strong_password(password@),
{
    let text = password.as_str();
    let lowercase = search("\\p{Ll}", text);
    let uppercase = search("\\p{Lu}", text);
    let digit = search("\\p{N}", text);
    let symbol = search("[^\\p{L}\\p{N}]", text);
    password_verdict(lowercase, uppercase, digit, symbol, text.unicode_len())
}

} // verus!
