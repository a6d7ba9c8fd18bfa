//! Character-level helpers: words separated by white space, fields separated
//! by colons, and signed decimal numbers.

use vstd::prelude::*;
use vstd::string::*;

verus! {

/// The characters of `s`, in order.
pub fn chars_of(s: &str) -> (chars: Vec<char>)
    ensures
        chars@ == s@,
{
    let mut chars: Vec<char> = Vec::new();
    for c in it: s.chars()
        invariant
            chars@ == s@.take(it.index() as int),
            it.seq() == s@,
    {
        chars.push(c);
    }
    chars
}

/// The characters that carry the Unicode property `White_Space`.
pub open spec fn is_whitespace(c: char) -> bool {
    let u = c as u32;
    ||| 0x09 <= u <= 0x0D
    ||| u == 0x20
    ||| u == 0x85
    ||| u == 0xA0
    ||| u == 0x1680
    ||| 0x2000 <= u <= 0x200A
    ||| u == 0x2028
    ||| u == 0x2029
    ||| u == 0x202F
    ||| u == 0x205F
    ||| u == 0x3000
}

/// Decides [`is_whitespace`].
pub fn whitespace(c: char) -> (r: bool)
    ensures
        r == is_whitespace(c),
{
    let u: u32 = c as u32;
    (0x09 <= u && u <= 0x0D) || u == 0x20 || u == 0x85 || u == 0xA0 || u == 0x1680 || (0x2000 <= u
        && u <= 0x200A) || u == 0x2028 || u == 0x2029 || u == 0x202F || u == 0x205F || u == 0x3000
}

/// The first position at or after `from` that holds no white space, or the
/// end of `s` where there is none.
pub open spec fn skip_whitespace(s: Seq<char>, from: int) -> int
    decreases s.len() - from,
{
    if 0 <= from < s.len() && is_whitespace(s[from]) {
        skip_whitespace(s, from + 1)
    } else {
        from
    }
}

/// The first position at or after `from` that holds white space, or the end
/// of `s` where there is none.
pub open spec fn word_end(s: Seq<char>, from: int) -> int
    decreases s.len() - from,
{
    if 0 <= from < s.len() && !is_whitespace(s[from]) {
        word_end(s, from + 1)
    } else {
        from
    }
}

/// Where the word after position `from` begins: white space is skipped first.
pub open spec fn next_word_start(s: Seq<char>, from: int) -> int {
    skip_whitespace(s, from)
}

/// The word that follows position `from`, if any: the longest run of
/// characters without white space that begins at [`next_word_start`].
pub open spec fn next_word(s: Seq<char>, from: int) -> Option<Seq<char>> {
    let start = next_word_start(s, from);
    if 0 <= start < s.len() {
        Some(s.subrange(start, word_end(s, start)))
    } else {
        None
    }
}

/// Where the word that follows position `from` ends.
pub open spec fn next_word_end(s: Seq<char>, from: int) -> int {
    word_end(s, next_word_start(s, from))
}

/// The first word of `s`.
pub open spec fn first_word(s: Seq<char>) -> Option<Seq<char>> {
    next_word(s, 0)
}

/// The second word of `s`.
pub open spec fn second_word(s: Seq<char>) -> Option<Seq<char>> {
    next_word(s, next_word_end(s, 0))
}

/// Reads the word of `text` that follows position `from`. `chars` holds the
/// characters of `text`. Returns the word, if there is one, and the position
/// at which it ends.
pub fn read_word(text: &str, chars: &Vec<char>, from: usize) -> (r: (Option<String>, usize))
    requires
        chars@ == text@,
        from <= chars@.len(),
    ensures
        r.1 == next_word_end(chars@, from as int),
        r.1 <= chars@.len(),
        r.0 is Some == next_word(chars@, from as int) is Some,
        r.0 matches Some(w) ==> next_word(chars@, from as int) == Some(w@),
{
    let n = chars.len();
    let mut start = from;
    while start < n && whitespace(chars[start])
        invariant
            n == chars@.len(),
            from <= start <= n,
            skip_whitespace(chars@, from as int) == skip_whitespace(chars@, start as int),
        decreases n - start,
    {
        start += 1;
    }
    let mut end = start;
    while end < n && !whitespace(chars[end])
        invariant
            n == chars@.len(),
            start <= end <= n,
            word_end(chars@, start as int) == word_end(chars@, end as int),
        decreases n - end,
    {
        end += 1;
    }
    if start < n {
        let word = text.substring_char(start, end);
        (Some(String::from_str(word)), end)
    } else {
        (None, end)
    }
}

/// The first position at or after `from` that holds a colon, or the end of
/// `s` where there is none.
pub open spec fn field_end(s: Seq<char>, from: int) -> int
    decreases s.len() - from,
{
    if 0 <= from < s.len() && s[from] != ':' {
        field_end(s, from + 1)
    } else {
        from
    }
}

/// The first of the fields that colons separate in `s`: what stands before
/// the first colon, or all of `s` where it holds none.
pub open spec fn first_field(s: Seq<char>) -> Seq<char> {
    s.subrange(0, field_end(s, 0))
}

/// The second of the fields that colons separate in `s`: what stands between
/// the first colon and the second, or the end. `None` where `s` holds no
/// colon.
pub open spec fn second_field(s: Seq<char>) -> Option<Seq<char>> {
    let colon = field_end(s, 0);
    if colon < s.len() {
        Some(s.subrange(colon + 1, field_end(s, colon + 1)))
    } else {
        None
    }
}

/// A field ends at position `end` where no colon stands between `from` and
/// `end`, and `end` holds a colon or is the end of `s`.
pub proof fn lemma_field_ends_at(s: Seq<char>, from: int, end: int)
    requires
        0 <= from <= end <= s.len(),
        forall|i: int| from <= i < end ==> #[trigger] s[i] != ':',
        end < s.len() ==> s[end] == ':',
    ensures
        field_end(s, from) == end,
    decreases end - from,
{
    if from < end {
        lemma_field_ends_at(s, from + 1, end);
    }
}

/// An address and a password without colons, joined by one, are the two
/// fields of the joined text.
pub proof fn lemma_fields_of_pair(first: Seq<char>, second: Seq<char>)
    requires
        forall|i: int| 0 <= i < first.len() ==> #[trigger] first[i] != ':',
        forall|i: int| 0 <= i < second.len() ==> #[trigger] second[i] != ':',
    ensures
        first_field(first + seq![':'] + second) == first,
        second_field(first + seq![':'] + second) == Some(second),
{
    let s = first + seq![':'] + second;
    let colon = first.len() as int;
    assert forall|i: int| 0 <= i < colon implies #[trigger] s[i] != ':' by {
        assert(s[i] == first[i]);
    }
    assert(s[colon] == ':');
    lemma_field_ends_at(s, 0, colon);
    assert forall|i: int| colon + 1 <= i < s.len() implies #[trigger] s[i] != ':' by {
        assert(s[i] == second[i - colon - 1]);
    }
    lemma_field_ends_at(s, colon + 1, s.len() as int);
    assert(s.subrange(0, colon) =~= first);
    assert(s.subrange(colon + 1, s.len() as int) =~= second);
}

/// Reads the field of `text` that begins at `from` and runs up to the next
/// colon or the end. `chars` holds the characters of `text`. Returns the field
/// and the position at which it ends.
pub fn read_field(text: &str, chars: &Vec<char>, from: usize) -> (r: (String, usize))
    requires
        chars@ == text@,
        from <= chars@.len(),
    ensures
        r.1 == field_end(chars@, from as int),
        from <= r.1 <= chars@.len(),
        r.0@ == chars@.subrange(from as int, r.1 as int),
{
    let n = chars.len();
    let mut end = from;
    while end < n && chars[end] != ':'
        invariant
            n == chars@.len(),
            from <= end <= n,
            field_end(chars@, from as int) == field_end(chars@, end as int),
        decreases n - end,
    {
        end += 1;
    }
    let field = text.substring_char(from, end);
    (String::from_str(field), end)
}

/// Splits `text` at colons and returns its first two fields; the second is
/// `None` where `text` holds no colon.
pub fn first_two_fields(text: &str) -> (r: (String, Option<String>))
    ensures
        r.0@ == first_field(text@),
        r.1 is Some == second_field(text@) is Some,
        r.1 matches Some(f) ==> second_field(text@) == Some(f@),
{
    let chars = chars_of(text);
    let (first, colon) = read_field(text, &chars, 0);
    if colon < chars.len() {
        let (second, _) = read_field(text, &chars, colon + 1);
        (first, Some(second))
    } else {
        (first, None)
    }
}

/// The ASCII decimal digits.
pub open spec fn is_digit(c: char) -> bool {
    '0' <= c <= '9'
}

/// What a decimal digit counts for.
pub open spec fn digit_value(c: char) -> int {
    c as u32 - '0' as u32
}

/// The number that a run of decimal digits writes, the empty run counting
/// for zero.
pub open spec fn digits_value(s: Seq<char>) -> int
    decreases s.len(),
{
    if s.len() == 0 {
        0
    } else {
        digits_value(s.drop_last()) * 10 + digit_value(s.last())
    }
}

/// Whether `s` holds decimal digits only.
pub open spec fn all_digits(s: Seq<char>) -> bool {
    forall|i: int| 0 <= i < s.len() ==> is_digit(#[trigger] s[i])
}

/// The integer that `s` writes in decimal: an optional sign, `+` or `-`, and
/// at least one digit after it, nothing else. `None` for any other text.
pub open spec fn signed_decimal(s: Seq<char>) -> Option<int> {
    if s.len() == 0 {
        None
    } else {
        let signed = s[0] == '-' || s[0] == '+';
        let digits = if signed {
            s.subrange(1, s.len() as int)
        } else {
            s
        };
        if digits.len() == 0 || !all_digits(digits) {
            None
        } else if s[0] == '-' {
            Some(-digits_value(digits))
        } else {
            Some(digits_value(digits))
        }
    }
}

/// The 64-bit signed integer that `s` writes in decimal, where it writes one
/// that fits.
pub open spec fn decimal_i64(s: Seq<char>) -> Option<i64> {
    match signed_decimal(s) {
        Some(v) => if i64::MIN <= v <= i64::MAX {
            Some(v as i64)
        } else {
            None
        },
        None => None,
    }
}

/// A run of digits counts for at least as much as any of its prefixes.
pub proof fn lemma_digits_value_grows(s: Seq<char>, k: int)
    requires
        all_digits(s),
        0 <= k <= s.len(),
    ensures
        0 <= digits_value(s.take(k)) <= digits_value(s),
    decreases s.len() - k,
{
    if k == s.len() {
        assert(s.take(k) =~= s);
        lemma_digits_value_nonnegative(s);
    } else {
        lemma_digits_value_grows(s, k + 1);
        assert(s.take(k + 1).drop_last() =~= s.take(k));
        assert(is_digit(s[k]));
        lemma_digits_value_nonnegative(s.take(k));
    }
}

/// A run of digits counts for zero or more.
pub proof fn lemma_digits_value_nonnegative(s: Seq<char>)
    requires
        all_digits(s),
    ensures
        0 <= digits_value(s),
    decreases s.len(),
{
    if s.len() > 0 {
        lemma_digits_value_nonnegative(s.drop_last());
        assert(is_digit(s.last()));
    }
}

/// Reads a 64-bit signed integer written in decimal, as [`decimal_i64`]
/// defines it.
pub fn parse_i64(text: &str) -> (r: Option<i64>)
    ensures
        r == decimal_i64(text@),
{
    let chars = chars_of(text);
    let n = chars.len();
    if n == 0 {
        return None;
    }
    let negative = chars[0] == '-';
    let first: usize = if chars[0] == '-' || chars[0] == '+' {
        1
    } else {
        0
    };
    if first == n {
        return None;
    }
    let ghost digits = chars@.subrange(first as int, n as int);
    proof {
        if first == 0 {
            assert(digits =~= text@);
        }
    }
    // The magnitude read so far; it never exceeds 2^63.
    let mut magnitude: u64 = 0;
    let mut i = first;
    while i < n
        invariant
            n == chars@.len(),
            first <= i <= n,
            first < n,
            chars@ == text@,
            digits == chars@.subrange(first as int, n as int),
            signed_decimal(text@) == (if !all_digits(digits) {
                None
            } else if negative {
                Some(-digits_value(digits))
            } else {
                Some(digits_value(digits))
            }),
            forall|j: int| 0 <= j < i - first ==> is_digit(#[trigger] digits[j]),
            magnitude == digits_value(digits.take(i - first)),
            magnitude <= 0x8000_0000_0000_0000,
        decreases n - i,
    {
        let c = chars[i];
        if !('0' <= c && c <= '9') {
            assert(!is_digit(digits[i - first]));
            return None;
        }
        let d: u64 = (c as u32 - '0' as u32) as u64;
        proof {
            assert(digits.take(i - first + 1).drop_last() =~= digits.take(i - first));
            assert(digits.take(i - first + 1).last() == c);
        }
        if magnitude > (0x8000_0000_0000_0000 - d) / 10 {
            proof {
                // The digits beyond this one, whatever they are, cannot bring
                // the number back into range.
                let ghost k = i - first + 1;
                assert(digits_value(digits.take(k)) > 0x8000_0000_0000_0000);
                if all_digits(digits) {
                    lemma_digits_value_grows(digits, k);
                }
            }
            return None;
        }
        magnitude = magnitude * 10 + d;
        i += 1;
    }
    proof {
        assert(digits.take(n - first) =~= digits);
    }
    if negative {
        if magnitude == 0x8000_0000_0000_0000 {
            Some(i64::MIN)
        } else {
            Some(-(magnitude as i64))
        }
    } else if magnitude == 0x8000_0000_0000_0000 {
        None
    } else {
        Some(magnitude as i64)
    }
}

} // verus!
