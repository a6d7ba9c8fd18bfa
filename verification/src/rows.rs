//! Searching a sequence of records from either end.

use vstd::prelude::*;

verus! {

/// The first position at or after `from` whose item satisfies `p`, or the
/// length of `s` where none does.
pub open spec fn first_where<T>(s: Seq<T>, p: spec_fn(T) -> bool, from: int) -> int
    decreases s.len() - from,
{
    if 0 <= from < s.len() && !p(s[from]) {
        first_where(s, p, from + 1)
    } else {
        from
    }
}

/// One past the last position before `upto` whose item satisfies `p`, or 0
/// where none does.
pub open spec fn last_where<T>(s: Seq<T>, p: spec_fn(T) -> bool, upto: int) -> int
    decreases upto,
{
    if 0 < upto <= s.len() && !p(s[upto - 1]) {
        last_where(s, p, upto - 1)
    } else {
        upto
    }
}

/// The first item of `s` that satisfies `p`.
pub open spec fn find_first<T>(s: Seq<T>, p: spec_fn(T) -> bool) -> Option<T> {
    let i = first_where(s, p, 0);
    if i < s.len() {
        Some(s[i])
    } else {
        None
    }
}

/// The last item of `s` that satisfies `p`.
pub open spec fn find_last<T>(s: Seq<T>, p: spec_fn(T) -> bool) -> Option<T> {
    let i = last_where(s, p, s.len() as int);
    if i > 0 {
        Some(s[i - 1])
    } else {
        None
    }
}

/// Whether some item of `s` satisfies `p`.
pub open spec fn any_where<T>(s: Seq<T>, p: spec_fn(T) -> bool) -> bool {
    exists|i: int| 0 <= i < s.len() && p(#[trigger] s[i])
}

/// What [`first_where`] returns lies between `from` and the end, no item
/// before it satisfies `p`, and the item there does.
pub proof fn lemma_first_where<T>(s: Seq<T>, p: spec_fn(T) -> bool, from: int)
    requires
        0 <= from <= s.len(),
    ensures
        from <= first_where(s, p, from) <= s.len(),
        forall|i: int| from <= i < first_where(s, p, from) ==> !p(#[trigger] s[i]),
        first_where(s, p, from) < s.len() ==> p(s[first_where(s, p, from)]),
    decreases s.len() - from,
{
    if from < s.len() && !p(s[from]) {
        lemma_first_where(s, p, from + 1);
    }
}

/// What [`last_where`] returns lies between 0 and `upto`, no item from it on
/// satisfies `p`, and the item just before it does.
pub proof fn lemma_last_where<T>(s: Seq<T>, p: spec_fn(T) -> bool, upto: int)
    requires
        0 <= upto <= s.len(),
    ensures
        0 <= last_where(s, p, upto) <= upto,
        forall|i: int| last_where(s, p, upto) <= i < upto ==> !p(#[trigger] s[i]),
        last_where(s, p, upto) > 0 ==> p(s[last_where(s, p, upto) - 1]),
    decreases upto,
{
    if 0 < upto && !p(s[upto - 1]) {
        lemma_last_where(s, p, upto - 1);
    }
}

/// An item is found from the front exactly where one satisfies `p`.
pub proof fn lemma_find_first_any<T>(s: Seq<T>, p: spec_fn(T) -> bool)
    ensures
        find_first(s, p) is Some <==> any_where(s, p),
        find_first(s, p) matches Some(x) ==> p(x) && s.contains(x),
{
    lemma_first_where(s, p, 0);
}

} // verus!
