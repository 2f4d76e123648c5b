//! Searching in character sequences.

use vstd::prelude::*;

verus! {

/// Whether `needle` stands in `hay` at place `at`.
pub open spec fn occurs_at(hay: Seq<char>, needle: Seq<char>, at: int) -> bool {
    0 <= at && at + needle.len() <= hay.len() && hay.subrange(at, at + needle.len()) == needle
}

/// Whether `needle` stands somewhere in `hay`.
pub open spec fn contains(hay: Seq<char>, needle: Seq<char>) -> bool {
    exists|at: int| occurs_at(hay, needle, at)
}

/// A text holds what it was joined from.
pub proof fn lemma_contains_joined(before: Seq<char>, needle: Seq<char>, after: Seq<char>)
    ensures
        contains(before + needle + after, needle),
{
    let hay = before + needle + after;
    let at = before.len() as int;
    assert(hay.subrange(at, at + needle.len()) =~= needle);
    assert(occurs_at(hay, needle, at));
}

/// The first place of `c` in `hay`; the length of `hay` where `c` is not in
/// it.
pub open spec fn index_of(hay: Seq<char>, c: char) -> int
    decreases hay.len(),
{
    if hay.len() == 0 || hay[0] == c {
        0
    } else {
        1 + index_of(hay.skip(1), c)
    }
}

/// `index_of` gives a place within `hay` or its length, with no `c` before
/// it, and with `c` at it where it is a place within `hay`.
pub proof fn lemma_index_of(hay: Seq<char>, c: char)
    ensures
        0 <= index_of(hay, c) <= hay.len(),
        forall|k: int| 0 <= k < index_of(hay, c) ==> hay[k] != c,
        index_of(hay, c) < hay.len() ==> hay[index_of(hay, c)] == c,
    decreases hay.len(),
{
    if !(hay.len() == 0 || hay[0] == c) {
        let rest = hay.skip(1);
        lemma_index_of(rest, c);
        assert forall|k: int| 0 <= k < index_of(hay, c) implies hay[k] != c by {
            if k > 0 {
                assert(hay[k] == rest[k - 1]);
            }
        }
    }
}

/// A place with no `c` before it, and with `c` at it or at the end of `hay`,
/// is the one that `index_of` gives.
pub proof fn lemma_index_of_unique(hay: Seq<char>, c: char, at: int)
    requires
        0 <= at <= hay.len(),
        forall|k: int| 0 <= k < at ==> hay[k] != c,
        at < hay.len() ==> hay[at] == c,
    ensures
        index_of(hay, c) == at,
{
    lemma_index_of(hay, c);
    let found = index_of(hay, c);
    if found < at {
        assert(hay[found] != c);
    } else if at < found {
        assert(hay[at] != c);
    }
}

/// The characters of `s`, in order.
pub fn chars_of(s: &str) -> (chars: Vec<char>)
    ensures
        chars@ == s@,
{
    let mut chars: Vec<char> = Vec::new();
    for c in it: s.chars()
        invariant
            chars@ == it.seq().take(it.index() as int),
    {
        chars.push(c);
    }
    chars
}

/// Whether `needle` stands in `hay` at place `at`.
fn matches_at(hay: &Vec<char>, needle: &Vec<char>, at: usize) -> (found: bool)
    requires
        at + needle.len() <= hay.len(),
    ensures
        found == occurs_at(hay@, needle@, at as int),
{
    let mut k: usize = 0;
    while k < needle.len()
        invariant
            k <= needle.len(),
            at + needle.len() <= hay.len(),
            forall|q: int| 0 <= q < k ==> hay@[at + q] == needle@[q],
        decreases needle.len() - k,
    {
        if hay[at + k] != needle[k] {
            assert(hay@.subrange(at as int, at + needle.len())[k as int] != needle@[k as int]);
            return false;
        }
        k += 1;
    }
    assert(hay@.subrange(at as int, at + needle.len()) =~= needle@);
    true
}

/// Whether `needle` stands somewhere in `hay`.
pub fn contains_chars(hay: &Vec<char>, needle: &Vec<char>) -> (found: bool)
    ensures
        found == contains(hay@, needle@),
{
    if needle.len() > hay.len() {
        return false;
    }
    let last: usize = hay.len() - needle.len();
    let mut at: usize = 0;
    loop
        invariant
            at <= last,
            last == hay.len() - needle.len(),
            forall|q: int| 0 <= q < at ==> !occurs_at(hay@, needle@, q),
        decreases last - at,
    {
        if matches_at(hay, needle, at) {
            return true;
        }
        if at == last {
            return false;
        }
        at += 1;
    }
}

/// The first place of `c` in `hay`; the length of `hay` where `c` is not in
/// it.
pub fn position(hay: &Vec<char>, c: char) -> (at: usize)
    ensures
        at == index_of(hay@, c),
{
    let mut at: usize = 0;
    while at < hay.len() && hay[at] != c
        invariant
            at <= hay.len(),
            forall|k: int| 0 <= k < at ==> hay@[k] != c,
        decreases hay.len() - at,
    {
        at += 1;
    }
    proof {
        lemma_index_of_unique(hay@, c, at as int);
    }
    at
}

} // verus!
