//! Strings as character sequences: conversion and the search for a
//! pattern.

use vstd::prelude::*;

verus! {

/// `String::push` appends one character.
pub assume_specification[ String::push ](s: &mut String, c: char)
    ensures
        final(s)@ == old(s)@.push(c),
;

/// `str::eq` compares the characters.
pub assume_specification[ <str as PartialEq>::eq ](a: &str, b: &str) -> (equal: bool)
    ensures
        equal == (a@ == b@),
;

/// The characters of `s`, in order.
pub fn chars_of(s: &str) -> (v: Vec<char>)
    ensures
        v@ == s@,
{
    let mut v: Vec<char> = Vec::new();
    let it = s.chars();
    for c in iter: it
        invariant
            iter.seq() == s@,
            v@ == s@.take(iter.index() as int),
    {
        v.push(c);
    }
    v
}

/// The string made of the characters of `v`, in order.
pub fn string_of(v: &Vec<char>) -> (s: String)
    ensures
        s@ == v@,
{
    let mut s = String::new();
    let mut i: usize = 0;
    while i < v.len()
        invariant
            i <= v.len(),
            s@ == v@.take(i as int),
        decreases v.len() - i,
    {
        s.push(v[i]);
        i += 1;
    }
    s
}

/// Whether `pattern` stands in `text` at position `at`.
pub open spec fn occurs_at(text: Seq<char>, pattern: Seq<char>, at: int) -> bool {
    0 <= at && at + pattern.len() <= text.len() && text.subrange(at, at + pattern.len())
        == pattern
}

/// Whether `pattern` stands somewhere in `text`.
pub open spec fn occurs(text: Seq<char>, pattern: Seq<char>) -> bool {
    exists|at: int| occurs_at(text, pattern, at)
}

/// Whether `at` is the first position at which `pattern` stands in `text`.
pub open spec fn is_first(text: Seq<char>, pattern: Seq<char>, at: int) -> bool {
    occurs_at(text, pattern, at) && forall|before: int|
        0 <= before < at ==> !occurs_at(text, pattern, before)
}

/// The first position at which `pattern` stands in `text`, if it stands
/// there at all.
pub open spec fn first_occurrence(text: Seq<char>, pattern: Seq<char>) -> Option<int> {
    if exists|at: int| is_first(text, pattern, at) {
        Some(choose|at: int| is_first(text, pattern, at))
    } else {
        None
    }
}

/// The first position is unique.
pub proof fn lemma_first_is(text: Seq<char>, pattern: Seq<char>, at: int)
    requires
        is_first(text, pattern, at),
    ensures
        first_occurrence(text, pattern) == Some(at),
{
    let chosen = choose|at: int| is_first(text, pattern, at);
    assert(is_first(text, pattern, chosen));
    if chosen < at {
        assert(!occurs_at(text, pattern, chosen));
    } else if at < chosen {
        assert(!occurs_at(text, pattern, at));
    }
}

/// An occurrence in a suffix is an occurrence in the text, moved by the
/// length of what was skipped.
pub proof fn lemma_occurs_in_suffix(text: Seq<char>, pattern: Seq<char>, from: int, at: int)
    requires
        0 <= from <= text.len(),
    ensures
        occurs_at(text.skip(from), pattern, at) <==> (0 <= at && occurs_at(
            text,
            pattern,
            from + at,
        )),
{
    if 0 <= at && at + pattern.len() <= text.len() - from {
        assert(text.skip(from).subrange(at, at + pattern.len()) =~= text.subrange(
            from + at,
            from + at + pattern.len(),
        ));
    }
}

/// Whether `pattern` stands in `text` at `at`.
pub(crate) fn matches_at(text: &Vec<char>, pattern: &Vec<char>, at: usize) -> (same: bool)
    requires
        at + pattern.len() <= text.len(),
    ensures
        same == occurs_at(text@, pattern@, at as int),
{
    let mut i: usize = 0;
    while i < pattern.len()
        invariant
            i <= pattern.len(),
            at + pattern.len() <= text.len(),
            forall|j: int| 0 <= j < i ==> text@[at + j] == pattern@[j],
        decreases pattern.len() - i,
    {
        if text[at + i] != pattern[i] {
            assert(text@.subrange(at as int, at + pattern.len())[i as int] != pattern@[i as int]);
            return false;
        }
        i += 1;
    }
    assert(text@.subrange(at as int, at + pattern.len()) =~= pattern@);
    true
}

/// The first position at or after `from` at which `pattern` stands in
/// `text`, counted from the start of `text`.
pub(crate) fn find(text: &Vec<char>, pattern: &Vec<char>, from: usize) -> (found: Option<usize>)
    requires
        from <= text.len(),
        pattern.len() > 0,
    ensures
        match found {
            Some(at) => from <= at && at + pattern.len() <= text.len() && is_first(
                text@.skip(from as int),
                pattern@,
                at - from,
            ),
            None => first_occurrence(text@.skip(from as int), pattern@) is None,
        },
{
    let ghost rest = text@.skip(from as int);
    if pattern.len() > text.len() - from {
        assert forall|at: int| !is_first(rest, pattern@, at) by {}
        return None;
    }
    let last: usize = text.len() - pattern.len();
    let mut at: usize = from;
    while at <= last
        invariant
            from <= at <= last + 1,
            last == text.len() - pattern.len(),
            pattern.len() > 0,
            rest == text@.skip(from as int),
            forall|before: int| 0 <= before < at - from ==> !occurs_at(rest, pattern@, before),
        decreases last + 1 - at,
    {
        proof {
            lemma_occurs_in_suffix(text@, pattern@, from as int, at - from);
        }
        if matches_at(text, pattern, at) {
            return Some(at);
        }
        at += 1;
    }
    assert forall|k: int| !is_first(rest, pattern@, k) by {}
    None
}

/// Appends `text[from..to]` to `out`.
pub(crate) fn append_range(out: &mut Vec<char>, text: &Vec<char>, from: usize, to: usize)
    requires
        from <= to <= text.len(),
    ensures
        final(out)@ == old(out)@ + text@.subrange(from as int, to as int),
{
    let mut i: usize = from;
    while i < to
        invariant
            from <= i <= to <= text.len(),
            out@ == old(out)@ + text@.subrange(from as int, i as int),
        decreases to - i,
    {
        out.push(text[i]);
        assert(out@ =~= old(out)@ + text@.subrange(from as int, i + 1));
        i += 1;
    }
}

/// The items joined, with `separator` between each two.
pub open spec fn joined(items: Seq<Seq<char>>, separator: Seq<char>) -> Seq<char>
    decreases items.len(),
{
    if items.len() == 0 {
        Seq::empty()
    } else if items.len() == 1 {
        items[0]
    } else {
        joined(items.drop_last(), separator) + separator + items.last()
    }
}

/// The views of a sequence of strings.
pub open spec fn texts_of(items: Seq<String>) -> Seq<Seq<char>> {
    Seq::new(items.len(), |i: int| items[i]@)
}

/// Joins the items, with `separator` between each two.
pub fn join(items: &Vec<String>, separator: &str) -> (text: String)
    ensures
        text@ == joined(texts_of(items@), separator@),
{
    let mut text = String::new();
    let mut i: usize = 0;
    while i < items.len()
        invariant
            i <= items.len(),
            text@ == joined(texts_of(items@.take(i as int)), separator@),
        decreases items.len() - i,
    {
        if i > 0 {
            text.append(separator);
        }
        text.append(items[i].as_str());
        proof {
            let now = texts_of(items@.take(i + 1));
            assert(now.drop_last() =~= texts_of(items@.take(i as int)));
            assert(now.last() == items@[i as int]@);
            if i == 0 {
                assert(text@ =~= items@[0]@);
            }
        }
        i += 1;
    }
    assert(items@.take(i as int) =~= items@);
    text
}

} // verus!
