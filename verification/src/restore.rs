//! Restoring undoes hiding: on a text that holds none of the wrapper
//! strings and whose shortcodes are all closed, unescaping the escaped text
//! gives the text back.

use vstd::prelude::*;
use crate::shortcode::{escaped, rewrap, unescaped};
use crate::text::{
    first_occurrence, is_first, lemma_first_is, lemma_occurs_in_suffix, occurs, occurs_at,
};

verus! {

/// Whether every span that the scan of [`rewrap`] finds in `text` is
/// closed: after each `open` that it meets there is a `close`.
pub open spec fn all_closed(text: Seq<char>, open: Seq<char>, close: Seq<char>) -> bool
    decreases text.len(),
{
    if open.len() == 0 {
        true
    } else {
        match first_occurrence(text, open) {
            None => true,
            Some(at) => {
                let right = text.skip(at + open.len());
                match first_occurrence(right, close) {
                    None => false,
                    Some(end) => all_closed(right.skip(end + close.len()), open, close),
                }
            },
        }
    }
}

/// Whether `text` holds none of the four strings that the escaping writes
/// around shortcodes.
pub open spec fn without_wrappers(text: Seq<char>) -> bool {
    &&& !occurs(text, "<!--{{"@)
    &&& !occurs(text, "}}-->"@)
    &&& !occurs(text, "<!--{%"@)
    &&& !occurs(text, "%}-->"@)
}

/// Whether every shortcode that the escaping finds is closed: each `{{`
/// that it meets has its `}}`, and in the text that this first pass gives
/// each `{%` that the second pass meets has its `%}`.
pub open spec fn shortcodes_closed(text: Seq<char>) -> bool {
    &&& all_closed(text, "{{"@, "}}"@)
    &&& all_closed(rewrap(text, "{{"@, "}}"@, "<!--{{"@, "}}-->"@), "{%"@, "%}"@)
}

/// An occurrence, character by character.
proof fn lemma_occurs_chars(text: Seq<char>, pattern: Seq<char>, at: int)
    ensures
        occurs_at(text, pattern, at) <==> (0 <= at && at + pattern.len() <= text.len()
            && forall|k: int| 0 <= k < pattern.len() ==> text[at + k] == #[trigger] pattern[k]),
{
    if 0 <= at && at + pattern.len() <= text.len() {
        let part = text.subrange(at, at + pattern.len());
        if occurs_at(text, pattern, at) {
            assert forall|k: int| 0 <= k < pattern.len() implies text[at + k]
                == #[trigger] pattern[k] by {
                assert(part[k] == text[at + k]);
            }
        }
        if forall|k: int| 0 <= k < pattern.len() ==> text[at + k] == #[trigger] pattern[k] {
            assert(part =~= pattern);
        }
    }
}

/// A pattern that stands nowhere in a text has no first position in it.
proof fn lemma_absent(text: Seq<char>, pattern: Seq<char>)
    requires
        !occurs(text, pattern),
    ensures
        first_occurrence(text, pattern) is None,
{
    assert forall|at: int| !is_first(text, pattern, at) by {
        if is_first(text, pattern, at) {
            assert(occurs_at(text, pattern, at));
        }
    }
}

/// A pattern that stands nowhere in a text stands nowhere in its suffixes.
proof fn lemma_absent_in_suffix(text: Seq<char>, pattern: Seq<char>, from: int)
    requires
        0 <= from <= text.len(),
        !occurs(text, pattern),
    ensures
        !occurs(text.skip(from), pattern),
{
    assert forall|at: int| !occurs_at(text.skip(from), pattern, at) by {
        lemma_occurs_in_suffix(text, pattern, from, at);
        if occurs_at(text.skip(from), pattern, at) {
            assert(occurs_at(text, pattern, from + at));
        }
    }
}

/// What the first position found by [`first_occurrence`] is.
proof fn lemma_first_found(text: Seq<char>, pattern: Seq<char>)
    ensures
        first_occurrence(text, pattern) matches Some(at) ==> is_first(text, pattern, at),
{
}

/// In `left + new_open + more`, where `new_open` stands nowhere in `left`
/// and its first character stands nowhere else in it, the first
/// `new_open` is the one behind `left`.
proof fn lemma_first_after_left(left: Seq<char>, new_open: Seq<char>, more: Seq<char>)
    requires
        new_open.len() > 0,
        forall|k: int| 0 < k < new_open.len() ==> #[trigger] new_open[k] != new_open[0],
        !occurs(left, new_open),
    ensures
        is_first(left + new_open + more, new_open, left.len() as int),
{
    let whole = left + new_open + more;
    let at = left.len() as int;
    lemma_occurs_chars(whole, new_open, at);
    assert(occurs_at(whole, new_open, at));
    assert forall|j: int| 0 <= j < at implies !occurs_at(whole, new_open, j) by {
        lemma_occurs_chars(whole, new_open, j);
        lemma_occurs_chars(left, new_open, j);
        if occurs_at(whole, new_open, j) {
            if j + new_open.len() <= at {
                assert forall|k: int| 0 <= k < new_open.len() implies left[j + k]
                    == #[trigger] new_open[k] by {
                    assert(whole[j + k] == left[j + k]);
                }
                assert(occurs_at(left, new_open, j));
            } else {
                let k = at - j;
                assert(whole[j + k] == new_open[k]);
                assert(whole[at] == new_open[0]);
            }
        }
    }
}

/// In `body + close + after + more`, where the first `close` of
/// `body + close + rest` stands behind `body`, the first `close + after`
/// stands behind `body` too.
proof fn lemma_first_after_body(
    body: Seq<char>,
    close: Seq<char>,
    after: Seq<char>,
    rest: Seq<char>,
    more: Seq<char>,
)
    requires
        is_first(body + close + rest, close, body.len() as int),
    ensures
        is_first(body + (close + after) + more, close + after, body.len() as int),
{
    let right = body + close + rest;
    let whole = body + (close + after) + more;
    let new_close = close + after;
    let end = body.len() as int;
    lemma_occurs_chars(whole, new_close, end);
    assert(occurs_at(whole, new_close, end));
    assert forall|j: int| 0 <= j < end implies !occurs_at(whole, new_close, j) by {
        lemma_occurs_chars(whole, new_close, j);
        lemma_occurs_chars(right, close, j);
        if occurs_at(whole, new_close, j) {
            assert forall|k: int| 0 <= k < close.len() implies right[j + k]
                == #[trigger] close[k] by {
                assert(whole[j + k] == new_close[k]);
                assert(new_close[k] == close[k]);
                if j + k < end {
                    assert(whole[j + k] == right[j + k]);
                } else {
                    assert(whole[j + k] == new_close[j + k - end]);
                    assert(right[j + k] == close[j + k - end]);
                }
            }
            assert(occurs_at(right, close, j));
        }
    }
}

/// A text with a first `open` at `at` and the first `close` behind it at
/// `end` is `left + open + body + close + rest`.
proof fn lemma_span_parts(text: Seq<char>, open: Seq<char>, close: Seq<char>, at: int, end: int)
    requires
        is_first(text, open, at),
        is_first(text.skip(at + open.len()), close, end),
    ensures
        text == text.take(at) + open + text.skip(at + open.len()).take(end) + close + text.skip(
            at + open.len(),
        ).skip(end + close.len()),
        text.skip(at + open.len()) == text.skip(at + open.len()).take(end) + close + text.skip(
            at + open.len(),
        ).skip(end + close.len()),
{
    let right = text.skip(at + open.len());
    lemma_occurs_chars(text, open, at);
    lemma_occurs_chars(right, close, end);
    assert(right =~= right.take(end) + close + right.skip(end + close.len()));
    assert(text =~= text.take(at) + open + right.take(end) + close + right.skip(
        end + close.len(),
    ));
}

/// Unwrapping undoes wrapping. Let the wrapper put `before` in front of
/// each `open` and `after` behind each `close`, where the first character
/// of `before` stands nowhere else in `before + open`. Then on a text that
/// holds neither `before + open` nor `close + after`, and in which every
/// span is closed, wrapping and then unwrapping gives the text back.
pub proof fn lemma_unwrap_wrap(
    text: Seq<char>,
    open: Seq<char>,
    close: Seq<char>,
    before: Seq<char>,
    after: Seq<char>,
)
    requires
        open.len() > 0,
        close.len() > 0,
        before.len() > 0,
        forall|k: int|
            0 < k < (before + open).len() ==> #[trigger] (before + open)[k] != before[0],
        !occurs(text, before + open),
        !occurs(text, close + after),
        all_closed(text, open, close),
    ensures
        rewrap(
            rewrap(text, open, close, before + open, close + after),
            before + open,
            close + after,
            open,
            close,
        ) == text,
    decreases text.len(),
{
    let new_open = before + open;
    let new_close = close + after;
    let wrapped = rewrap(text, open, close, new_open, new_close);
    lemma_first_found(text, open);
    match first_occurrence(text, open) {
        None => {
            lemma_absent(text, new_open);
        },
        Some(at) => {
            let left = text.take(at);
            let right = text.skip(at + open.len());
            lemma_first_found(right, close);
            let end = first_occurrence(right, close)->Some_0;
            let body = right.take(end);
            let rest = right.skip(end + close.len());
            let tail = rewrap(rest, open, close, new_open, new_close);
            lemma_span_parts(text, open, close, at, end);
            assert(wrapped == left + new_open + body + new_close + tail);
            // The wrapped opener is the first one in the wrapped text.
            assert(!occurs(left, new_open)) by {
                assert forall|j: int| !occurs_at(left, new_open, j) by {
                    if occurs_at(left, new_open, j) {
                        assert(left.subrange(j, j + new_open.len()) =~= text.subrange(
                            j,
                            j + new_open.len(),
                        ));
                        assert(occurs_at(text, new_open, j));
                    }
                }
            }
            assert(wrapped =~= left + new_open + (body + new_close + tail));
            lemma_first_after_left(left, new_open, body + new_close + tail);
            lemma_first_is(wrapped, new_open, at);
            // The wrapped closer is the first one behind it.
            let wrapped_right = wrapped.skip(at + new_open.len());
            assert(wrapped_right =~= body + new_close + tail);
            lemma_first_after_body(body, close, after, rest, tail);
            lemma_first_is(wrapped_right, new_close, end);
            assert(wrapped_right.skip(end + new_close.len()) =~= tail);
            assert(wrapped.take(at) =~= left);
            assert(wrapped_right.take(end) =~= body);
            // What is left of the text is shorter, and the claim holds of it.
            lemma_absent_in_suffix(text, new_open, at + open.len());
            lemma_absent_in_suffix(right, new_open, end + close.len());
            lemma_absent_in_suffix(text, new_close, at + open.len());
            lemma_absent_in_suffix(right, new_close, end + close.len());
            lemma_unwrap_wrap(rest, open, close, before, after);
        },
    }
}

/// Hiding `{{ ... }}` brings no wrapper of `{% ... %}` into a text: where
/// `wrapper` is `<!--{%` or `%}-->` and stands nowhere in a text whose
/// `{{` are all closed, it stands nowhere in the text that the first pass
/// of the escaping gives.
pub proof fn lemma_first_pass_keeps_absent(text: Seq<char>, wrapper: Seq<char>)
    requires
        wrapper == "<!--{%"@ || wrapper == "%}-->"@,
        !occurs(text, wrapper),
        all_closed(text, "{{"@, "}}"@),
    ensures
        !occurs(rewrap(text, "{{"@, "}}"@, "<!--{{"@, "}}-->"@), wrapper),
    decreases text.len(),
{
    reveal_strlit("{{");
    reveal_strlit("}}");
    reveal_strlit("<!--{{");
    reveal_strlit("}}-->");
    reveal_strlit("<!--{%");
    reveal_strlit("%}-->");
    let open = "{{"@;
    let close = "}}"@;
    let new_open = "<!--{{"@;
    let new_close = "}}-->"@;
    let wrapped = rewrap(text, open, close, new_open, new_close);
    lemma_first_found(text, open);
    match first_occurrence(text, open) {
        None => {},
        Some(at) => {
            let right = text.skip(at + 2);
            lemma_first_found(right, close);
            let end = first_occurrence(right, close)->Some_0;
            let rest = right.skip(end + 2);
            let tail = rewrap(rest, open, close, new_open, new_close);
            lemma_absent_in_suffix(text, wrapper, at + 2);
            lemma_absent_in_suffix(right, wrapper, end + 2);
            lemma_first_pass_keeps_absent(rest, wrapper);
            assert(wrapped == text.take(at) + new_open + right.take(end) + new_close + tail);
            let close_at = at + 6 + end;
            let tail_at = close_at + 5;
            let n = wrapper.len() as int;
            assert forall|i: int| !occurs_at(wrapped, wrapper, i) by {
                lemma_occurs_chars(wrapped, wrapper, i);
                if occurs_at(wrapped, wrapper, i) {
                    if i + n <= at {
                        lemma_occurs_chars(text, wrapper, i);
                        assert forall|k: int| 0 <= k < n implies text[i + k]
                            == #[trigger] wrapper[k] by {
                            assert(wrapped[i + k] == text[i + k]);
                        }
                        assert(occurs_at(text, wrapper, i));
                    } else if i >= tail_at {
                        lemma_occurs_chars(tail, wrapper, i - tail_at);
                        assert forall|k: int| 0 <= k < n implies tail[i - tail_at + k]
                            == #[trigger] wrapper[k] by {
                            assert(wrapped[i + k] == tail[i - tail_at + k]);
                        }
                        assert(occurs_at(tail, wrapper, i - tail_at));
                    } else if at + 4 <= i && i + n <= close_at + 2 {
                        lemma_occurs_chars(text, wrapper, i - 4);
                        lemma_occurs_chars(text, open, at);
                        lemma_occurs_chars(right, close, end);
                        assert forall|k: int| 0 <= k < n implies text[i - 4 + k]
                            == #[trigger] wrapper[k] by {
                            assert(wrapped[i + k] == wrapper[k]);
                            let w = i + k;
                            if w < at + 6 {
                                assert(wrapped[w] == new_open[w - at]);
                                assert(text[w - 4] == open[w - 4 - at]);
                            } else if w < close_at {
                                assert(wrapped[w] == right[w - at - 6]);
                            } else {
                                assert(wrapped[w] == new_close[w - close_at]);
                                assert(right[end + (w - close_at)] == close[w - close_at]);
                            }
                        }
                        assert(occurs_at(text, wrapper, i - 4));
                    } else {
                        assert(wrapped[at] == '<');
                        assert(wrapped[at + 1] == '!');
                        assert(wrapped[at + 2] == '-');
                        assert(wrapped[at + 3] == '-');
                        assert(wrapped[at + 4] == '{');
                        assert(wrapped[at + 5] == '{');
                        assert(wrapped[close_at] == '}');
                        assert(wrapped[close_at + 1] == '}');
                        assert(wrapped[close_at + 2] == '-');
                        assert(wrapped[close_at + 3] == '-');
                        assert(wrapped[close_at + 4] == '>');
                        assert(wrapped[i] == wrapper[0]);
                        assert(wrapped[i + 1] == wrapper[1]);
                        assert(wrapped[i + 2] == wrapper[2]);
                        assert(wrapped[i + 3] == wrapper[3]);
                        assert(wrapped[i + 4] == wrapper[4]);
                        if n == 6 {
                            assert(wrapped[i + 5] == wrapper[5]);
                        }
                        assert(false);
                    }
                }
            }
        },
    }
}

/// Restoring undoes hiding: on a text that holds none of the four wrapper
/// strings and in which every shortcode is closed, unescaping the escaped
/// text gives the text back. (A shortcode that is left open is closed by
/// the escaping, and comes back closed.)
pub proof fn lemma_unescape_escape(text: Seq<char>)
    requires
        without_wrappers(text),
        shortcodes_closed(text),
    ensures
        unescaped(escaped(text)) == text,
{
    reveal_strlit("{{");
    reveal_strlit("}}");
    reveal_strlit("{%");
    reveal_strlit("%}");
    reveal_strlit("<!--");
    reveal_strlit("-->");
    reveal_strlit("<!--{{");
    reveal_strlit("}}-->");
    reveal_strlit("<!--{%");
    reveal_strlit("%}-->");
    let before = "<!--"@;
    let after = "-->"@;
    assert(before + "{{"@ =~= "<!--{{"@);
    assert("}}"@ + after =~= "}}-->"@);
    assert(before + "{%"@ =~= "<!--{%"@);
    assert("%}"@ + after =~= "%}-->"@);
    let first = rewrap(text, "{{"@, "}}"@, "<!--{{"@, "}}-->"@);
    lemma_first_pass_keeps_absent(text, "<!--{%"@);
    lemma_first_pass_keeps_absent(text, "%}-->"@);
    lemma_unwrap_wrap(first, "{%"@, "%}"@, before, after);
    lemma_unwrap_wrap(text, "{{"@, "}}"@, before, after);
}

} // verus!
