//! Hiding template shortcodes: `{{ ... }}` and `{% ... %}` are wrapped in
//! what looks like an HTML comment before a text is parsed, and unwrapped
//! after it has been written back.

use vstd::prelude::*;
use crate::text::{
    append_range, chars_of, find, first_occurrence, is_first, lemma_first_is, string_of,
};

verus! {

/// `text` with every marked span wrapped anew, scanning from the left: a
/// span starts at the first `open` and ends with the first `close` after
/// it; the span's body is kept and `open` and `close` give way to
/// `new_open` and `new_close`; the scan goes on behind the span. A span
/// whose `close` is missing runs to the end of the text. An empty `open`
/// marks nothing.
pub open spec fn rewrap(
    text: Seq<char>,
    open: Seq<char>,
    close: Seq<char>,
    new_open: Seq<char>,
    new_close: Seq<char>,
) -> Seq<char>
    decreases text.len(),
{
    if open.len() == 0 {
        text
    } else {
        match first_occurrence(text, open) {
            None => text,
            Some(at) => {
                let right = text.skip(at + open.len());
                match first_occurrence(right, close) {
                    None => text.take(at) + new_open + right + new_close,
                    Some(end) => text.take(at) + new_open + right.take(end) + new_close + rewrap(
                        right.skip(end + close.len()),
                        open,
                        close,
                        new_open,
                        new_close,
                    ),
                }
            },
        }
    }
}

/// The text with its shortcodes hidden: first every `{{ ... }}` becomes
/// `<!--{{ ... }}-->`, then every `{% ... %}` of the result becomes
/// `<!--{% ... %}-->`.
pub open spec fn escaped(text: Seq<char>) -> Seq<char> {
    rewrap(rewrap(text, "{{"@, "}}"@, "<!--{{"@, "}}-->"@), "{%"@, "%}"@, "<!--{%"@, "%}-->"@)
}

/// The text with its shortcodes restored, in the reverse order: first
/// every `<!--{% ... %}-->` becomes `{% ... %}`, then every
/// `<!--{{ ... }}-->` of the result becomes `{{ ... }}`.
pub open spec fn unescaped(text: Seq<char>) -> Seq<char> {
    rewrap(rewrap(text, "<!--{%"@, "%}-->"@, "{%"@, "%}"@), "<!--{{"@, "}}-->"@, "{{"@, "}}"@)
}

/// One step of the scan: what [`rewrap`] gives when the text has no
/// `open`, when it has one that is not closed, and when it has a span.
proof fn lemma_rewrap_step(
    text: Seq<char>,
    open: Seq<char>,
    close: Seq<char>,
    new_open: Seq<char>,
    new_close: Seq<char>,
)
    requires
        open.len() > 0,
    ensures
        first_occurrence(text, open) is None ==> rewrap(text, open, close, new_open, new_close)
            == text,
        forall|at: int|
            #![trigger is_first(text, open, at)]
            is_first(text, open, at) && first_occurrence(text.skip(at + open.len()), close)
                is None ==> rewrap(text, open, close, new_open, new_close) == text.take(at)
                + new_open + text.skip(at + open.len()) + new_close,
        forall|at: int, end: int|
            #![trigger is_first(text, open, at), is_first(text.skip(at + open.len()), close, end)]
            is_first(text, open, at) && is_first(text.skip(at + open.len()), close, end)
                ==> rewrap(text, open, close, new_open, new_close) == text.take(at) + new_open
                + text.skip(at + open.len()).take(end) + new_close + rewrap(
                text.skip(at + open.len()).skip(end + close.len()),
                open,
                close,
                new_open,
                new_close,
            ),
{
    assert forall|at: int|
        #![trigger is_first(text, open, at)]
        is_first(text, open, at) implies first_occurrence(text, open) == Some(at) by {
        lemma_first_is(text, open, at);
    }
    assert forall|at: int, end: int|
        #![trigger is_first(text, open, at), is_first(text.skip(at + open.len()), close, end)]
        is_first(text, open, at) && is_first(
            text.skip(at + open.len()),
            close,
            end,
        ) implies first_occurrence(text.skip(at + open.len()), close) == Some(end) by {
        lemma_first_is(text.skip(at + open.len()), close, end);
    }
}

/// Wraps every marked span of `text` anew.
fn rewrap_chars(
    text: &Vec<char>,
    open: &Vec<char>,
    close: &Vec<char>,
    new_open: &Vec<char>,
    new_close: &Vec<char>,
) -> (out: Vec<char>)
    requires
        open.len() > 0,
        close.len() > 0,
    ensures
        out@ == rewrap(text@, open@, close@, new_open@, new_close@),
{
    let mut out: Vec<char> = Vec::new();
    let mut pos: usize = 0;
    let ghost whole = rewrap(text@, open@, close@, new_open@, new_close@);
    assert(text@.skip(0) =~= text@);
    loop
        invariant_except_break
            whole == out@ + rewrap(text@.skip(pos as int), open@, close@, new_open@, new_close@),
        invariant
            pos <= text.len(),
            open.len() > 0,
            close.len() > 0,
        ensures
            out@ == whole,
        decreases text.len() - pos,
    {
        let ghost rest = text@.skip(pos as int);
        let ghost done = out@;
        proof {
            lemma_rewrap_step(rest, open@, close@, new_open@, new_close@);
        }
        let opened = find(text, open, pos);
        if opened.is_none() {
            append_range(&mut out, text, pos, text.len());
            assert(text@.subrange(pos as int, text.len() as int) =~= rest);
            break ;
        }
        let at: usize = opened.unwrap();
        let body: usize = at + open.len();
        let ghost right = rest.skip(at - pos + open.len());
        append_range(&mut out, text, pos, at);
        append_range(&mut out, new_open, 0, new_open.len());
        let ghost opened_out = out@;
        proof {
            assert(right =~= text@.skip(body as int));
            assert(text@.subrange(pos as int, at as int) =~= rest.take(at - pos));
            assert(new_open@.subrange(0, new_open.len() as int) =~= new_open@);
            assert(opened_out =~= done + (rest.take(at - pos) + new_open@));
        }
        let closed = find(text, close, body);
        if closed.is_none() {
            append_range(&mut out, text, body, text.len());
            append_range(&mut out, new_close, 0, new_close.len());
            proof {
                assert(text@.subrange(body as int, text.len() as int) =~= right);
                assert(new_close@.subrange(0, new_close.len() as int) =~= new_close@);
                assert(out@ =~= done + (rest.take(at - pos) + new_open@ + right + new_close@));
            }
            break ;
        }
        let end: usize = closed.unwrap();
        append_range(&mut out, text, body, end);
        append_range(&mut out, new_close, 0, new_close.len());
        proof {
            assert(is_first(right, close@, end - body));
            let tail = rewrap(
                right.skip(end - body + close.len()),
                open@,
                close@,
                new_open@,
                new_close@,
            );
            assert(text@.subrange(body as int, end as int) =~= right.take(end - body));
            assert(new_close@.subrange(0, new_close.len() as int) =~= new_close@);
            assert(right.skip(end - body + close.len()) =~= text@.skip(end + close.len()));
            assert(out@ + tail =~= done + (rest.take(at - pos) + new_open@ + right.take(
                end - body,
            ) + new_close@ + tail));
        }
        pos = end + close.len();
    }
    out
}

/// Hides the shortcodes of a CommonMark text: every `{{ ... }}` becomes
/// `<!--{{ ... }}-->`, then every `{% ... %}` becomes `<!--{% ... %}-->`.
/// A shortcode that is not closed runs to the end of the text.
pub fn escape_all_shortcodes(cmark_text: &str) -> (escaped_text: String)
    ensures
        escaped_text@ == escaped(cmark_text@),
{
    proof {
        reveal_strlit("{{");
        reveal_strlit("}}");
        reveal_strlit("{%");
        reveal_strlit("%}");
    }
    let text = chars_of(cmark_text);
    let first = rewrap_chars(
        &text,
        &chars_of("{{"),
        &chars_of("}}"),
        &chars_of("<!--{{"),
        &chars_of("}}-->"),
    );
    let second = rewrap_chars(
        &first,
        &chars_of("{%"),
        &chars_of("%}"),
        &chars_of("<!--{%"),
        &chars_of("%}-->"),
    );
    string_of(&second)
}

/// Restores the shortcodes that [`escape_all_shortcodes`] has hidden: every
/// `<!--{% ... %}-->` becomes `{% ... %}`, then every `<!--{{ ... }}-->`
/// becomes `{{ ... }}`. A wrapper that is not closed runs to the end of
/// the text.
pub fn unescape_all_shortcodes(escaped_text: &str) -> (restored: String)
    ensures
        restored@ == unescaped(escaped_text@),
{
    proof {
        reveal_strlit("<!--{{");
        reveal_strlit("}}-->");
        reveal_strlit("<!--{%");
        reveal_strlit("%}-->");
    }
    let text = chars_of(escaped_text);
    let first = rewrap_chars(
        &text,
        &chars_of("<!--{%"),
        &chars_of("%}-->"),
        &chars_of("{%"),
        &chars_of("%}"),
    );
    let second = rewrap_chars(
        &first,
        &chars_of("<!--{{"),
        &chars_of("}}-->"),
        &chars_of("{{"),
        &chars_of("}}"),
    );
    string_of(&second)
}

} // verus!
