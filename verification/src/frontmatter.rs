//! Parting the front matter of a CommonMark file from its body.

use vstd::prelude::*;
use crate::text::{
    append_range, chars_of, find, first_occurrence, lemma_first_is, matches_at, occurs_at,
    string_of, texts_of,
};

verus! {

/// Why a file could not be parted.
#[derive(Clone, Copy, Debug, PartialEq, Eq, Structural)]
pub enum FrontmatterError {
    /// The front matter is opened and never closed.
    UnexpectedEof,
}

/// A file parted at the first two delimiters: the body behind the second
/// one, and the front matter between the two. What stands before the first
/// delimiter is dropped. `None` where the text has fewer than two
/// delimiters.
pub open spec fn parted(text: Seq<char>, delimiter: Seq<char>) -> Option<(Seq<char>, Seq<char>)> {
    match first_occurrence(text, delimiter) {
        None => None,
        Some(at) => {
            let right = text.skip(at + delimiter.len());
            match first_occurrence(right, delimiter) {
                None => None,
                Some(end) => Some((right.skip(end + delimiter.len()), right.take(end))),
            }
        },
    }
}

/// The body and the front matter of a file. A text that starts with `+++`
/// is parted at `+++`, one that starts with `---` at `---`, and a front
/// matter that is not closed is an error; any other text is all body.
pub open spec fn read_result(text: Seq<char>) -> Result<
    (Seq<char>, Option<Seq<char>>),
    FrontmatterError,
> {
    let delimiter = if occurs_at(text, "+++"@, 0) {
        Some("+++"@)
    } else if occurs_at(text, "---"@, 0) {
        Some("---"@)
    } else {
        None
    };
    match delimiter {
        None => Ok((text, None)),
        Some(d) => match parted(text, d) {
            Some((body, front)) => Ok((body, Some(front))),
            None => Err(FrontmatterError::UnexpectedEof),
        },
    }
}

/// The view of an optional string.
pub open spec fn optional_text(text: Option<String>) -> Option<Seq<char>> {
    match text {
        Some(t) => Some(t@),
        None => None,
    }
}

/// Parts a file at the first two delimiters.
fn split_frontmatter(filebody: &Vec<char>, delimiter: &Vec<char>) -> (r: Result<
    (String, Option<String>),
    FrontmatterError,
>)
    requires
        delimiter.len() > 0,
    ensures
        match r {
            Ok((body, front)) => parted(filebody@, delimiter@) == Some(
                (body@, optional_text(front)->Some_0),
            ) && front is Some,
            Err(e) => parted(filebody@, delimiter@) is None && e
                == FrontmatterError::UnexpectedEof,
        },
{
    assert(filebody@.skip(0) =~= filebody@);
    let opened = find(filebody, delimiter, 0);
    if opened.is_none() {
        return Err(FrontmatterError::UnexpectedEof);
    }
    let at: usize = opened.unwrap();
    let start: usize = at + delimiter.len();
    let ghost right = filebody@.skip(start as int);
    proof {
        lemma_first_is(filebody@, delimiter@, at as int);
    }
    let closed = find(filebody, delimiter, start);
    if closed.is_none() {
        return Err(FrontmatterError::UnexpectedEof);
    }
    let end: usize = closed.unwrap();
    proof {
        lemma_first_is(right, delimiter@, end - start);
    }
    let mut front: Vec<char> = Vec::new();
    append_range(&mut front, filebody, start, end);
    let mut body: Vec<char> = Vec::new();
    append_range(&mut body, filebody, end + delimiter.len(), filebody.len());
    proof {
        assert(front@ =~= right.take(end - start));
        assert(body@ =~= right.skip(end - start + delimiter.len()));
    }
    Ok((string_of(&body), Some(string_of(&front))))
}

/// Whether `text` starts with `prefix`.
fn starts_with(text: &Vec<char>, prefix: &Vec<char>) -> (r: bool)
    ensures
        r == occurs_at(text@, prefix@, 0),
{
    if prefix.len() > text.len() {
        false
    } else {
        matches_at(text, prefix, 0)
    }
}

/// Parts the text of a CommonMark file into its body and its front
/// matter. A file that starts with `+++` has front matter up to the next
/// `+++`, one that starts with `---` up to the next `---`; the body is
/// what follows. Any other file is all body. A front matter that is not
/// closed is an error.
pub fn read_cmark_with_frontmatter(text: &str) -> (r: Result<
    (String, Option<String>),
    FrontmatterError,
>)
    ensures
        match r {
            Ok((body, front)) => read_result(text@) == Ok::<_, FrontmatterError>(
                (body@, optional_text(front)),
            ),
            Err(e) => read_result(text@) == Err::<(Seq<char>, Option<Seq<char>>), _>(e),
        },
{
    proof {
        reveal_strlit("+++");
        reveal_strlit("---");
    }
    let chars = chars_of(text);
    let plus = chars_of("+++");
    let minus = chars_of("---");
    if starts_with(&chars, &plus) {
        split_frontmatter(&chars, &plus)
    } else if starts_with(&chars, &minus) {
        split_frontmatter(&chars, &minus)
    } else {
        Ok((string_of(&chars), None))
    }
}

/// What a file read line by line is parted into.
pub struct Parts {
    pub frontmatter: Seq<char>,
    pub body: Seq<char>,
    /// Whether the front matter is still open behind the last line.
    pub in_frontmatter: bool,
}

/// A file parted line by line. A first line that starts with `+++` opens
/// the front matter, and the next line that starts with `+++` closes it;
/// neither belongs to any part. Every other line goes, with a line feed
/// behind it, to the front matter while that is open and to the body
/// otherwise.
pub open spec fn parted_lines(lines: Seq<Seq<char>>) -> Parts
    decreases lines.len(),
{
    if lines.len() == 0 {
        Parts { frontmatter: Seq::empty(), body: Seq::empty(), in_frontmatter: false }
    } else {
        let before = parted_lines(lines.drop_last());
        let line = lines.last();
        let fence = occurs_at(line, "+++"@, 0);
        if lines.len() == 1 && fence {
            Parts { in_frontmatter: true, ..before }
        } else if before.in_frontmatter && fence {
            Parts { in_frontmatter: false, ..before }
        } else if before.in_frontmatter {
            Parts { frontmatter: before.frontmatter + line + "\n"@, ..before }
        } else {
            Parts { body: before.body + line + "\n"@, ..before }
        }
    }
}

/// Parts the lines of a CommonMark file into its front matter and its
/// body, in this order.
pub fn parse_md(lines: &Vec<String>) -> (parts: (String, String))
    ensures
        parts.0@ == parted_lines(texts_of(lines@)).frontmatter,
        parts.1@ == parted_lines(texts_of(lines@)).body,
{
    let fence = chars_of("+++");
    let mut in_frontmatter = false;
    let mut frontmatter = String::new();
    let mut body = String::new();
    let ghost all = texts_of(lines@);
    let mut i: usize = 0;
    assert(all.take(0) =~= Seq::<Seq<char>>::empty());
    while i < lines.len()
        invariant
            i <= lines.len(),
            all == texts_of(lines@),
            fence@ == "+++"@,
            frontmatter@ == parted_lines(all.take(i as int)).frontmatter,
            body@ == parted_lines(all.take(i as int)).body,
            in_frontmatter == parted_lines(all.take(i as int)).in_frontmatter,
        decreases lines.len() - i,
    {
        let line = lines[i].as_str();
        let fenced = starts_with(&chars_of(line), &fence);
        proof {
            let now = all.take(i + 1);
            assert(now.drop_last() =~= all.take(i as int));
            assert(now.last() == line@);
        }
        if i == 0 && fenced {
            in_frontmatter = true;
        } else if in_frontmatter && fenced {
            in_frontmatter = false;
        } else if in_frontmatter {
            frontmatter.append(line);
            frontmatter.append("\n");
        } else {
            body.append(line);
            body.append("\n");
        }
        i += 1;
    }
    assert(all.take(i as int) =~= all);
    (frontmatter, body)
}

/// Whether a text field of the front matter is prose to translate: the
/// title and the description of the document, and the time in the table
/// `extra`. `table` is empty for a field of the document itself.
pub open spec fn is_translated_field(table: Seq<char>, key: Seq<char>) -> bool {
    ||| table.len() == 0 && (key == "title"@ || key == "description"@)
    ||| table == "extra"@ && key == "time"@
}

/// Whether a text field of the front matter is prose to translate.
pub fn translates_field(table: &str, key: &str) -> (r: bool)
    ensures
        r == is_translated_field(table@, key@),
{
    proof {
        reveal_strlit("extra");
    }
    if table.is_empty() {
        key.eq("title") || key.eq("description")
    } else {
        table.eq("extra") && key.eq("time")
    }
}

} // verus!
