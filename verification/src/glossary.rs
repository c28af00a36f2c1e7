//! Glossaries: the table of entries that is registered with the service.

use vstd::prelude::*;
use crate::deepl::{
    authorization_of, endpoint_url, pairs_of, push_param, Deepl, Method, Request, RequestView,
};
use crate::language::Language;
use crate::text::{append_range, chars_of, join, joined, string_of, texts_of};

verus! {

/// A glossary as the service describes it.
#[derive(Clone, Debug, PartialEq, Eq)]
pub struct DeeplGlossary {
    pub glossary_id: String,
    pub name: String,
    pub ready: bool,
    pub source_lang: String,
    pub target_lang: String,
    pub creation_time: String,
    pub entry_count: i32,
}

/// An entry of a glossary: a term of the source language and what it is
/// to be translated to.
pub type Entry = (Seq<char>, Seq<char>);

/// Whether a character is white space: a character with the Unicode
/// property `White_Space`.
pub open spec fn is_space(c: char) -> bool {
    let code = c as u32;
    ||| 0x09 <= code <= 0x0d
    ||| code == 0x20
    ||| code == 0x85
    ||| code == 0xa0
    ||| code == 0x1680
    ||| 0x2000 <= code <= 0x200a
    ||| code == 0x2028
    ||| code == 0x2029
    ||| code == 0x202f
    ||| code == 0x205f
    ||| code == 0x3000
}

/// The number of white space characters that `text` starts with.
pub open spec fn leading_spaces(text: Seq<char>) -> nat
    decreases text.len(),
{
    if text.len() > 0 && is_space(text[0]) {
        1 + leading_spaces(text.skip(1))
    } else {
        0
    }
}

/// The number of white space characters that `text` ends with.
pub open spec fn trailing_spaces(text: Seq<char>) -> nat
    decreases text.len(),
{
    if text.len() > 0 && is_space(text.last()) {
        1 + trailing_spaces(text.drop_last())
    } else {
        0
    }
}

/// `text` without the white space at its start and at its end.
pub open spec fn trimmed(text: Seq<char>) -> Seq<char> {
    let rest = text.skip(leading_spaces(text) as int);
    rest.take(rest.len() - trailing_spaces(rest))
}

/// Whether `a` comes before `b`, or is `b`, in the order of strings:
/// character by character, and a prefix before what it is a prefix of.
pub open spec fn in_order(a: Seq<char>, b: Seq<char>) -> bool
    decreases a.len(),
{
    if a.len() == 0 {
        true
    } else if b.len() == 0 {
        false
    } else if a[0] as u32 != b[0] as u32 {
        (a[0] as u32) < (b[0] as u32)
    } else {
        in_order(a.skip(1), b.skip(1))
    }
}

/// The entries that are registered, in their order: each entry trimmed,
/// without those of which one side is then empty.
pub open spec fn kept(entries: Seq<Entry>) -> Seq<Entry>
    decreases entries.len(),
{
    if entries.len() == 0 {
        Seq::empty()
    } else {
        let before = kept(entries.drop_last());
        let source = trimmed(entries.last().0);
        let target = trimmed(entries.last().1);
        if source.len() == 0 || target.len() == 0 {
            before
        } else {
            before.push((source, target))
        }
    }
}

/// `entry` put into `sorted` behind the last entry whose source does not
/// come after its own.
pub open spec fn inserted(sorted: Seq<Entry>, entry: Entry) -> Seq<Entry>
    decreases sorted.len(),
{
    if sorted.len() == 0 || in_order(sorted.last().0, entry.0) {
        sorted.push(entry)
    } else {
        inserted(sorted.drop_last(), entry).push(sorted.last())
    }
}

/// The entries in the order of their sources; entries of one source keep
/// the order in which they came.
pub open spec fn sorted(entries: Seq<Entry>) -> Seq<Entry>
    decreases entries.len(),
{
    if entries.len() == 0 {
        Seq::empty()
    } else {
        inserted(sorted(entries.drop_last()), entries.last())
    }
}

/// The rows of a table of entries: source, a tab, target.
pub open spec fn rows(entries: Seq<Entry>) -> Seq<Seq<char>> {
    Seq::new(entries.len(), |i: int| entries[i].0 + "\t"@ + entries[i].1)
}

/// The table that is registered for some entries: the kept entries in the
/// order of their sources, one row each, with a line feed between two
/// rows.
pub open spec fn entries_tsv(entries: Seq<Entry>) -> Seq<char> {
    joined(rows(sorted(kept(entries))), "\n"@)
}

/// The views of a sequence of pairs of strings, as entries.
pub open spec fn entries_of(pairs: Seq<(String, String)>) -> Seq<Entry> {
    Seq::new(pairs.len(), |i: int| (pairs[i].0@, pairs[i].1@))
}

/// The views of a sequence of pairs of character vectors, as entries.
pub open spec fn char_entries(pairs: Seq<(Vec<char>, Vec<char>)>) -> Seq<Entry> {
    Seq::new(pairs.len(), |i: int| (pairs[i].0@, pairs[i].1@))
}

/// Whether the sources of the entries are in order.
pub open spec fn is_sorted(entries: Seq<Entry>) -> bool {
    forall|i: int, j: int|
        0 <= i <= j < entries.len() ==> in_order(#[trigger] entries[i].0, #[trigger] entries[j].0)
}

/// The order of strings is total.
pub proof fn lemma_order_total(a: Seq<char>, b: Seq<char>)
    ensures
        in_order(a, b) || in_order(b, a),
    decreases a.len(),
{
    if a.len() > 0 && b.len() > 0 && a[0] as u32 == b[0] as u32 {
        lemma_order_total(a.skip(1), b.skip(1));
    }
}

/// The order of strings is transitive.
pub proof fn lemma_order_transitive(a: Seq<char>, b: Seq<char>, c: Seq<char>)
    requires
        in_order(a, b),
        in_order(b, c),
    ensures
        in_order(a, c),
    decreases a.len(),
{
    if a.len() > 0 && b.len() > 0 && c.len() > 0 && a[0] as u32 == b[0] as u32 && b[0] as u32
        == c[0] as u32 {
        lemma_order_transitive(a.skip(1), b.skip(1), c.skip(1));
    }
}

/// Putting an entry into sorted entries keeps them sorted, and keeps every
/// entry.
pub proof fn lemma_inserted(entries: Seq<Entry>, entry: Entry)
    requires
        is_sorted(entries),
    ensures
        is_sorted(inserted(entries, entry)),
        inserted(entries, entry).to_multiset() == entries.to_multiset().insert(entry),
        inserted(entries, entry).len() == entries.len() + 1,
    decreases entries.len(),
{
    broadcast use vstd::seq_lib::group_to_multiset_ensures;

    let out = inserted(entries, entry);
    if entries.len() == 0 || in_order(entries.last().0, entry.0) {
        assert forall|i: int, j: int| 0 <= i <= j < out.len() implies in_order(
            #[trigger] out[i].0,
            #[trigger] out[j].0,
        ) by {
            if j == entries.len() {
                if i < j {
                    lemma_order_transitive(entries[i].0, entries.last().0, entry.0);
                } else {
                    lemma_order_total(entry.0, entry.0);
                }
            }
        }
    } else {
        let init = entries.drop_last();
        let last = entries.last();
        assert(is_sorted(init)) by {
            assert forall|i: int, j: int| 0 <= i <= j < init.len() implies in_order(
                #[trigger] init[i].0,
                #[trigger] init[j].0,
            ) by {
                assert(init[i] == entries[i] && init[j] == entries[j]);
            }
        }
        lemma_inserted(init, entry);
        let head = inserted(init, entry);
        lemma_order_total(last.0, entry.0);
        assert forall|i: int, j: int| 0 <= i <= j < out.len() implies in_order(
            #[trigger] out[i].0,
            #[trigger] out[j].0,
        ) by {
            if j == head.len() {
                if i < j {
                    // Every entry of `head` is `entry` or an entry of `init`.
                    assert(head.to_multiset().count(head[i]) > 0);
                    if head[i] == entry {
                    } else {
                        assert(init.to_multiset().count(head[i]) > 0);
                        let k = choose|k: int| 0 <= k < init.len() && init[k] == head[i];
                        assert(init[k] == entries[k]);
                        assert(in_order(entries[k].0, entries[entries.len() - 1].0));
                    }
                } else {
                    lemma_order_total(last.0, last.0);
                }
            } else {
                assert(out[i] == head[i] && out[j] == head[j]);
            }
        }
        assert(entries =~= init.push(last));
    }
}

/// The sorted entries are in the order of their sources, and they are the
/// entries that came, each as often as it came.
pub proof fn lemma_sorted(entries: Seq<Entry>)
    ensures
        is_sorted(sorted(entries)),
        sorted(entries).to_multiset() == entries.to_multiset(),
        sorted(entries).len() == entries.len(),
    decreases entries.len(),
{
    broadcast use vstd::seq_lib::group_to_multiset_ensures;

    if entries.len() > 0 {
        lemma_sorted(entries.drop_last());
        lemma_inserted(sorted(entries.drop_last()), entries.last());
        assert(entries =~= entries.drop_last().push(entries.last()));
    }
}

/// Whether a character is white space.
fn is_space_char(c: char) -> (r: bool)
    ensures
        r == is_space(c),
{
    let code: u32 = c as u32;
    (0x09 <= code && code <= 0x0d) || code == 0x20 || code == 0x85 || code == 0xa0 || code
        == 0x1680 || (0x2000 <= code && code <= 0x200a) || code == 0x2028 || code == 0x2029
        || code == 0x202f || code == 0x205f || code == 0x3000
}

/// The characters of `text` without the white space at its start and at
/// its end.
pub fn trim_chars(text: &str) -> (kept_chars: Vec<char>)
    ensures
        kept_chars@ == trimmed(text@),
{
    let chars = chars_of(text);
    let mut start: usize = 0;
    assert(chars@.skip(0) =~= chars@);
    while start < chars.len() && is_space_char(chars[start])
        invariant
            start <= chars.len(),
            leading_spaces(chars@) == start + leading_spaces(chars@.skip(start as int)),
        decreases chars.len() - start,
    {
        assert(chars@.skip(start as int).skip(1) =~= chars@.skip(start + 1));
        start += 1;
    }
    assert(leading_spaces(chars@) == start);
    let ghost rest = chars@.skip(start as int);
    let mut end: usize = chars.len();
    assert(rest.take(end - start) =~= rest);
    while end > start && is_space_char(chars[end - 1])
        invariant
            start <= end <= chars.len(),
            rest == chars@.skip(start as int),
            trailing_spaces(rest) == (chars.len() - end) + trailing_spaces(
                rest.take(end - start),
            ),
        decreases end,
    {
        assert(rest.take(end - start).drop_last() =~= rest.take(end - start - 1));
        assert(rest.take(end - start).last() == chars@[end - 1]);
        end -= 1;
    }
    proof {
        let tail = rest.take(end - start);
        if end > start {
            assert(tail.last() == chars@[end - 1]);
        }
        assert(trailing_spaces(tail) == 0);
    }
    let mut kept_chars: Vec<char> = Vec::new();
    append_range(&mut kept_chars, &chars, start, end);
    assert(kept_chars@ =~= rest.take(rest.len() - trailing_spaces(rest)));
    kept_chars
}

/// Whether `a` comes before `b`, or is `b`, in the order of strings.
pub fn chars_in_order(a: &Vec<char>, b: &Vec<char>) -> (r: bool)
    ensures
        r == in_order(a@, b@),
{
    let mut i: usize = 0;
    assert(a@.skip(0) =~= a@ && b@.skip(0) =~= b@);
    while i < a.len() && i < b.len()
        invariant
            i <= a.len(),
            i <= b.len(),
            in_order(a@, b@) == in_order(a@.skip(i as int), b@.skip(i as int)),
        decreases a.len() - i,
    {
        let x: u32 = a[i] as u32;
        let y: u32 = b[i] as u32;
        if x != y {
            return x < y;
        }
        assert(a@.skip(i as int).skip(1) =~= a@.skip(i + 1));
        assert(b@.skip(i as int).skip(1) =~= b@.skip(i + 1));
        i += 1;
    }
    i == a.len()
}

/// Puts `entry` into the sorted `entries`, behind the last entry whose
/// source does not come after its own.
fn insert_entry(entries: &mut Vec<(Vec<char>, Vec<char>)>, entry: (Vec<char>, Vec<char>))
    ensures
        char_entries(final(entries)@) == inserted(
            char_entries(old(entries)@),
            (entry.0@, entry.1@),
        ),
{
    let ghost all = char_entries(entries@);
    let ghost new = (entry.0@, entry.1@);
    let mut at: usize = entries.len();
    assert(all.take(at as int) =~= all);
    assert(inserted(all, new) =~= inserted(all.take(at as int), new) + all.skip(at as int));
    while at > 0 && !chars_in_order(&entries[at - 1].0, &entry.0)
        invariant
            at <= entries.len(),
            all == char_entries(entries@),
            new == (entry.0@, entry.1@),
            inserted(all, new) == inserted(all.take(at as int), new) + all.skip(at as int),
        decreases at,
    {
        proof {
            let part = all.take(at as int);
            assert(part.last() == all[at - 1]);
            assert(part.drop_last() =~= all.take(at - 1));
            assert(inserted(part, new) == inserted(all.take(at - 1), new).push(all[at - 1]));
            assert(inserted(part, new) + all.skip(at as int) =~= inserted(
                all.take(at - 1),
                new,
            ) + all.skip(at - 1));
        }
        at -= 1;
    }
    proof {
        let part = all.take(at as int);
        if at > 0 {
            assert(part.last() == all[at - 1]);
        }
        assert(inserted(part, new) == part.push(new));
    }
    entries.insert(at, entry);
    assert(char_entries(entries@) =~= all.take(at as int).push(new) + all.skip(at as int));
}

/// The table that is registered for some entries: each entry trimmed,
/// those with an empty side left out, the others in the order of their
/// sources, one row `source<TAB>target` each.
pub fn glossary_tsv(glossaries: &Vec<(String, String)>) -> (tsv: String)
    ensures
        tsv@ == entries_tsv(entries_of(glossaries@)),
{
    let ghost given = entries_of(glossaries@);
    let mut entries: Vec<(Vec<char>, Vec<char>)> = Vec::new();
    let mut i: usize = 0;
    assert(char_entries(entries@) =~= sorted(kept(given.take(0))));
    while i < glossaries.len()
        invariant
            i <= glossaries.len(),
            given == entries_of(glossaries@),
            char_entries(entries@) == sorted(kept(given.take(i as int))),
        decreases glossaries.len() - i,
    {
        let source = trim_chars(glossaries[i].0.as_str());
        let target = trim_chars(glossaries[i].1.as_str());
        proof {
            let now = given.take(i + 1);
            assert(now.drop_last() =~= given.take(i as int));
            assert(now.last() == given[i as int]);
            let before = kept(given.take(i as int));
            if source@.len() != 0 && target@.len() != 0 {
                let next = before.push((source@, target@));
                assert(kept(now) == next);
                assert(next.drop_last() =~= before);
            }
        }
        if source.len() != 0 && target.len() != 0 {
            insert_entry(&mut entries, (source, target));
        }
        i += 1;
    }
    assert(given.take(i as int) =~= given);
    let ghost ordered = char_entries(entries@);
    let mut lines: Vec<String> = Vec::new();
    let mut k: usize = 0;
    assert(texts_of(lines@) =~= rows(ordered.take(0)));
    while k < entries.len()
        invariant
            k <= entries.len(),
            ordered == char_entries(entries@),
            texts_of(lines@) == rows(ordered.take(k as int)),
        decreases entries.len() - k,
    {
        let mut line = string_of(&entries[k].0);
        line.append("\t");
        let target = string_of(&entries[k].1);
        line.append(target.as_str());
        assert(line@ == ordered[k as int].0 + "\t"@ + ordered[k as int].1);
        let ghost before = lines@;
        lines.push(line);
        assert(texts_of(lines@) =~= texts_of(before).push(line@));
        assert(rows(ordered.take(k + 1)) =~= rows(ordered.take(k as int)).push(
            ordered[k as int].0 + "\t"@ + ordered[k as int].1,
        ));
        k += 1;
    }
    assert(ordered.take(k as int) =~= ordered);
    join(&lines, "\n")
}

impl Deepl {
    /// The request that registers a glossary under `name` for a language
    /// pair, with the table of its entries.
    pub fn register_glossaries_request(
        &self,
        name: &str,
        from_lang: Language,
        to_lang: Language,
        glossaries: &Vec<(String, String)>,
    ) -> (request: Request)
        ensures
            request@ == (RequestView {
                method: Method::Post,
                url: endpoint_url(self.config.api_key@, "glossaries"@),
                authorization: authorization_of(self.config.api_key@),
                params: seq![
                    ("name"@, name@),
                    ("source_lang"@, from_lang.source_code()),
                    ("target_lang"@, to_lang.target_code()),
                    ("entries_format"@, "tsv"@),
                    ("entries"@, entries_tsv(entries_of(glossaries@))),
                ],
            }),
    {
        let tsv = glossary_tsv(glossaries);
        let mut params: Vec<(String, String)> = Vec::new();
        assert(pairs_of(params@) =~= Seq::empty());
        push_param(&mut params, "name", name);
        push_param(&mut params, "source_lang", from_lang.as_src_langcode());
        push_param(&mut params, "target_lang", to_lang.as_langcode());
        push_param(&mut params, "entries_format", "tsv");
        push_param(&mut params, "entries", tsv.as_str());
        assert(pairs_of(params@) =~= seq![
            ("name"@, name@),
            ("source_lang"@, from_lang.source_code()),
            ("target_lang"@, to_lang.target_code()),
            ("entries_format"@, "tsv"@),
            ("entries"@, entries_tsv(entries_of(glossaries@))),
        ]);
        self.request(Method::Post, "glossaries", params)
    }
}

} // verus!
