//! What the XML form keeps of a document tree: projecting a tree and
//! reconstructing it gives the tree back, up to the attributes that the
//! mapping table does not carry.

use vstd::prelude::*;
use crate::ast::{AstTree, AstValue, NodeHeading, NodeList, TableAlignment};
use crate::mapping::{
    alignment_text, alignments_of, delimiter_text, flag_text, has_children, head_of,
    heading_tag, holds_literal, is_heading_tag, is_known_tag, list_element, list_of,
    list_type_text, project, project_all, reconstruct, reconstruct_all, value_of,
};
use crate::numeral::{decimal, digit_char, lemma_parse_decimal};
use crate::walk::{forest_size, node_size, nodes_size, tree_size};
use crate::xml::{text_of, XmlElement, XmlNode};

verus! {

/// The value with every attribute that the XML form does not carry set to
/// the one value that reconstruction gives it: the bullet of a list, the
/// fence of a code block, the setext flag of a heading, the backticks of a
/// code span.
pub open spec fn carried(value: AstValue) -> AstValue {
    match value {
        AstValue::List(list) => AstValue::List(NodeList { bullet_char: 45, ..list }),
        AstValue::Item(list) => AstValue::Item(NodeList { bullet_char: 45, ..list }),
        AstValue::CodeBlock { info, literal, .. } => AstValue::CodeBlock {
            fenced: true,
            fence_char: 96,
            fence_length: 3,
            fence_offset: 0,
            info,
            literal,
        },
        AstValue::Heading(heading) => AstValue::Heading(NodeHeading { setext: false, ..heading }),
        AstValue::Code { literal, .. } => AstValue::Code { num_backticks: 1, literal },
        other => other,
    }
}

/// The tree with [`carried`] applied to the value of every node.
pub open spec fn carried_tree(tree: AstTree) -> AstTree
    decreases tree,
{
    AstTree {
        value: carried(tree.value),
        children: Seq::new(
            tree.children.len(),
            |i: int|
                if 0 <= i < tree.children.len() {
                    carried_tree(tree.children[i])
                } else {
                    arbitrary()
                },
        ),
    }
}

/// Whether a tree can be told from its XML form: heading levels are 1 to
/// 6, nothing stands below a text node or a node that holds a literal, and
/// no text node below another node is empty.
pub open spec fn representable(tree: AstTree) -> bool
    decreases tree,
{
    &&& tree.value matches AstValue::Heading(heading) ==> 1 <= heading.level <= 6
    &&& !has_children(tree.value) ==> tree.children.len() == 0
    &&& forall|i: int|
        0 <= i < tree.children.len() ==> {
            &&& representable(#[trigger] tree.children[i])
            &&& tree.children[i].value matches AstValue::Text(text) ==> text.len() > 0
        }
}

/// The characters of the tag names.
proof fn lemma_tag_names()
    ensures
        "body"@.len() == 4,
        "body"@[0] == 'b',
        "body"@[1] == 'o',
        "body"@[2] == 'd',
        "body"@[3] == 'y',
        "header"@.len() == 6,
        "header"@[0] == 'h',
        "header"@[1] == 'e',
        "header"@[2] == 'a',
        "header"@[3] == 'd',
        "header"@[4] == 'e',
        "header"@[5] == 'r',
        "blockquote"@.len() == 10,
        "blockquote"@[0] == 'b',
        "blockquote"@[1] == 'l',
        "blockquote"@[2] == 'o',
        "blockquote"@[3] == 'c',
        "blockquote"@[4] == 'k',
        "blockquote"@[5] == 'q',
        "blockquote"@[6] == 'u',
        "blockquote"@[7] == 'o',
        "blockquote"@[8] == 't',
        "blockquote"@[9] == 'e',
        "ul"@.len() == 2,
        "ul"@[0] == 'u',
        "ul"@[1] == 'l',
        "ol"@.len() == 2,
        "ol"@[0] == 'o',
        "ol"@[1] == 'l',
        "li"@.len() == 2,
        "li"@[0] == 'l',
        "li"@[1] == 'i',
        "dl"@.len() == 2,
        "dl"@[0] == 'd',
        "dl"@[1] == 'l',
        "di"@.len() == 2,
        "di"@[0] == 'd',
        "di"@[1] == 'i',
        "dt"@.len() == 2,
        "dt"@[0] == 'd',
        "dt"@[1] == 't',
        "dd"@.len() == 2,
        "dd"@[0] == 'd',
        "dd"@[1] == 'd',
        "pre"@.len() == 3,
        "pre"@[0] == 'p',
        "pre"@[1] == 'r',
        "pre"@[2] == 'e',
        "object"@.len() == 6,
        "object"@[0] == 'o',
        "object"@[1] == 'b',
        "object"@[2] == 'j',
        "object"@[3] == 'e',
        "object"@[4] == 'c',
        "object"@[5] == 't',
        "p"@.len() == 1,
        "p"@[0] == 'p',
        "h"@.len() == 1,
        "h"@[0] == 'h',
        "h1"@.len() == 2,
        "h1"@[0] == 'h',
        "h1"@[1] == '1',
        "h2"@.len() == 2,
        "h2"@[0] == 'h',
        "h2"@[1] == '2',
        "h3"@.len() == 2,
        "h3"@[0] == 'h',
        "h3"@[1] == '3',
        "h4"@.len() == 2,
        "h4"@[0] == 'h',
        "h4"@[1] == '4',
        "h5"@.len() == 2,
        "h5"@[0] == 'h',
        "h5"@[1] == '5',
        "h6"@.len() == 2,
        "h6"@[0] == 'h',
        "h6"@[1] == '6',
        "hr"@.len() == 2,
        "hr"@[0] == 'h',
        "hr"@[1] == 'r',
        "footer"@.len() == 6,
        "footer"@[0] == 'f',
        "footer"@[1] == 'o',
        "footer"@[2] == 'o',
        "footer"@[3] == 't',
        "footer"@[4] == 'e',
        "footer"@[5] == 'r',
        "table"@.len() == 5,
        "table"@[0] == 't',
        "table"@[1] == 'a',
        "table"@[2] == 'b',
        "table"@[3] == 'l',
        "table"@[4] == 'e',
        "th"@.len() == 2,
        "th"@[0] == 't',
        "th"@[1] == 'h',
        "tr"@.len() == 2,
        "tr"@[0] == 't',
        "tr"@[1] == 'r',
        "td"@.len() == 2,
        "td"@[0] == 't',
        "td"@[1] == 'd',
        "input"@.len() == 5,
        "input"@[0] == 'i',
        "input"@[1] == 'n',
        "input"@[2] == 'p',
        "input"@[3] == 'u',
        "input"@[4] == 't',
        "wbr"@.len() == 3,
        "wbr"@[0] == 'w',
        "wbr"@[1] == 'b',
        "wbr"@[2] == 'r',
        "br"@.len() == 2,
        "br"@[0] == 'b',
        "br"@[1] == 'r',
        "code"@.len() == 4,
        "code"@[0] == 'c',
        "code"@[1] == 'o',
        "code"@[2] == 'd',
        "code"@[3] == 'e',
        "embed"@.len() == 5,
        "embed"@[0] == 'e',
        "embed"@[1] == 'm',
        "embed"@[2] == 'b',
        "embed"@[3] == 'e',
        "embed"@[4] == 'd',
        "em"@.len() == 2,
        "em"@[0] == 'e',
        "em"@[1] == 'm',
        "strong"@.len() == 6,
        "strong"@[0] == 's',
        "strong"@[1] == 't',
        "strong"@[2] == 'r',
        "strong"@[3] == 'o',
        "strong"@[4] == 'n',
        "strong"@[5] == 'g',
        "del"@.len() == 3,
        "del"@[0] == 'd',
        "del"@[1] == 'e',
        "del"@[2] == 'l',
        "sup"@.len() == 3,
        "sup"@[0] == 's',
        "sup"@[1] == 'u',
        "sup"@[2] == 'p',
        "a"@.len() == 1,
        "a"@[0] == 'a',
        "img"@.len() == 3,
        "img"@[0] == 'i',
        "img"@[1] == 'm',
        "img"@[2] == 'g',
        "sub"@.len() == 3,
        "sub"@[0] == 's',
        "sub"@[1] == 'u',
        "sub"@[2] == 'b',
{
    reveal_strlit("body");
    reveal_strlit("header");
    reveal_strlit("blockquote");
    reveal_strlit("ul");
    reveal_strlit("ol");
    reveal_strlit("li");
    reveal_strlit("dl");
    reveal_strlit("di");
    reveal_strlit("dt");
    reveal_strlit("dd");
    reveal_strlit("pre");
    reveal_strlit("object");
    reveal_strlit("p");
    reveal_strlit("h");
    reveal_strlit("h1");
    reveal_strlit("h2");
    reveal_strlit("h3");
    reveal_strlit("h4");
    reveal_strlit("h5");
    reveal_strlit("h6");
    reveal_strlit("hr");
    reveal_strlit("footer");
    reveal_strlit("table");
    reveal_strlit("th");
    reveal_strlit("tr");
    reveal_strlit("td");
    reveal_strlit("input");
    reveal_strlit("wbr");
    reveal_strlit("br");
    reveal_strlit("code");
    reveal_strlit("embed");
    reveal_strlit("em");
    reveal_strlit("strong");
    reveal_strlit("del");
    reveal_strlit("sup");
    reveal_strlit("a");
    reveal_strlit("img");
    reveal_strlit("sub");
}

/// The characters of the attribute names and of the fixed attribute values.
proof fn lemma_attribute_names()
    ensures
        "type"@.len() == 4,
        "type"@[0] == 't',
        "type"@[1] == 'y',
        "type"@[2] == 'p',
        "type"@[3] == 'e',
        "offset"@.len() == 6,
        "offset"@[0] == 'o',
        "offset"@[1] == 'f',
        "offset"@[2] == 'f',
        "offset"@[3] == 's',
        "offset"@[4] == 'e',
        "offset"@[5] == 't',
        "padding"@.len() == 7,
        "padding"@[0] == 'p',
        "padding"@[1] == 'a',
        "padding"@[2] == 'd',
        "padding"@[3] == 'd',
        "padding"@[4] == 'i',
        "padding"@[5] == 'n',
        "padding"@[6] == 'g',
        "start"@.len() == 5,
        "start"@[0] == 's',
        "start"@[1] == 't',
        "start"@[2] == 'a',
        "start"@[3] == 'r',
        "start"@[4] == 't',
        "delimiter"@.len() == 9,
        "delimiter"@[0] == 'd',
        "delimiter"@[1] == 'e',
        "delimiter"@[2] == 'l',
        "delimiter"@[3] == 'i',
        "delimiter"@[4] == 'm',
        "delimiter"@[5] == 'i',
        "delimiter"@[6] == 't',
        "delimiter"@[7] == 'e',
        "delimiter"@[8] == 'r',
        "tight"@.len() == 5,
        "tight"@[0] == 't',
        "tight"@[1] == 'i',
        "tight"@[2] == 'g',
        "tight"@[3] == 'h',
        "tight"@[4] == 't',
        "info"@.len() == 4,
        "info"@[0] == 'i',
        "info"@[1] == 'n',
        "info"@[2] == 'f',
        "info"@[3] == 'o',
        "literal"@.len() == 7,
        "literal"@[0] == 'l',
        "literal"@[1] == 'i',
        "literal"@[2] == 't',
        "literal"@[3] == 'e',
        "literal"@[4] == 'r',
        "literal"@[5] == 'a',
        "literal"@[6] == 'l',
        "level"@.len() == 5,
        "level"@[0] == 'l',
        "level"@[1] == 'e',
        "level"@[2] == 'v',
        "level"@[3] == 'e',
        "level"@[4] == 'l',
        "name"@.len() == 4,
        "name"@[0] == 'n',
        "name"@[1] == 'a',
        "name"@[2] == 'm',
        "name"@[3] == 'e',
        "align"@.len() == 5,
        "align"@[0] == 'a',
        "align"@[1] == 'l',
        "align"@[2] == 'i',
        "align"@[3] == 'g',
        "align"@[4] == 'n',
        "checked"@.len() == 7,
        "checked"@[0] == 'c',
        "checked"@[1] == 'h',
        "checked"@[2] == 'e',
        "checked"@[3] == 'c',
        "checked"@[4] == 'k',
        "checked"@[5] == 'e',
        "checked"@[6] == 'd',
        "href"@.len() == 4,
        "href"@[0] == 'h',
        "href"@[1] == 'r',
        "href"@[2] == 'e',
        "href"@[3] == 'f',
        "src"@.len() == 3,
        "src"@[0] == 's',
        "src"@[1] == 'r',
        "src"@[2] == 'c',
        "title"@.len() == 5,
        "title"@[0] == 't',
        "title"@[1] == 'i',
        "title"@[2] == 't',
        "title"@[3] == 'l',
        "title"@[4] == 'e',
        "1"@.len() == 1,
        "1"@[0] == '1',
        "0"@.len() == 1,
        "0"@[0] == '0',
        "o"@.len() == 1,
        "o"@[0] == 'o',
        "u"@.len() == 1,
        "u"@[0] == 'u',
        "."@.len() == 1,
        "."@[0] == '.',
        ")"@.len() == 1,
        ")"@[0] == ')',
{
    reveal_strlit("type");
    reveal_strlit("offset");
    reveal_strlit("padding");
    reveal_strlit("start");
    reveal_strlit("delimiter");
    reveal_strlit("tight");
    reveal_strlit("info");
    reveal_strlit("literal");
    reveal_strlit("level");
    reveal_strlit("name");
    reveal_strlit("align");
    reveal_strlit("checked");
    reveal_strlit("href");
    reveal_strlit("src");
    reveal_strlit("title");
    reveal_strlit("1");
    reveal_strlit("0");
    reveal_strlit("o");
    reveal_strlit("u");
    reveal_strlit(".");
    reveal_strlit(")");
}

/// Writing the alignments of a table and reading them back gives the same
/// alignments, whatever their number.
pub proof fn lemma_alignment_round_trip(alignments: Seq<TableAlignment>)
    ensures
        alignments_of(alignment_text(alignments)) == alignments,
{
    assert(alignments_of(alignment_text(alignments)) =~= alignments);
}

/// Writing the attributes of a list and reading them back gives the same
/// attributes, but for the bullet.
pub proof fn lemma_list_round_trip(name: Seq<char>, list: NodeList)
    ensures
        list_of(list_element(name, list)) == (NodeList { bullet_char: 45, ..list }),
{
    lemma_attribute_names();
    lemma_parse_decimal(list.marker_offset as nat, usize::MAX as nat);
    lemma_parse_decimal(list.padding as nat, usize::MAX as nat);
    lemma_parse_decimal(list.start as nat, usize::MAX as nat);
    let e = list_element(name, list);
    assert(e.attr("type"@) == Some(list_type_text(list.list_type)));
    assert(e.attr("offset"@) == Some(decimal(list.marker_offset as nat)));
    assert(e.attr("padding"@) == Some(decimal(list.padding as nat)));
    assert(e.attr("start"@) == Some(decimal(list.start as nat)));
    assert(e.attr("delimiter"@) == Some(delimiter_text(list.delimiter)));
    assert(e.attr("tight"@) == Some(flag_text(list.tight)));
}

/// The tag of a heading of level 1 to 6 is one of the six heading tags.
pub proof fn lemma_heading_tag(level: u32)
    requires
        1 <= level <= 6,
    ensures
        is_heading_tag(heading_tag(level)),
        heading_tag(level).len() == 2,
        heading_tag(level)[0] == 'h',
{
    lemma_tag_names();
    let name = heading_tag(level);
    assert(decimal(level as nat) =~= seq![digit_char(level as int)]);
    if level == 1 {
        assert(name =~= "h1"@);
    } else if level == 2 {
        assert(name =~= "h2"@);
    } else if level == 3 {
        assert(name =~= "h3"@);
    } else if level == 4 {
        assert(name =~= "h4"@);
    } else if level == 5 {
        assert(name =~= "h5"@);
    } else {
        assert(name =~= "h6"@);
    }
}

/// Whether a value has no attribute at all, so that its tag alone tells it.
spec fn is_plain(value: AstValue) -> bool {
    match value {
        AstValue::Document
        | AstValue::BlockQuote
        | AstValue::DescriptionList
        | AstValue::DescriptionTerm
        | AstValue::DescriptionDetails
        | AstValue::Paragraph
        | AstValue::ThematicBreak
        | AstValue::TableRow(_)
        | AstValue::TableCell
        | AstValue::SoftBreak
        | AstValue::LineBreak
        | AstValue::Emph
        | AstValue::Strong
        | AstValue::Strikethrough
        | AstValue::Superscript => true,
        _ => false,
    }
}

proof fn lemma_plain_value(value: AstValue, e: XmlElement)
    requires
        is_plain(value),
        e.name == head_of(value)->Element_0.name,
    ensures
        value_of(e) == value,
{
    lemma_tag_names();
}

proof fn lemma_literal_value(value: AstValue, e: XmlElement)
    requires
        holds_literal(value),
        e.name == head_of(value)->Element_0.name,
        e.attrs == head_of(value)->Element_0.attrs,
        e.nodes == head_of(value)->Element_0.nodes,
    ensures
        value_of(e) == carried(value),
{
    lemma_tag_names();
    reveal_strlit("info");
    assert(e.nodes.drop_last() =~= Seq::<XmlNode>::empty());
    assert(text_of(e.nodes.drop_last()) =~= Seq::<char>::empty());
    match value {
        AstValue::FrontMatter(text) => {
            assert(text_of(e.nodes) =~= text);
        },
        AstValue::CodeBlock { info, literal, .. } => {
            assert(text_of(e.nodes) =~= literal);
        },
        _ => {},
    }
}

proof fn lemma_list_value(value: AstValue, e: XmlElement)
    requires
        value is List || value is Item,
        e.name == head_of(value)->Element_0.name,
        e.attrs == head_of(value)->Element_0.attrs,
    ensures
        value_of(e) == carried(value),
{
    lemma_tag_names();
    let head = head_of(value)->Element_0;
    match value {
        AstValue::List(list) => {
            lemma_list_round_trip(head.name, list);
            assert(list_of(e) == list_of(head));
        },
        AstValue::Item(list) => {
            lemma_list_round_trip(head.name, list);
            assert(list_of(e) == list_of(head));
        },
        _ => {},
    }
}

proof fn lemma_numbered_value(value: AstValue, e: XmlElement)
    requires
        value is DescriptionItem || value is HtmlBlock || value is Heading,
        value matches AstValue::Heading(heading) ==> 1 <= heading.level <= 6,
        e.name == head_of(value)->Element_0.name,
        e.attrs == head_of(value)->Element_0.attrs,
    ensures
        value_of(e) == carried(value),
{
    lemma_tag_names();
    lemma_attribute_names();
    match value {
        AstValue::DescriptionItem(item) => {
            lemma_parse_decimal(item.marker_offset as nat, usize::MAX as nat);
            lemma_parse_decimal(item.padding as nat, usize::MAX as nat);
        },
        AstValue::HtmlBlock { block_type, literal } => {
            lemma_parse_decimal(block_type as nat, u8::MAX as nat);
        },
        AstValue::Heading(heading) => {
            lemma_heading_tag(heading.level);
            lemma_parse_decimal(heading.level as nat, u32::MAX as nat);
        },
        _ => {},
    }
}

proof fn lemma_inline_value(value: AstValue, e: XmlElement)
    requires
        value is FootnoteDefinition || value is Table || value is TaskItem || value is Code
            || value is HtmlInline || value is Link || value is Image
            || value is FootnoteReference,
        e.name == head_of(value)->Element_0.name,
        e.attrs == head_of(value)->Element_0.attrs,
    ensures
        value_of(e) == carried(value),
{
    lemma_tag_names();
    lemma_attribute_names();
    match value {
        AstValue::Table(alignments) => {
            lemma_alignment_round_trip(alignments);
        },
        _ => {},
    }
}

/// An element that has the tag and the attributes that the mapping table
/// gives for a value, and its literal where the value holds one, stands
/// for that value, up to what the XML form does not carry.
pub proof fn lemma_value_round_trip(value: AstValue, e: XmlElement)
    requires
        !(value is Text),
        value matches AstValue::Heading(heading) ==> 1 <= heading.level <= 6,
        e.name == head_of(value)->Element_0.name,
        e.attrs == head_of(value)->Element_0.attrs,
        holds_literal(value) ==> e.nodes == head_of(value)->Element_0.nodes,
    ensures
        head_of(value) is Element,
        value_of(e) == carried(value),
{
    if is_plain(value) {
        lemma_plain_value(value, e);
    } else if holds_literal(value) {
        lemma_literal_value(value, e);
    } else if value is List || value is Item {
        lemma_list_value(value, e);
    } else if value is DescriptionItem || value is HtmlBlock || value is Heading {
        lemma_numbered_value(value, e);
    } else {
        lemma_inline_value(value, e);
    }
}

/// The trees of a sequence with [`carried_tree`] applied to each.
pub open spec fn carried_trees(trees: Seq<AstTree>) -> Seq<AstTree> {
    Seq::new(trees.len(), |i: int| carried_tree(trees[i]))
}

/// Whether each tree of a sequence can stand below a node and be told
/// from its XML form: it is representable, and it is no empty text node.
pub open spec fn representable_children(trees: Seq<AstTree>) -> bool {
    forall|i: int|
        0 <= i < trees.len() ==> {
            &&& representable(#[trigger] trees[i])
            &&& trees[i].value matches AstValue::Text(text) ==> text.len() > 0
        }
}

/// Round trip of a tree: a representable tree that is no text node
/// projects to an element, and reconstructing that element gives the tree
/// back, with every attribute that the XML form does not carry at its
/// fixed value.
pub proof fn lemma_round_trip(tree: AstTree)
    requires
        representable(tree),
        !(tree.value is Text),
    ensures
        project(tree) is Element,
        reconstruct(project(tree)->Element_0) == carried_tree(tree),
    decreases tree,
{
    let head = head_of(tree.value)->Element_0;
    let e = project(tree)->Element_0;
    lemma_value_round_trip(tree.value, e);
    if has_children(tree.value) {
        assert(head.nodes =~= Seq::<XmlNode>::empty());
        assert(e.nodes =~= project_all(tree.children));
        lemma_round_trip_all(tree.children);
        assert(carried_tree(tree).children =~= carried_trees(tree.children));
    } else {
        assert(carried_tree(tree).children =~= Seq::<AstTree>::empty());
    }
}

/// Round trip of the children of a node: the projections of representable
/// trees, none of them an empty text node, reconstruct to the same trees
/// in the same order, with every attribute that the XML form does not
/// carry at its fixed value.
pub proof fn lemma_round_trip_all(trees: Seq<AstTree>)
    requires
        representable_children(trees),
    ensures
        reconstruct_all(project_all(trees)) == carried_trees(trees),
    decreases trees,
{
    let nodes = project_all(trees);
    if trees.len() == 0 {
        assert(reconstruct_all(nodes) =~= carried_trees(trees));
    } else {
        let init = trees.drop_last();
        let last = trees.last();
        lemma_round_trip_all(init);
        assert(nodes.drop_last() =~= project_all(init));
        assert(nodes.last() == project(last));
        assert(representable(last));
        match last.value {
            AstValue::Text(text) => {
                assert(carried_tree(last).children =~= Seq::<AstTree>::empty());
            },
            _ => {
                lemma_round_trip(last);
            },
        }
        assert(carried_trees(trees) =~= carried_trees(init).push(carried_tree(last)));
    }
}

/// Unknown tags are tolerated: an element whose tag the mapping table
/// does not know stands for one empty text node without children,
/// whatever its attributes and children are.
pub proof fn lemma_unknown_tag(e: XmlElement)
    requires
        !is_known_tag(e.name),
    ensures
        reconstruct(e) == (AstTree { value: AstValue::Text(Seq::empty()), children: Seq::empty() }),
{
}

/// A heading of level 1 to 6 keeps its level through the XML form.
pub proof fn lemma_heading_round_trip(heading: NodeHeading)
    requires
        1 <= heading.level <= 6,
    ensures
        head_of(AstValue::Heading(heading)) is Element,
        value_of(head_of(AstValue::Heading(heading))->Element_0) == AstValue::Heading(
            NodeHeading { level: heading.level, setext: false },
        ),
{
    let value = AstValue::Heading(heading);
    lemma_value_round_trip(value, head_of(value)->Element_0);
}

/// The number of nodes of a tree that hold a literal.
pub open spec fn literal_count(tree: AstTree) -> nat
    decreases tree,
{
    (if holds_literal(tree.value) {
        1nat
    } else {
        0nat
    }) + literal_count_all(tree.children)
}

/// The number of nodes of a sequence of trees that hold a literal.
pub open spec fn literal_count_all(trees: Seq<AstTree>) -> nat
    decreases trees,
{
    if trees.len() == 0 {
        0
    } else {
        literal_count(trees[0]) + literal_count_all(trees.skip(1))
    }
}

/// The projection keeps the shape of the tree: a representable tree and
/// its projection have the same number of nodes, but for one text run
/// more for each node that holds a literal.
pub proof fn lemma_projection_size(tree: AstTree)
    requires
        representable(tree),
    ensures
        node_size(project(tree)) == tree_size(tree) + literal_count(tree),
    decreases tree,
{
    let head = head_of(tree.value);
    assert(forest_size(Seq::<AstTree>::empty()) == 0);
    assert(literal_count_all(Seq::<AstTree>::empty()) == 0);
    if tree.value is Text {
        assert(tree.children =~= Seq::<AstTree>::empty());
    } else if holds_literal(tree.value) {
        assert(tree.children =~= Seq::<AstTree>::empty());
        let e = head->Element_0;
        assert(e.nodes.skip(1) =~= Seq::<XmlNode>::empty());
        assert(nodes_size(e.nodes.skip(1)) == 0);
        assert(e.nodes[0] is Text);
    } else {
        let e = project(tree)->Element_0;
        assert(head->Element_0.nodes =~= Seq::<XmlNode>::empty());
        assert(e.nodes =~= project_all(tree.children));
        lemma_projection_size_all(tree.children);
    }
}

/// The projections of representable trees have as many nodes as the
/// trees, but for one text run more for each node that holds a literal.
pub proof fn lemma_projection_size_all(trees: Seq<AstTree>)
    requires
        forall|i: int| 0 <= i < trees.len() ==> representable(#[trigger] trees[i]),
    ensures
        nodes_size(project_all(trees)) == forest_size(trees) + literal_count_all(trees),
    decreases trees,
{
    if trees.len() > 0 {
        let nodes = project_all(trees);
        assert(nodes.skip(1) =~= project_all(trees.skip(1)));
        assert(nodes[0] == project(trees[0]));
        lemma_projection_size(trees[0]);
        assert forall|i: int| 0 <= i < trees.skip(1).len() implies representable(
            #[trigger] trees.skip(1)[i],
        ) by {
            assert(trees.skip(1)[i] == trees[i + 1]);
        }
        lemma_projection_size_all(trees.skip(1));
    }
}

} // verus!
