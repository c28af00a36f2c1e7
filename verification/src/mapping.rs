//! The mapping table: which tag and which attributes stand for each kind of
//! document node, how attribute values are written, and how they are read
//! back from XML that may have been altered on the way.

use vstd::prelude::*;
use crate::ast::{
    AstTree, AstValue, ListDelimType, ListType, NodeDescriptionItem, NodeHeading, NodeList,
    TableAlignment,
};
use crate::numeral::{decimal, number_or_zero};
use crate::xml::{XmlElement, XmlNode};

verus! {

/// The namespace of every element that stands for a document node.
pub open spec fn namespace() -> Seq<char> {
    "markdown"@
}

/// The element of the given name in the mapping's namespace, without
/// attributes or children.
pub open spec fn tag(name: Seq<char>) -> XmlElement {
    XmlElement::bare(name, namespace())
}

/// How a boolean attribute is written: `1` for true, `0` for false.
pub open spec fn flag_text(flag: bool) -> Seq<char> {
    if flag {
        "1"@
    } else {
        "0"@
    }
}

/// How a boolean attribute is read: true if and only if it is there and
/// its value is exactly `1`.
pub open spec fn flag_of(value: Option<Seq<char>>) -> bool {
    value == Some("1"@)
}

/// How the kind of a list is written: `o` for ordered, `u` for bullet.
pub open spec fn list_type_text(list_type: ListType) -> Seq<char> {
    match list_type {
        ListType::Ordered => "o"@,
        ListType::Bullet => "u"@,
    }
}

/// How the kind of a list is read: ordered if and only if the value is
/// exactly `o`.
pub open spec fn list_type_of(value: Option<Seq<char>>) -> ListType {
    if value == Some("o"@) {
        ListType::Ordered
    } else {
        ListType::Bullet
    }
}

/// How the delimiter of an ordered list is written: the character itself.
pub open spec fn delimiter_text(delimiter: ListDelimType) -> Seq<char> {
    match delimiter {
        ListDelimType::Period => "."@,
        ListDelimType::Paren => ")"@,
    }
}

/// How the delimiter is read: a paren if and only if the value is exactly
/// `)`, a period otherwise.
pub open spec fn delimiter_of(value: Option<Seq<char>>) -> ListDelimType {
    if value == Some(")"@) {
        ListDelimType::Paren
    } else {
        ListDelimType::Period
    }
}

/// The character that stands for the alignment of one column.
pub open spec fn alignment_char(alignment: TableAlignment) -> char {
    match alignment {
        TableAlignment::Unspecified => '-',
        TableAlignment::Left => 'l',
        TableAlignment::Center => 'c',
        TableAlignment::Right => 'r',
    }
}

/// The alignment that a character stands for; any character but `l`, `c`
/// and `r` stands for no alignment.
pub open spec fn alignment_of(c: char) -> TableAlignment {
    if c == 'l' {
        TableAlignment::Left
    } else if c == 'c' {
        TableAlignment::Center
    } else if c == 'r' {
        TableAlignment::Right
    } else {
        TableAlignment::Unspecified
    }
}

/// How the alignments of a table are written: one character per column,
/// in column order.
pub open spec fn alignment_text(alignments: Seq<TableAlignment>) -> Seq<char> {
    Seq::new(alignments.len(), |i: int| alignment_char(alignments[i]))
}

/// How the alignments of a table are read: one column per character.
pub open spec fn alignments_of(text: Seq<char>) -> Seq<TableAlignment> {
    Seq::new(text.len(), |i: int| alignment_of(text[i]))
}

/// The value of a text attribute, and the empty text where it is missing.
pub open spec fn text_or_empty(value: Option<Seq<char>>) -> Seq<char> {
    match value {
        Some(text) => text,
        None => Seq::empty(),
    }
}

/// The tag of a heading of the given level: `h` and the level in base 10.
pub open spec fn heading_tag(level: u32) -> Seq<char> {
    "h"@ + decimal(level as nat)
}

/// Whether `name` is one of the six heading tags.
pub open spec fn is_heading_tag(name: Seq<char>) -> bool {
    name == "h1"@ || name == "h2"@ || name == "h3"@ || name == "h4"@ || name == "h5"@ || name
        == "h6"@
}

/// The element of a list or of a list item, with the six list attributes.
pub open spec fn list_element(name: Seq<char>, list: NodeList) -> XmlElement {
    tag(name).with_attr("type"@, list_type_text(list.list_type)).with_attr(
        "offset"@,
        decimal(list.marker_offset as nat),
    ).with_attr("padding"@, decimal(list.padding as nat)).with_attr(
        "start"@,
        decimal(list.start as nat),
    ).with_attr("delimiter"@, delimiter_text(list.delimiter)).with_attr(
        "tight"@,
        flag_text(list.tight),
    )
}

/// The list attributes that an element carries. A numeric attribute that
/// is missing or is no number counts as 0; the bullet is always `-`.
pub open spec fn list_of(e: XmlElement) -> NodeList {
    NodeList {
        list_type: list_type_of(e.attr("type"@)),
        marker_offset: number_or_zero(e.attr("offset"@), usize::MAX as nat) as usize,
        padding: number_or_zero(e.attr("padding"@), usize::MAX as nat) as usize,
        start: number_or_zero(e.attr("start"@), usize::MAX as nat) as usize,
        delimiter: delimiter_of(e.attr("delimiter"@)),
        bullet_char: 45,
        tight: flag_of(e.attr("tight"@)),
    }
}

/// What a document node maps to, before its children are added: a text run
/// for a text node, and for every other kind the element with its tag, its
/// attributes and, for front matter and code blocks, the literal as its
/// only child.
pub open spec fn head_of(value: AstValue) -> XmlNode {
    match value {
        AstValue::Text(text) => XmlNode::Text(text),
        AstValue::Document => XmlNode::Element(tag("body"@)),
        AstValue::FrontMatter(text) => XmlNode::Element(
            tag("header"@).with_node(XmlNode::Text(text)),
        ),
        AstValue::BlockQuote => XmlNode::Element(tag("blockquote"@)),
        AstValue::List(list) => XmlNode::Element(
            list_element(
                if list.list_type == ListType::Ordered {
                    "ol"@
                } else {
                    "ul"@
                },
                list,
            ),
        ),
        AstValue::Item(list) => XmlNode::Element(list_element("li"@, list)),
        AstValue::DescriptionList => XmlNode::Element(tag("dl"@)),
        AstValue::DescriptionItem(item) => XmlNode::Element(
            tag("di"@).with_attr("offset"@, decimal(item.marker_offset as nat)).with_attr(
                "padding"@,
                decimal(item.padding as nat),
            ),
        ),
        AstValue::DescriptionTerm => XmlNode::Element(tag("dt"@)),
        AstValue::DescriptionDetails => XmlNode::Element(tag("dd"@)),
        AstValue::CodeBlock { info, literal, .. } => XmlNode::Element(
            tag("pre"@).with_attr("info"@, info).with_node(XmlNode::Text(literal)),
        ),
        AstValue::HtmlBlock { block_type, literal } => XmlNode::Element(
            tag("object"@).with_attr("type"@, decimal(block_type as nat)).with_attr(
                "literal"@,
                literal,
            ),
        ),
        AstValue::Paragraph => XmlNode::Element(tag("p"@)),
        AstValue::Heading(heading) => XmlNode::Element(
            tag(heading_tag(heading.level)).with_attr("level"@, decimal(heading.level as nat)),
        ),
        AstValue::ThematicBreak => XmlNode::Element(tag("hr"@)),
        AstValue::FootnoteDefinition(name) => XmlNode::Element(
            tag("footer"@).with_attr("name"@, name),
        ),
        AstValue::Table(alignments) => XmlNode::Element(
            tag("table"@).with_attr("align"@, alignment_text(alignments)),
        ),
        AstValue::TableRow(header) => XmlNode::Element(
            tag(
                if header {
                    "th"@
                } else {
                    "tr"@
                },
            ),
        ),
        AstValue::TableCell => XmlNode::Element(tag("td"@)),
        AstValue::TaskItem(checked) => XmlNode::Element(
            tag("input"@).with_attr("checked"@, flag_text(checked)),
        ),
        AstValue::SoftBreak => XmlNode::Element(tag("wbr"@)),
        AstValue::LineBreak => XmlNode::Element(tag("br"@)),
        AstValue::Code { literal, .. } => XmlNode::Element(
            tag("code"@).with_attr("literal"@, literal),
        ),
        AstValue::HtmlInline(literal) => XmlNode::Element(
            tag("embed"@).with_attr("literal"@, literal),
        ),
        AstValue::Emph => XmlNode::Element(tag("em"@)),
        AstValue::Strong => XmlNode::Element(tag("strong"@)),
        AstValue::Strikethrough => XmlNode::Element(tag("del"@)),
        AstValue::Superscript => XmlNode::Element(tag("sup"@)),
        AstValue::Link { url, title } => XmlNode::Element(
            tag("a"@).with_attr("href"@, url).with_attr("title"@, title),
        ),
        AstValue::Image { url, title } => XmlNode::Element(
            tag("img"@).with_attr("src"@, url).with_attr("title"@, title),
        ),
        AstValue::FootnoteReference(name) => XmlNode::Element(
            tag("sub"@).with_attr("name"@, name),
        ),
    }
}

/// Whether a node of this kind carries its content as literal text, so
/// that nothing below it is markup: front matter and code blocks.
pub open spec fn holds_literal(value: AstValue) -> bool {
    value is FrontMatter || value is CodeBlock
}

/// The value of the document node that an element stands for, chosen by
/// its tag name alone. An element of any other name stands for an empty
/// text node. Attributes that are missing or damaged take their defaults;
/// what the XML form does not carry is set to one fixed value: code blocks
/// are fenced with three backticks, headings are not setext, code spans
/// have one backtick.
pub open spec fn value_of(e: XmlElement) -> AstValue {
    let name = e.name;
    if name == "body"@ {
        AstValue::Document
    } else if name == "header"@ {
        AstValue::FrontMatter(e.text())
    } else if name == "blockquote"@ {
        AstValue::BlockQuote
    } else if name == "ul"@ || name == "ol"@ {
        AstValue::List(list_of(e))
    } else if name == "li"@ {
        AstValue::Item(list_of(e))
    } else if name == "dl"@ {
        AstValue::DescriptionList
    } else if name == "di"@ {
        AstValue::DescriptionItem(
            NodeDescriptionItem {
                marker_offset: number_or_zero(e.attr("offset"@), usize::MAX as nat) as usize,
                padding: number_or_zero(e.attr("padding"@), usize::MAX as nat) as usize,
            },
        )
    } else if name == "dt"@ {
        AstValue::DescriptionTerm
    } else if name == "dd"@ {
        AstValue::DescriptionDetails
    } else if name == "pre"@ {
        AstValue::CodeBlock {
            fenced: true,
            fence_char: 96,
            fence_length: 3,
            fence_offset: 0,
            info: text_or_empty(e.attr("info"@)),
            literal: e.text(),
        }
    } else if name == "object"@ {
        AstValue::HtmlBlock {
            block_type: number_or_zero(e.attr("type"@), u8::MAX as nat) as u8,
            literal: text_or_empty(e.attr("literal"@)),
        }
    } else if name == "p"@ {
        AstValue::Paragraph
    } else if is_heading_tag(name) {
        AstValue::Heading(
            NodeHeading {
                level: number_or_zero(e.attr("level"@), u32::MAX as nat) as u32,
                setext: false,
            },
        )
    } else if name == "hr"@ {
        AstValue::ThematicBreak
    } else if name == "footer"@ {
        AstValue::FootnoteDefinition(text_or_empty(e.attr("name"@)))
    } else if name == "table"@ {
        AstValue::Table(alignments_of(text_or_empty(e.attr("align"@))))
    } else if name == "th"@ {
        AstValue::TableRow(true)
    } else if name == "tr"@ {
        AstValue::TableRow(false)
    } else if name == "td"@ {
        AstValue::TableCell
    } else if name == "input"@ {
        AstValue::TaskItem(flag_of(e.attr("checked"@)))
    } else if name == "wbr"@ {
        AstValue::SoftBreak
    } else if name == "br"@ {
        AstValue::LineBreak
    } else if name == "code"@ {
        AstValue::Code { num_backticks: 1, literal: text_or_empty(e.attr("literal"@)) }
    } else if name == "embed"@ {
        AstValue::HtmlInline(text_or_empty(e.attr("literal"@)))
    } else if name == "em"@ {
        AstValue::Emph
    } else if name == "strong"@ {
        AstValue::Strong
    } else if name == "del"@ {
        AstValue::Strikethrough
    } else if name == "sup"@ {
        AstValue::Superscript
    } else if name == "a"@ {
        AstValue::Link {
            url: text_or_empty(e.attr("href"@)),
            title: text_or_empty(e.attr("title"@)),
        }
    } else if name == "img"@ {
        AstValue::Image {
            url: text_or_empty(e.attr("src"@)),
            title: text_or_empty(e.attr("title"@)),
        }
    } else if name == "sub"@ {
        AstValue::FootnoteReference(text_or_empty(e.attr("name"@)))
    } else {
        AstValue::Text(Seq::empty())
    }
}

/// Whether the mapping table knows the tag name.
pub open spec fn is_known_tag(name: Seq<char>) -> bool {
    name == "body"@ || name == "header"@ || name == "blockquote"@ || name == "ul"@ || name
        == "ol"@ || name == "li"@ || name == "dl"@ || name == "di"@ || name == "dt"@ || name
        == "dd"@ || name == "pre"@ || name == "object"@ || name == "p"@ || is_heading_tag(name)
        || name == "hr"@ || name == "footer"@ || name == "table"@ || name == "th"@ || name
        == "tr"@ || name == "td"@ || name == "input"@ || name == "wbr"@ || name == "br"@ || name
        == "code"@ || name == "embed"@ || name == "em"@ || name == "strong"@ || name == "del"@
        || name == "sup"@ || name == "a"@ || name == "img"@ || name == "sub"@
}

/// The XML node that a document tree projects to: the head of its value,
/// followed, unless the value holds a literal, by the projections of its
/// children in their order. A text node projects to its text, whatever
/// stands below it.
pub open spec fn project(tree: AstTree) -> XmlNode
    decreases tree,
{
    match head_of(tree.value) {
        XmlNode::Text(text) => XmlNode::Text(text),
        XmlNode::Element(head) => XmlNode::Element(
            if holds_literal(tree.value) {
                head
            } else {
                XmlElement { nodes: head.nodes + project_all(tree.children), ..head }
            },
        ),
    }
}

/// The projections of a sequence of trees, one node for each tree.
pub open spec fn project_all(trees: Seq<AstTree>) -> Seq<XmlNode>
    decreases trees,
{
    Seq::new(
        trees.len(),
        |i: int|
            if 0 <= i < trees.len() {
                project(trees[i])
            } else {
                arbitrary()
            },
    )
}

/// Whether the children of an element that stands for `value` are read
/// as document nodes: not below a literal, and not below the empty text
/// that stands for an unknown tag.
pub open spec fn has_children(value: AstValue) -> bool {
    !holds_literal(value) && !(value is Text)
}

/// The document tree that an element stands for: the value of its tag and
/// attributes and, unless the tag is unknown or carries a literal, the
/// trees of its children.
pub open spec fn reconstruct(e: XmlElement) -> AstTree
    decreases e,
{
    AstTree {
        value: value_of(e),
        children: if has_children(value_of(e)) {
            reconstruct_all(e.nodes)
        } else {
            Seq::empty()
        },
    }
}

/// The document trees that a sequence of XML nodes stands for, in order:
/// one tree for each element, one text node for each text run that is not
/// empty, and nothing for an empty run.
pub open spec fn reconstruct_all(nodes: Seq<XmlNode>) -> Seq<AstTree>
    decreases nodes,
{
    if nodes.len() == 0 {
        Seq::empty()
    } else {
        let before = reconstruct_all(nodes.drop_last());
        match nodes.last() {
            XmlNode::Element(e) => before.push(reconstruct(e)),
            XmlNode::Text(text) => if text.len() == 0 {
                before
            } else {
                before.push(AstTree { value: AstValue::Text(text), children: Seq::empty() })
            },
        }
    }
}

} // verus!
