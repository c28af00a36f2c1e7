//! The CommonMark document tree and its mathematical view.

use vstd::prelude::*;

verus! {

/// The kind of a list.
#[derive(Clone, Copy, Debug, PartialEq, Eq, Structural)]
pub enum ListType {
    /// An unordered list.
    Bullet,
    /// An ordered list.
    Ordered,
}

/// The character that follows the number of an ordered list item.
#[derive(Clone, Copy, Debug, PartialEq, Eq, Structural)]
pub enum ListDelimType {
    /// `.`
    Period,
    /// `)`
    Paren,
}

/// The alignment of one table column.
#[derive(Clone, Copy, Debug, PartialEq, Eq, Structural)]
pub enum TableAlignment {
    /// No alignment given.
    Unspecified,
    Left,
    Center,
    Right,
}

/// The attributes of a list, and of each of its items.
#[derive(Clone, Copy, Debug, PartialEq, Eq, Structural)]
pub struct NodeList {
    pub list_type: ListType,
    /// Spaces before the list marker.
    pub marker_offset: usize,
    /// Characters from the start of the marker to the item text.
    pub padding: usize,
    /// The ordinal at which an ordered list starts.
    pub start: usize,
    pub delimiter: ListDelimType,
    /// The bullet of an unordered list. The XML form does not carry it.
    pub bullet_char: u8,
    pub tight: bool,
}

/// The attributes of an item of a description list.
#[derive(Clone, Copy, Debug, PartialEq, Eq, Structural)]
pub struct NodeDescriptionItem {
    pub marker_offset: usize,
    pub padding: usize,
}

/// The attributes of a heading.
#[derive(Clone, Copy, Debug, PartialEq, Eq, Structural)]
pub struct NodeHeading {
    /// 1 to 6 in a well-formed document.
    pub level: u32,
    /// Whether the heading was written in setext form. The XML form does
    /// not carry it.
    pub setext: bool,
}

/// A code block. The XML form carries `info` and `literal` only.
#[derive(Clone, Debug, PartialEq, Eq)]
pub struct NodeCodeBlock {
    pub fenced: bool,
    pub fence_char: u8,
    pub fence_length: usize,
    pub fence_offset: usize,
    pub info: String,
    pub literal: String,
}

/// A block of raw HTML.
#[derive(Clone, Debug, PartialEq, Eq)]
pub struct NodeHtmlBlock {
    pub block_type: u8,
    pub literal: String,
}

/// An inline code span. The XML form carries `literal` only.
#[derive(Clone, Debug, PartialEq, Eq)]
pub struct NodeCode {
    pub num_backticks: usize,
    pub literal: String,
}

/// The destination and title of a link or an image.
#[derive(Clone, Debug, PartialEq, Eq)]
pub struct NodeLink {
    pub url: String,
    pub title: String,
}

/// What a document node is, with the attributes of its kind.
#[derive(Clone, Debug, PartialEq, Eq)]
pub enum NodeValue {
    Document,
    FrontMatter(String),
    BlockQuote,
    List(NodeList),
    Item(NodeList),
    DescriptionList,
    DescriptionItem(NodeDescriptionItem),
    DescriptionTerm,
    DescriptionDetails,
    CodeBlock(NodeCodeBlock),
    HtmlBlock(NodeHtmlBlock),
    Paragraph,
    Heading(NodeHeading),
    ThematicBreak,
    FootnoteDefinition(String),
    Table(Vec<TableAlignment>),
    TableRow(bool),
    TableCell,
    Text(String),
    TaskItem(bool),
    SoftBreak,
    LineBreak,
    Code(NodeCode),
    HtmlInline(String),
    Emph,
    Strong,
    Strikethrough,
    Superscript,
    Link(NodeLink),
    Image(NodeLink),
    FootnoteReference(String),
}

/// A node of a document tree: its value and its children in order.
#[derive(Debug, PartialEq, Eq)]
pub struct AstNode {
    pub value: NodeValue,
    pub children: Vec<AstNode>,
}

/// The mathematical view of a [`NodeValue`]: strings are character
/// sequences, vectors are sequences.
pub enum AstValue {
    Document,
    FrontMatter(Seq<char>),
    BlockQuote,
    List(NodeList),
    Item(NodeList),
    DescriptionList,
    DescriptionItem(NodeDescriptionItem),
    DescriptionTerm,
    DescriptionDetails,
    CodeBlock {
        fenced: bool,
        fence_char: u8,
        fence_length: usize,
        fence_offset: usize,
        info: Seq<char>,
        literal: Seq<char>,
    },
    HtmlBlock { block_type: u8, literal: Seq<char> },
    Paragraph,
    Heading(NodeHeading),
    ThematicBreak,
    FootnoteDefinition(Seq<char>),
    Table(Seq<TableAlignment>),
    TableRow(bool),
    TableCell,
    Text(Seq<char>),
    TaskItem(bool),
    SoftBreak,
    LineBreak,
    Code { num_backticks: usize, literal: Seq<char> },
    HtmlInline(Seq<char>),
    Emph,
    Strong,
    Strikethrough,
    Superscript,
    Link { url: Seq<char>, title: Seq<char> },
    Image { url: Seq<char>, title: Seq<char> },
    FootnoteReference(Seq<char>),
}

/// The mathematical view of an [`AstNode`].
pub struct AstTree {
    pub value: AstValue,
    pub children: Seq<AstTree>,
}

impl View for NodeValue {
    type V = AstValue;

    open spec fn view(&self) -> AstValue {
        match *self {
            NodeValue::Document => AstValue::Document,
            NodeValue::FrontMatter(t) => AstValue::FrontMatter(t@),
            NodeValue::BlockQuote => AstValue::BlockQuote,
            NodeValue::List(nl) => AstValue::List(nl),
            NodeValue::Item(nl) => AstValue::Item(nl),
            NodeValue::DescriptionList => AstValue::DescriptionList,
            NodeValue::DescriptionItem(nd) => AstValue::DescriptionItem(nd),
            NodeValue::DescriptionTerm => AstValue::DescriptionTerm,
            NodeValue::DescriptionDetails => AstValue::DescriptionDetails,
            NodeValue::CodeBlock(cb) => AstValue::CodeBlock {
                fenced: cb.fenced,
                fence_char: cb.fence_char,
                fence_length: cb.fence_length,
                fence_offset: cb.fence_offset,
                info: cb.info@,
                literal: cb.literal@,
            },
            NodeValue::HtmlBlock(hb) => AstValue::HtmlBlock {
                block_type: hb.block_type,
                literal: hb.literal@,
            },
            NodeValue::Paragraph => AstValue::Paragraph,
            NodeValue::Heading(hd) => AstValue::Heading(hd),
            NodeValue::ThematicBreak => AstValue::ThematicBreak,
            NodeValue::FootnoteDefinition(t) => AstValue::FootnoteDefinition(t@),
            NodeValue::Table(align) => AstValue::Table(align@),
            NodeValue::TableRow(header) => AstValue::TableRow(header),
            NodeValue::TableCell => AstValue::TableCell,
            NodeValue::Text(t) => AstValue::Text(t@),
            NodeValue::TaskItem(checked) => AstValue::TaskItem(checked),
            NodeValue::SoftBreak => AstValue::SoftBreak,
            NodeValue::LineBreak => AstValue::LineBreak,
            NodeValue::Code(c) => AstValue::Code {
                num_backticks: c.num_backticks,
                literal: c.literal@,
            },
            NodeValue::HtmlInline(t) => AstValue::HtmlInline(t@),
            NodeValue::Emph => AstValue::Emph,
            NodeValue::Strong => AstValue::Strong,
            NodeValue::Strikethrough => AstValue::Strikethrough,
            NodeValue::Superscript => AstValue::Superscript,
            NodeValue::Link(l) => AstValue::Link { url: l.url@, title: l.title@ },
            NodeValue::Image(l) => AstValue::Image { url: l.url@, title: l.title@ },
            NodeValue::FootnoteReference(t) => AstValue::FootnoteReference(t@),
        }
    }
}

/// The tree that a node holds: the view of its value, and the trees of its
/// children in their order.
pub open spec fn tree_of(node: AstNode) -> AstTree
    decreases node,
{
    AstTree {
        value: node.value@,
        children: Seq::new(
            node.children@.len(),
            |i: int|
                if 0 <= i < node.children@.len() {
                    tree_of(node.children@[i])
                } else {
                    arbitrary()
                },
        ),
    }
}

impl View for AstNode {
    type V = AstTree;

    open spec fn view(&self) -> AstTree {
        tree_of(*self)
    }
}

/// The trees of a sequence of nodes, one for one.
pub open spec fn trees_of(nodes: Seq<AstNode>) -> Seq<AstTree> {
    Seq::new(nodes.len(), |i: int| nodes[i]@)
}

/// The view of a node holds the view of its value and the views of its
/// children, one for one.
pub proof fn lemma_view_children(node: AstNode)
    ensures
        node@.value == node.value@,
        node@.children == trees_of(node.children@),
        node@.children.len() == node.children@.len(),
        forall|i: int|
            0 <= i < node.children@.len() ==> #[trigger] node@.children[i] == node.children@[i]@,
{
    assert(node@.children =~= trees_of(node.children@));
}

impl AstNode {
    /// A node without children.
    pub fn leaf(value: NodeValue) -> (node: AstNode)
        ensures
            node@ == (AstTree { value: value@, children: Seq::empty() }),
    {
        let node = AstNode { value, children: Vec::new() };
        assert(node@.children =~= Seq::empty());
        node
    }
}

} // verus!
