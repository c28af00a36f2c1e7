//! The reconstructor: from an XML tree back to the document tree that it
//! stands for, whatever the XML holds.

use vstd::prelude::*;
use crate::ast::{
    lemma_view_children, trees_of, AstNode, AstTree, AstValue, ListDelimType, ListType,
    NodeCode, NodeCodeBlock, NodeDescriptionItem, NodeHeading, NodeHtmlBlock, NodeLink,
    NodeList, NodeValue, TableAlignment,
};
use crate::mapping::{
    alignments_of, has_children, list_of, reconstruct, reconstruct_all, text_or_empty, value_of,
};
use crate::numeral::{number_or_zero, parse_number};
use crate::text::chars_of;
use crate::walk::{element_size, node_size, nodes_size};
use crate::xml::{child_nodes, dom, node_dom, XmlElement, XmlNode};

verus! {

/// The value of a text attribute, or the empty text where it is missing.
fn attr_text(e: &minidom::Element, name: &str) -> (text: String)
    ensures
        text@ == text_or_empty(dom(*e).attr(name@)),
{
    match e.attr(name) {
        Some(value) => String::from_str(value),
        None => String::new(),
    }
}

/// The value of a numeric attribute, or 0 where it is missing or no
/// number of at most `max`.
fn attr_number(e: &minidom::Element, name: &str, max: u64) -> (n: u64)
    ensures
        n == number_or_zero(dom(*e).attr(name@), max as nat),
        n <= max,
{
    match e.attr(name) {
        Some(value) => match parse_number(value, max) {
            Some(n) => n,
            None => 0,
        },
        None => 0,
    }
}

/// Whether the element has the attribute with exactly this value.
fn attr_is(e: &minidom::Element, name: &str, expected: &str) -> (same: bool)
    ensures
        same == (dom(*e).attr(name@) == Some(expected@)),
{
    match e.attr(name) {
        Some(value) => value.eq(expected),
        None => false,
    }
}

/// The alignments that an alignment attribute stands for: one column per
/// character, and no alignment for a character that is none of `l`, `c`,
/// `r`.
pub fn alignments_from(text: &str) -> (alignments: Vec<TableAlignment>)
    ensures
        alignments@ == alignments_of(text@),
{
    let chars = chars_of(text);
    let mut alignments: Vec<TableAlignment> = Vec::new();
    let mut i: usize = 0;
    while i < chars.len()
        invariant
            i <= chars.len(),
            chars@ == text@,
            alignments@ == alignments_of(text@.take(i as int)),
        decreases chars.len() - i,
    {
        let c = chars[i];
        let alignment = if c == 'l' {
            TableAlignment::Left
        } else if c == 'c' {
            TableAlignment::Center
        } else if c == 'r' {
            TableAlignment::Right
        } else {
            TableAlignment::Unspecified
        };
        alignments.push(alignment);
        assert(alignments@ =~= alignments_of(text@.take(i + 1)));
        i += 1;
    }
    assert(text@.take(i as int) =~= text@);
    alignments
}

/// The list attributes that an element carries.
fn node_list_from_xml(xml_elm: &minidom::Element) -> (list: NodeList)
    ensures
        list == list_of(dom(*xml_elm)),
{
    NodeList {
        list_type: if attr_is(xml_elm, "type", "o") {
            ListType::Ordered
        } else {
            ListType::Bullet
        },
        marker_offset: attr_number(xml_elm, "offset", usize::MAX as u64) as usize,
        padding: attr_number(xml_elm, "padding", usize::MAX as u64) as usize,
        start: attr_number(xml_elm, "start", usize::MAX as u64) as usize,
        delimiter: if attr_is(xml_elm, "delimiter", ")") {
            ListDelimType::Paren
        } else {
            ListDelimType::Period
        },
        bullet_char: 45,
        tight: attr_is(xml_elm, "tight", "1"),
    }
}

/// The value of the document node that an element stands for.
fn value_from_xml(xml_elm: &minidom::Element) -> (value: NodeValue)
    ensures
        value@ == value_of(dom(*xml_elm)),
{
    let name = xml_elm.name();
    if name.eq("body") {
        NodeValue::Document
    } else if name.eq("header") {
        NodeValue::FrontMatter(xml_elm.text())
    } else if name.eq("blockquote") {
        NodeValue::BlockQuote
    } else if name.eq("ul") || name.eq("ol") {
        NodeValue::List(node_list_from_xml(xml_elm))
    } else if name.eq("li") {
        NodeValue::Item(node_list_from_xml(xml_elm))
    } else if name.eq("dl") {
        NodeValue::DescriptionList
    } else if name.eq("di") {
        NodeValue::DescriptionItem(
            NodeDescriptionItem {
                marker_offset: attr_number(xml_elm, "offset", usize::MAX as u64) as usize,
                padding: attr_number(xml_elm, "padding", usize::MAX as u64) as usize,
            },
        )
    } else if name.eq("dt") {
        NodeValue::DescriptionTerm
    } else if name.eq("dd") {
        NodeValue::DescriptionDetails
    } else if name.eq("pre") {
        NodeValue::CodeBlock(
            NodeCodeBlock {
                fenced: true,
                fence_char: 96,
                fence_length: 3,
                fence_offset: 0,
                info: attr_text(xml_elm, "info"),
                literal: xml_elm.text(),
            },
        )
    } else if name.eq("object") {
        NodeValue::HtmlBlock(
            NodeHtmlBlock {
                block_type: attr_number(xml_elm, "type", u8::MAX as u64) as u8,
                literal: attr_text(xml_elm, "literal"),
            },
        )
    } else if name.eq("p") {
        NodeValue::Paragraph
    } else if name.eq("h1") || name.eq("h2") || name.eq("h3") || name.eq("h4") || name.eq("h5")
        || name.eq("h6") {
        NodeValue::Heading(
            NodeHeading {
                level: attr_number(xml_elm, "level", u32::MAX as u64) as u32,
                setext: false,
            },
        )
    } else if name.eq("hr") {
        NodeValue::ThematicBreak
    } else if name.eq("footer") {
        NodeValue::FootnoteDefinition(attr_text(xml_elm, "name"))
    } else if name.eq("table") {
        let text = attr_text(xml_elm, "align");
        NodeValue::Table(alignments_from(text.as_str()))
    } else if name.eq("th") {
        NodeValue::TableRow(true)
    } else if name.eq("tr") {
        NodeValue::TableRow(false)
    } else if name.eq("td") {
        NodeValue::TableCell
    } else if name.eq("input") {
        NodeValue::TaskItem(attr_is(xml_elm, "checked", "1"))
    } else if name.eq("wbr") {
        NodeValue::SoftBreak
    } else if name.eq("br") {
        NodeValue::LineBreak
    } else if name.eq("code") {
        NodeValue::Code(NodeCode { num_backticks: 1, literal: attr_text(xml_elm, "literal") })
    } else if name.eq("embed") {
        NodeValue::HtmlInline(attr_text(xml_elm, "literal"))
    } else if name.eq("em") {
        NodeValue::Emph
    } else if name.eq("strong") {
        NodeValue::Strong
    } else if name.eq("del") {
        NodeValue::Strikethrough
    } else if name.eq("sup") {
        NodeValue::Superscript
    } else if name.eq("a") {
        NodeValue::Link(
            NodeLink { url: attr_text(xml_elm, "href"), title: attr_text(xml_elm, "title") },
        )
    } else if name.eq("img") {
        NodeValue::Image(
            NodeLink { url: attr_text(xml_elm, "src"), title: attr_text(xml_elm, "title") },
        )
    } else if name.eq("sub") {
        NodeValue::FootnoteReference(attr_text(xml_elm, "name"))
    } else {
        NodeValue::Text(String::new())
    }
}

/// An element whose tree is being rebuilt, on the way from the root to
/// the element at hand.
struct Frame<'a> {
    element: &'a minidom::Element,
    value: NodeValue,
    /// The child nodes to read: those of `element`, or none where its
    /// children are not read.
    nodes: Vec<&'a minidom::Node>,
    /// How many of `nodes` have been taken up.
    next: usize,
    /// The trees of the nodes taken up so far.
    children: Vec<AstNode>,
}

/// How many of its child nodes an element hands on to its tree.
spec fn taken_in(e: XmlElement) -> int {
    if has_children(value_of(e)) {
        e.nodes.len() as int
    } else {
        0
    }
}

/// The tree of an element of which the first `n` child nodes have been
/// read.
spec fn rebuilt(e: XmlElement, n: int) -> AstTree {
    AstTree { value: value_of(e), children: reconstruct_all(e.nodes.take(n)) }
}

/// What is left to do for an element of which `next` child nodes have
/// been taken up.
spec fn frame_work(e: XmlElement, next: int) -> nat {
    1 + 2 * nodes_size(e.nodes.skip(next))
}

/// What is left to do for the elements that wait for one of their
/// children.
spec fn stack_work(frames: Seq<Frame>) -> nat
    decreases frames.len(),
{
    if frames.len() == 0 {
        0
    } else {
        stack_work(frames.drop_last()) + frame_work(
            dom(*frames.last().element),
            frames.last().next as int,
        )
    }
}

/// Whether the value and the child nodes that are held for an element are
/// its own.
spec fn holds_for(value: NodeValue, nodes: Seq<&minidom::Node>, e: XmlElement) -> bool {
    &&& value@ == value_of(e)
    &&& nodes.len() == taken_in(e)
    &&& forall|i: int| 0 <= i < nodes.len() ==> node_dom(*#[trigger] nodes[i]) == e.nodes[i]
}

/// Whether `parent` waits for the tree of its child `child`: the trees of
/// all child nodes before it have been rebuilt.
spec fn waits_for(parent: Frame, child: XmlElement) -> bool {
    let e = dom(*parent.element);
    &&& holds_for(parent.value, parent.nodes@, e)
    &&& 1 <= parent.next <= taken_in(e)
    &&& e.nodes[parent.next - 1] == XmlNode::Element(child)
    &&& trees_of(parent.children@) == reconstruct_all(e.nodes.take(parent.next - 1))
}

/// Whether the waiting elements lead from the root to the element at
/// hand: the first is the root, each waits for the next, and the last for
/// the element at hand.
#[verifier::opaque]
spec fn leads_to(stack: Seq<Frame>, top: XmlElement, root: XmlElement) -> bool {
    &&& stack.len() == 0 ==> top == root
    &&& stack.len() > 0 ==> waits_for(stack[stack.len() - 1], top) && dom(*stack[0].element)
        == root
    &&& forall|k: int|
        0 <= k < stack.len() - 1 ==> waits_for(#[trigger] stack[k], dom(*stack[k + 1].element))
}

/// An element stands for its tree with all the child nodes that it hands
/// on.
proof fn lemma_reconstruct_rebuilt(e: XmlElement)
    ensures
        reconstruct(e) == rebuilt(e, taken_in(e)),
{
    if has_children(value_of(e)) {
        assert(e.nodes.take(e.nodes.len() as int) =~= e.nodes);
    } else {
        assert(reconstruct_all(e.nodes.take(0)) =~= Seq::<AstTree>::empty());
    }
}

/// What is left to do for an element of which no child has been read.
proof fn lemma_rebuilt_start(e: XmlElement)
    ensures
        reconstruct_all(e.nodes.take(0)) == Seq::<AstTree>::empty(),
        frame_work(e, 0) + 1 == 2 * element_size(e),
{
    assert(e.nodes.skip(0) =~= e.nodes);
}

/// Reading the next child node adds its tree, if it has one, and leaves
/// the more to do the larger the node is.
proof fn lemma_rebuilt_step(e: XmlElement, n: int)
    requires
        0 <= n < e.nodes.len(),
    ensures
        reconstruct_all(e.nodes.take(n + 1)) == (match e.nodes[n] {
            XmlNode::Element(child) => reconstruct_all(e.nodes.take(n)).push(reconstruct(child)),
            XmlNode::Text(text) => if text.len() == 0 {
                reconstruct_all(e.nodes.take(n))
            } else {
                reconstruct_all(e.nodes.take(n)).push(
                    AstTree { value: AstValue::Text(text), children: Seq::empty() },
                )
            },
        }),
        frame_work(e, n) == frame_work(e, n + 1) + 2 * node_size(e.nodes[n]),
        node_size(e.nodes[n]) >= 1,
{
    let nodes = e.nodes;
    assert(nodes.take(n + 1).drop_last() =~= nodes.take(n));
    assert(nodes.take(n + 1).last() == nodes[n]);
    assert(nodes.skip(n).skip(1) =~= nodes.skip(n + 1));
    assert(nodes.skip(n)[0] == nodes[n]);
}

/// The walk starts at the root with nothing waiting.
proof fn lemma_walk_start(root: XmlElement)
    ensures
        leads_to(Seq::empty(), root, root),
        stack_work(Seq::empty()) == 0,
{
    reveal(leads_to);
}

/// The walk goes down: the element at hand waits for its child.
proof fn lemma_walk_down(stack: Seq<Frame>, frame: Frame, child: XmlElement, root: XmlElement)
    requires
        leads_to(stack, dom(*frame.element), root),
        waits_for(frame, child),
    ensures
        leads_to(stack.push(frame), child, root),
        stack_work(stack.push(frame)) == stack_work(stack) + frame_work(
            dom(*frame.element),
            frame.next as int,
        ),
{
    reveal(leads_to);
    let longer = stack.push(frame);
    assert(longer.drop_last() =~= stack);
    assert forall|k: int| 0 <= k < longer.len() - 1 implies waits_for(
        #[trigger] longer[k],
        dom(*longer[k + 1].element),
    ) by {
        if k < stack.len() - 1 {
            assert(waits_for(stack[k], dom(*stack[k + 1].element)));
        }
    }
}

/// The walk goes up: the last of the waiting elements waited for the
/// element at hand, and is at hand next.
proof fn lemma_walk_up(stack: Seq<Frame>, top: XmlElement, root: XmlElement)
    requires
        leads_to(stack, top, root),
        stack.len() > 0,
    ensures
        waits_for(stack.last(), top),
        leads_to(stack.drop_last(), dom(*stack.last().element), root),
        stack_work(stack) == stack_work(stack.drop_last()) + frame_work(
            dom(*stack.last().element),
            stack.last().next as int,
        ),
{
    reveal(leads_to);
    let shorter = stack.drop_last();
    assert forall|k: int| 0 <= k < shorter.len() - 1 implies waits_for(
        #[trigger] shorter[k],
        dom(*shorter[k + 1].element),
    ) by {
        assert(waits_for(stack[k], dom(*stack[k + 1].element)));
    }
    if shorter.len() > 0 {
        assert(waits_for(
            stack[shorter.len() - 1],
            dom(*stack[shorter.len() as int].element),
        ));
    }
}

/// The walk ends at the root.
proof fn lemma_walk_end(top: XmlElement, root: XmlElement)
    requires
        leads_to(Seq::empty(), top, root),
    ensures
        top == root,
{
    reveal(leads_to);
}

/// The child nodes of an element that are read as document nodes: all of
/// them, or none where the element stands for text or holds a literal.
fn nodes_to_read<'a>(xml_elm: &'a minidom::Element, value: &NodeValue) -> (nodes: Vec<
    &'a minidom::Node,
>)
    requires
        value@ == value_of(dom(*xml_elm)),
    ensures
        holds_for(*value, nodes@, dom(*xml_elm)),
{
    match value {
        NodeValue::Text(_) => Vec::new(),
        NodeValue::FrontMatter(_) => Vec::new(),
        NodeValue::CodeBlock(_) => Vec::new(),
        _ => child_nodes(xml_elm),
    }
}

/// Rebuilds the document tree that an element stands for. The tag name
/// alone decides the kind of each node; an unknown tag gives an empty text
/// node, and a missing or damaged attribute its default, so that every
/// element gives a tree. The walk keeps the elements between the root and
/// the element at hand on a stack of its own, so that the call stack does
/// not bound the depth of the XML.
pub fn ast_from_xml(xml_elm: &minidom::Element) -> (ast: AstNode)
    ensures
        ast@ == reconstruct(dom(*xml_elm)),
{
    let ghost root = dom(*xml_elm);
    let mut stack: Vec<Frame> = Vec::new();
    let mut element: &minidom::Element = xml_elm;
    let mut value = value_from_xml(element);
    let mut nodes = nodes_to_read(element, &value);
    let mut next: usize = 0;
    let mut children: Vec<AstNode> = Vec::new();
    proof {
        lemma_rebuilt_start(root);
        lemma_walk_start(root);
        assert(trees_of(children@) =~= Seq::<AstTree>::empty());
    }
    loop
        invariant
            root == dom(*xml_elm),
            holds_for(value, nodes@, dom(*element)),
            0 <= next <= nodes.len(),
            trees_of(children@) == reconstruct_all(dom(*element).nodes.take(next as int)),
            leads_to(stack@, dom(*element), root),
        decreases stack_work(stack@) + frame_work(dom(*element), next as int),
    {
        let ghost e = dom(*element);
        if next < nodes.len() {
            let node = nodes[next];
            proof {
                lemma_rebuilt_step(e, next as int);
            }
            match node.as_element() {
                Some(child) => {
                    let child_value = value_from_xml(child);
                    let child_nodes = nodes_to_read(child, &child_value);
                    let frame = Frame { element, value, nodes, next: next + 1, children };
                    proof {
                        lemma_rebuilt_start(dom(*child));
                        lemma_walk_down(stack@, frame, dom(*child), root);
                    }
                    stack.push(frame);
                    element = child;
                    value = child_value;
                    nodes = child_nodes;
                    next = 0;
                    children = Vec::new();
                    assert(trees_of(children@) =~= Seq::<AstTree>::empty());
                },
                None => {
                    match node.as_text() {
                        Some(text) => {
                            if !text.is_empty() {
                                let ghost before = children@;
                                let leaf = AstNode::leaf(NodeValue::Text(String::from_str(text)));
                                children.push(leaf);
                                assert(trees_of(children@) =~= trees_of(before).push(leaf@));
                            }
                        },
                        None => {},
                    }
                    next += 1;
                },
            }
        } else {
            let done = AstNode { value, children };
            proof {
                lemma_view_children(done);
                lemma_reconstruct_rebuilt(e);
                if stack.len() == 0 {
                    assert(stack@ =~= Seq::empty());
                    lemma_walk_end(e, root);
                } else {
                    lemma_walk_up(stack@, e, root);
                    let parent = stack@.last();
                    lemma_rebuilt_step(dom(*parent.element), parent.next - 1);
                }
            }
            match stack.pop() {
                None => {
                    return done;
                },
                Some(parent) => {
                    element = parent.element;
                    value = parent.value;
                    nodes = parent.nodes;
                    next = parent.next;
                    children = parent.children;
                    let ghost before = children@;
                    children.push(done);
                    assert(trees_of(children@) =~= trees_of(before).push(done@));
                },
            }
        }
    }
}

} // verus!
