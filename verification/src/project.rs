//! The projector: from a document tree to the XML tree that stands for it.

use vstd::prelude::*;
use crate::ast::{
    lemma_view_children, AstNode, AstTree, ListDelimType, ListType, NodeList, NodeValue,
    TableAlignment,
};
use crate::mapping::{
    alignment_text, delimiter_text, flag_text, head_of, holds_literal, list_element,
    list_type_text, project, project_all, tag,
};
use crate::numeral::{decimal, decimal_string};
use crate::walk::{forest_size, tree_size};
use crate::xml::{
    bare_element, dom, element_node, node_dom, set_attribute, text_node, XmlElement, XmlNode,
};

verus! {

/// The namespace of the elements that the projector makes.
pub const NS: &'static str = "markdown";

/// How a boolean attribute is written.
fn flag_str(flag: bool) -> (text: &'static str)
    ensures
        text@ == flag_text(flag),
{
    if flag {
        "1"
    } else {
        "0"
    }
}

/// How the kind of a list is written.
fn list_type_str(list_type: ListType) -> (text: &'static str)
    ensures
        text@ == list_type_text(list_type),
{
    match list_type {
        ListType::Ordered => "o",
        ListType::Bullet => "u",
    }
}

/// How the delimiter of an ordered list is written.
fn delimiter_str(delimiter: ListDelimType) -> (text: &'static str)
    ensures
        text@ == delimiter_text(delimiter),
{
    match delimiter {
        ListDelimType::Period => ".",
        ListDelimType::Paren => ")",
    }
}

/// The alignment attribute of a table: one character per column.
pub fn alignment_string(alignments: &Vec<TableAlignment>) -> (text: String)
    ensures
        text@ == alignment_text(alignments@),
{
    let mut text = String::new();
    let mut i: usize = 0;
    while i < alignments.len()
        invariant
            i <= alignments.len(),
            text@ == alignment_text(alignments@.take(i as int)),
        decreases alignments.len() - i,
    {
        let c = match alignments[i] {
            TableAlignment::Unspecified => '-',
            TableAlignment::Left => 'l',
            TableAlignment::Center => 'c',
            TableAlignment::Right => 'r',
        };
        text.push(c);
        assert(text@ =~= alignment_text(alignments@.take(i + 1)));
        i += 1;
    }
    assert(alignments@.take(i as int) =~= alignments@);
    text
}

/// An element of the given tag in the namespace of the mapping.
fn tag_element(name: &str) -> (e: minidom::Element)
    ensures
        dom(e) == tag(name@),
{
    bare_element(name, NS)
}

/// Sets a numeric attribute.
fn set_number(e: &mut minidom::Element, name: &str, n: u64)
    ensures
        dom(*final(e)) == dom(*old(e)).with_attr(name@, decimal(n as nat)),
{
    let digits = decimal_string(n);
    set_attribute(e, name, digits.as_str());
}

/// The element of a list or of a list item.
fn list_element_for(name: &str, list: &NodeList) -> (e: minidom::Element)
    ensures
        dom(e) == list_element(name@, *list),
{
    let mut e = tag_element(name);
    set_attribute(&mut e, "type", list_type_str(list.list_type));
    set_number(&mut e, "offset", list.marker_offset as u64);
    set_number(&mut e, "padding", list.padding as u64);
    set_number(&mut e, "start", list.start as u64);
    set_attribute(&mut e, "delimiter", delimiter_str(list.delimiter));
    set_attribute(&mut e, "tight", flag_str(list.tight));
    e
}

/// The element of a node that is no text node: its tag and attributes and,
/// where the node holds a literal, the literal as its only child.
fn element_from_value(value: &NodeValue) -> (e: minidom::Element)
    requires
        !(value@ is Text),
    ensures
        head_of(value@) == XmlNode::Element(dom(e)),
{
    match value {
        NodeValue::Document => tag_element("body"),
        NodeValue::FrontMatter(text) => {
            let mut e = tag_element("header");
            e.append_node(text_node(text.clone()));
            e
        },
        NodeValue::BlockQuote => tag_element("blockquote"),
        NodeValue::List(list) => {
            match list.list_type {
                ListType::Ordered => list_element_for("ol", list),
                ListType::Bullet => list_element_for("ul", list),
            }
        },
        NodeValue::Item(list) => list_element_for("li", list),
        NodeValue::DescriptionList => tag_element("dl"),
        NodeValue::DescriptionItem(item) => {
            let mut e = tag_element("di");
            set_number(&mut e, "offset", item.marker_offset as u64);
            set_number(&mut e, "padding", item.padding as u64);
            e
        },
        NodeValue::DescriptionTerm => tag_element("dt"),
        NodeValue::DescriptionDetails => tag_element("dd"),
        NodeValue::CodeBlock(block) => {
            let mut e = tag_element("pre");
            set_attribute(&mut e, "info", block.info.as_str());
            e.append_node(text_node(block.literal.clone()));
            e
        },
        NodeValue::HtmlBlock(block) => {
            let mut e = tag_element("object");
            set_number(&mut e, "type", block.block_type as u64);
            set_attribute(&mut e, "literal", block.literal.as_str());
            e
        },
        NodeValue::Paragraph => tag_element("p"),
        NodeValue::Heading(heading) => {
            let digits = decimal_string(heading.level as u64);
            let mut name = String::from_str("h");
            name.append(digits.as_str());
            let mut e = tag_element(name.as_str());
            set_attribute(&mut e, "level", digits.as_str());
            e
        },
        NodeValue::ThematicBreak => tag_element("hr"),
        NodeValue::FootnoteDefinition(name) => {
            let mut e = tag_element("footer");
            set_attribute(&mut e, "name", name.as_str());
            e
        },
        NodeValue::Table(alignments) => {
            let text = alignment_string(alignments);
            let mut e = tag_element("table");
            set_attribute(&mut e, "align", text.as_str());
            e
        },
        NodeValue::TableRow(header) => {
            if *header {
                tag_element("th")
            } else {
                tag_element("tr")
            }
        },
        NodeValue::TableCell => tag_element("td"),
        // A text node has no element; the precondition keeps it out.
        NodeValue::Text(_) => tag_element(""),
        NodeValue::TaskItem(checked) => {
            let mut e = tag_element("input");
            set_attribute(&mut e, "checked", flag_str(*checked));
            e
        },
        NodeValue::SoftBreak => tag_element("wbr"),
        NodeValue::LineBreak => tag_element("br"),
        NodeValue::Code(code) => {
            let mut e = tag_element("code");
            set_attribute(&mut e, "literal", code.literal.as_str());
            e
        },
        NodeValue::HtmlInline(literal) => {
            let mut e = tag_element("embed");
            set_attribute(&mut e, "literal", literal.as_str());
            e
        },
        NodeValue::Emph => tag_element("em"),
        NodeValue::Strong => tag_element("strong"),
        NodeValue::Strikethrough => tag_element("del"),
        NodeValue::Superscript => tag_element("sup"),
        NodeValue::Link(link) => {
            let mut e = tag_element("a");
            set_attribute(&mut e, "href", link.url.as_str());
            set_attribute(&mut e, "title", link.title.as_str());
            e
        },
        NodeValue::Image(link) => {
            let mut e = tag_element("img");
            set_attribute(&mut e, "src", link.url.as_str());
            set_attribute(&mut e, "title", link.title.as_str());
            e
        },
        NodeValue::FootnoteReference(name) => {
            let mut e = tag_element("sub");
            set_attribute(&mut e, "name", name.as_str());
            e
        },
    }
}

/// A node whose element is being built, on the way from the root to the
/// node at hand.
struct Frame<'a> {
    node: &'a AstNode,
    element: minidom::Element,
    /// How many children of `node` have been taken up.
    next: usize,
}

/// How many of its children a node hands on to its element: none where it
/// holds a literal, all of them otherwise.
spec fn handed_on(tree: AstTree) -> int {
    if holds_literal(tree.value) {
        0
    } else {
        tree.children.len() as int
    }
}

/// The element of a node to which the first `n` of its children have been
/// added.
spec fn partial(tree: AstTree, n: int) -> XmlElement {
    let head = head_of(tree.value)->Element_0;
    XmlElement { nodes: head.nodes + project_all(tree.children.take(n)), ..head }
}

/// What is left to do for a node of which `next` children have been taken
/// up.
spec fn frame_work(tree: AstTree, next: int) -> nat {
    1 + 2 * forest_size(tree.children.skip(next))
}

/// What is left to do for the nodes that wait for one of their children.
spec fn stack_work(frames: Seq<Frame>) -> nat
    decreases frames.len(),
{
    if frames.len() == 0 {
        0
    } else {
        stack_work(frames.drop_last()) + frame_work(frames.last().node@, frames.last().next as int)
    }
}

/// Whether `parent` waits for the element of its child `child`: all
/// children before it have been added to the element of `parent`.
spec fn waits_for(parent: Frame, child: AstTree) -> bool {
    &&& !(parent.node@.value is Text)
    &&& 1 <= parent.next <= handed_on(parent.node@)
    &&& parent.node@.children[parent.next - 1] == child
    &&& dom(parent.element) == partial(parent.node@, parent.next - 1)
}

/// Whether the waiting nodes lead from the root to the node at hand: the
/// first is the root, each waits for the next, and the last for the node
/// at hand.
#[verifier::opaque]
spec fn leads_to(stack: Seq<Frame>, top: AstTree, root: AstTree) -> bool {
    &&& stack.len() == 0 ==> top == root
    &&& stack.len() > 0 ==> waits_for(stack[stack.len() - 1], top) && stack[0].node@ == root
    &&& forall|k: int|
        0 <= k < stack.len() - 1 ==> waits_for(#[trigger] stack[k], stack[k + 1].node@)
}

/// A node that is no text node projects to its element with all the
/// children that it hands on.
proof fn lemma_project_partial(tree: AstTree)
    requires
        !(tree.value is Text),
    ensures
        project(tree) == XmlNode::Element(partial(tree, handed_on(tree))),
{
    let head = head_of(tree.value)->Element_0;
    if holds_literal(tree.value) {
        assert(partial(tree, 0).nodes =~= head.nodes);
    } else {
        assert(tree.children.take(tree.children.len() as int) =~= tree.children);
    }
}

/// The element of a node to which no child has been added is the element
/// of its value, and what is left to do for it is all of it.
proof fn lemma_partial_start(tree: AstTree)
    requires
        !(tree.value is Text),
    ensures
        head_of(tree.value) == XmlNode::Element(partial(tree, 0)),
        frame_work(tree, 0) + 1 == 2 * tree_size(tree),
{
    let head = head_of(tree.value)->Element_0;
    assert(partial(tree, 0).nodes =~= head.nodes);
    assert(tree.children.skip(0) =~= tree.children);
}

/// Adding the projection of the next child to a partial element gives the
/// next partial element, and leaves the more to do the larger the child
/// is.
proof fn lemma_partial_step(tree: AstTree, n: int)
    requires
        0 <= n < tree.children.len(),
    ensures
        partial(tree, n).with_node(project(tree.children[n])) == partial(tree, n + 1),
        frame_work(tree, n) == frame_work(tree, n + 1) + 2 * tree_size(tree.children[n]),
        tree_size(tree.children[n]) >= 1,
{
    let kids = tree.children;
    assert(project_all(kids.take(n + 1)) =~= project_all(kids.take(n)).push(project(kids[n])));
    assert(partial(tree, n).with_node(project(kids[n])).nodes =~= partial(tree, n + 1).nodes);
    assert(kids.skip(n).skip(1) =~= kids.skip(n + 1));
    assert(kids.skip(n)[0] == kids[n]);
}

/// The walk starts at the root with nothing waiting.
proof fn lemma_walk_start(root: AstTree)
    ensures
        leads_to(Seq::empty(), root, root),
        stack_work(Seq::empty()) == 0,
{
    reveal(leads_to);
}

/// The walk goes down: the node at hand waits for its child.
proof fn lemma_walk_down(stack: Seq<Frame>, frame: Frame, child: AstTree, root: AstTree)
    requires
        leads_to(stack, frame.node@, root),
        waits_for(frame, child),
    ensures
        leads_to(stack.push(frame), child, root),
        stack_work(stack.push(frame)) == stack_work(stack) + frame_work(
            frame.node@,
            frame.next as int,
        ),
{
    reveal(leads_to);
    let longer = stack.push(frame);
    assert(longer.drop_last() =~= stack);
    assert forall|k: int| 0 <= k < longer.len() - 1 implies waits_for(
        #[trigger] longer[k],
        longer[k + 1].node@,
    ) by {
        if k < stack.len() - 1 {
            assert(waits_for(stack[k], stack[k + 1].node@));
        }
    }
}

/// The walk goes up: the last of the waiting nodes waited for the node at
/// hand, and is at hand next.
proof fn lemma_walk_up(stack: Seq<Frame>, top: AstTree, root: AstTree)
    requires
        leads_to(stack, top, root),
        stack.len() > 0,
    ensures
        waits_for(stack.last(), top),
        leads_to(stack.drop_last(), stack.last().node@, root),
        stack_work(stack) == stack_work(stack.drop_last()) + frame_work(
            stack.last().node@,
            stack.last().next as int,
        ),
{
    reveal(leads_to);
    let shorter = stack.drop_last();
    assert forall|k: int| 0 <= k < shorter.len() - 1 implies waits_for(
        #[trigger] shorter[k],
        shorter[k + 1].node@,
    ) by {
        assert(waits_for(stack[k], stack[k + 1].node@));
    }
    if shorter.len() > 0 {
        assert(waits_for(stack[shorter.len() - 1], stack[shorter.len() as int].node@));
    }
}

/// The walk ends at the root.
proof fn lemma_walk_end(top: AstTree, root: AstTree)
    requires
        leads_to(Seq::empty(), top, root),
    ensures
        top == root,
{
    reveal(leads_to);
}

/// Projects a document tree to XML, depth first: each node becomes the
/// element or the text run that the mapping table gives for its value, and
/// the projections of its children follow in their order. The walk keeps
/// the nodes between the root and the node at hand on a stack of its own,
/// so that the call stack does not bound the depth of the document.
pub fn xml_from_ast(ast_node: &AstNode) -> (xml: minidom::Node)
    ensures
        node_dom(xml) == project(ast_node@),
{
    if let NodeValue::Text(text) = &ast_node.value {
        return text_node(text.clone());
    }
    let mut stack: Vec<Frame> = Vec::new();
    let mut node: &AstNode = ast_node;
    let mut element = element_from_value(&node.value);
    let mut next: usize = 0;
    proof {
        lemma_partial_start(node@);
        lemma_walk_start(ast_node@);
    }
    loop
        invariant
            !(node@.value is Text),
            0 <= next <= handed_on(node@),
            dom(element) == partial(node@, next as int),
            leads_to(stack@, node@, ast_node@),
        decreases stack_work(stack@) + frame_work(node@, next as int),
    {
        let literal = match &node.value {
            NodeValue::FrontMatter(_) => true,
            NodeValue::CodeBlock(_) => true,
            _ => false,
        };
        proof {
            lemma_view_children(*node);
        }
        if !literal && next < node.children.len() {
            let child: &AstNode = &node.children[next];
            proof {
                lemma_partial_step(node@, next as int);
                lemma_view_children(*child);
            }
            match &child.value {
                NodeValue::Text(text) => {
                    element.append_node(text_node(text.clone()));
                    next += 1;
                },
                value => {
                    let head = element_from_value(value);
                    let frame = Frame { node, element, next: next + 1 };
                    proof {
                        lemma_partial_start(child@);
                        lemma_walk_down(stack@, frame, child@, ast_node@);
                    }
                    stack.push(frame);
                    node = child;
                    element = head;
                    next = 0;
                },
            }
        } else {
            proof {
                lemma_project_partial(node@);
            }
            let done = element_node(element);
            proof {
                if stack.len() == 0 {
                    assert(stack@ =~= Seq::empty());
                    lemma_walk_end(node@, ast_node@);
                } else {
                    lemma_walk_up(stack@, node@, ast_node@);
                    let parent = stack@.last();
                    lemma_partial_step(parent.node@, parent.next - 1);
                }
            }
            match stack.pop() {
                None => {
                    return done;
                },
                Some(parent) => {
                    node = parent.node;
                    element = parent.element;
                    next = parent.next;
                    element.append_node(done);
                },
            }
        }
    }
}

} // verus!
