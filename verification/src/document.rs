//! Whole documents: from a parsed CommonMark document to its XML, as a DOM
//! and as text, and from XML back to the document to be written out.

use vstd::prelude::*;
use crate::ast::{AstNode, AstTree, AstValue};
use crate::mapping::{
    head_of, holds_literal, is_known_tag, namespace, project, reconstruct, tag,
};
use crate::roundtrip::lemma_heading_tag;
use crate::project::{xml_from_ast, NS};
use crate::reconstruct::ast_from_xml;
use crate::shortcode::{escape_all_shortcodes, escaped, unescape_all_shortcodes, unescaped};
use crate::xml::{
    bare_element, dom, error_kind, is_plain_name, is_writable, parse_element, write_element,
    xml_text, xml_tree, XmlElement, XmlError, XmlNode,
};

verus! {

/// The root element of the XML of a document: what the document projects
/// to, or an empty `body` where that is no element.
pub open spec fn root_of(node: XmlNode) -> XmlElement {
    match node {
        XmlNode::Element(e) => e,
        XmlNode::Text(_) => tag("body"@),
    }
}

/// The element that a value maps to declares no prefix, has plain
/// attribute names and no element below it.
proof fn lemma_head_writable(value: AstValue)
    ensures
        head_of(value) matches XmlNode::Element(e) ==> {
            &&& e.prefixes == Map::<Option<Seq<char>>, Seq<char>>::empty()
            &&& forall|name: Seq<char>| e.attrs.contains_key(name) ==> is_plain_name(name)
            &&& forall|i: int| 0 <= i < e.nodes.len() ==> #[trigger] e.nodes[i] is Text
        },
{
    reveal_strlit("type");
    reveal_strlit("offset");
    reveal_strlit("padding");
    reveal_strlit("start");
    reveal_strlit("delimiter");
    reveal_strlit("tight");
    reveal_strlit("info");
    reveal_strlit("literal");
    reveal_strlit("level");
    reveal_strlit("name");
    reveal_strlit("align");
    reveal_strlit("checked");
    reveal_strlit("href");
    reveal_strlit("src");
    reveal_strlit("title");
}

/// `minidom` can write whatever a document projects to.
pub proof fn lemma_projection_writable(tree: AstTree)
    ensures
        is_writable(root_of(project(tree))),
    decreases tree,
{
    lemma_head_writable(tree.value);
    match project(tree) {
        XmlNode::Text(_) => {},
        XmlNode::Element(e) => {
            assert forall|i: int| 0 <= i < e.nodes.len() implies (#[trigger] e.nodes[i]
                matches XmlNode::Element(child) ==> is_writable(child)) by {
                if !holds_literal(tree.value) {
                    let head = head_of(tree.value)->Element_0;
                    if i >= head.nodes.len() {
                        let k = i - head.nodes.len();
                        assert(e.nodes[i] == project(tree.children[k]));
                        lemma_projection_writable(tree.children[k]);
                    }
                }
            }
        },
    }
}

/// Whether every heading of a tree has a level from 1 to 6.
pub open spec fn has_heading_levels(tree: AstTree) -> bool
    decreases tree,
{
    &&& tree.value matches AstValue::Heading(heading) ==> 1 <= heading.level <= 6
    &&& forall|i: int|
        0 <= i < tree.children.len() ==> has_heading_levels(#[trigger] tree.children[i])
}

/// Whether an element and every element below it have a tag of the
/// mapping table, in its namespace.
pub open spec fn in_vocabulary(e: XmlElement) -> bool
    decreases e,
{
    &&& is_known_tag(e.name)
    &&& e.ns == namespace()
    &&& forall|i: int|
        0 <= i < e.nodes.len() ==> (#[trigger] e.nodes[i] matches XmlNode::Element(child)
            ==> in_vocabulary(child))
}

/// The projector keeps to the vocabulary of the mapping table: the XML of
/// a document whose headings have levels from 1 to 6 holds no other tag
/// and no other namespace; and the root of the XML of a document is
/// `body`.
pub proof fn lemma_projection_vocabulary(tree: AstTree)
    requires
        has_heading_levels(tree),
    ensures
        in_vocabulary(root_of(project(tree))),
        tree.value is Document ==> root_of(project(tree)).name == "body"@,
    decreases tree,
{
    if let AstValue::Heading(heading) = tree.value {
        lemma_heading_tag(heading.level);
    }
    match project(tree) {
        XmlNode::Text(_) => {},
        XmlNode::Element(e) => {
            assert forall|i: int| 0 <= i < e.nodes.len() implies (#[trigger] e.nodes[i]
                matches XmlNode::Element(child) ==> in_vocabulary(child)) by {
                let head = head_of(tree.value)->Element_0;
                if !holds_literal(tree.value) && i >= head.nodes.len() {
                    let k = i - head.nodes.len();
                    assert(e.nodes[i] == project(tree.children[k]));
                    lemma_projection_vocabulary(tree.children[k]);
                }
            }
        },
    }
}

/// The XML DOM of a parsed CommonMark document: the projection of its
/// root, or an empty `body` where the root is a text node.
pub fn xmldom_from_cmark(ast_root: &AstNode) -> (xml_root: minidom::Element)
    ensures
        dom(xml_root) == root_of(project(ast_root@)),
{
    match xml_from_ast(ast_root).into_element() {
        Some(xml) => xml,
        None => bare_element("body", NS),
    }
}

/// The XML text of a parsed CommonMark document: what `minidom` writes
/// for its DOM.
pub fn xml_from_cmark(ast_root: &AstNode) -> (r: Result<String, XmlError>)
    ensures
        match r {
            Ok(xml) => xml_text(root_of(project(ast_root@))) == Ok::<_, XmlError>(xml@),
            Err(e) => xml_text(root_of(project(ast_root@))) == Err::<Seq<char>, _>(e),
        },
{
    let xml_root = xmldom_from_cmark(ast_root);
    proof {
        lemma_projection_writable(ast_root@);
    }
    match write_element(&xml_root) {
        Ok(xml) => Ok(xml),
        Err(err) => Err(error_kind(&err)),
    }
}

/// The document that an XML text stands for: the reconstruction of what
/// `minidom` reads from it, and the error where `minidom` reads nothing.
pub fn cmark_from_xml(xml_str: &str) -> (r: Result<AstNode, XmlError>)
    ensures
        match r {
            Ok(ast_root) => xml_tree(xml_str@) matches Ok(e) && ast_root@ == reconstruct(e),
            Err(e) => xml_tree(xml_str@) == Err::<XmlElement, _>(e),
        },
{
    match parse_element(xml_str) {
        Ok(xml_root) => Ok(ast_from_xml(&xml_root)),
        Err(err) => Err(error_kind(&err)),
    }
}

/// The CommonMark text to hand to the parser: the text itself, with its
/// shortcodes hidden where `escape_shortcode` is set.
pub fn cmark_to_parse(cmark_text: &str, escape_shortcode: bool) -> (text: String)
    ensures
        text@ == if escape_shortcode {
            escaped(cmark_text@)
        } else {
            cmark_text@
        },
{
    if escape_shortcode {
        escape_all_shortcodes(cmark_text)
    } else {
        String::from_str(cmark_text)
    }
}

/// The CommonMark text to hand out: what the serializer wrote, with its
/// shortcodes restored where `escape_shortcode` is set.
pub fn cmark_written(cmark_text: &str, escape_shortcode: bool) -> (text: String)
    ensures
        text@ == if escape_shortcode {
            unescaped(cmark_text@)
        } else {
            cmark_text@
        },
{
    if escape_shortcode {
        unescape_all_shortcodes(cmark_text)
    } else {
        String::from_str(cmark_text)
    }
}

} // verus!
