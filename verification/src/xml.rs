//! The XML side: a mathematical model of an element tree, and the contracts
//! under which `minidom` elements are built and read.

use vstd::prelude::*;

verus! {

/// What an XML element is: its local name, its namespace, the namespace
/// prefixes that it declares, its attributes and its child nodes in
/// document order.
pub struct XmlElement {
    pub name: Seq<char>,
    pub ns: Seq<char>,
    pub prefixes: Map<Option<Seq<char>>, Seq<char>>,
    pub attrs: Map<Seq<char>, Seq<char>>,
    pub nodes: Seq<XmlNode>,
}

/// Why `minidom` refused to read or to write XML text.
#[derive(Clone, Copy, Debug, PartialEq, Eq, Structural)]
pub enum XmlError {
    /// The text is not well-formed XML, or a name or a character cannot be
    /// written as XML.
    Syntax,
    /// The text ends before the root element does.
    EndOfDocument,
    /// An attribute has a prefix that is not declared.
    InvalidPrefix,
    /// An element has no namespace.
    MissingNamespace,
    /// A prefix is declared twice.
    DuplicatePrefix,
}

/// A child of an element: a nested element or a run of text.
pub enum XmlNode {
    Element(XmlElement),
    Text(Seq<char>),
}

impl XmlElement {
    /// The element of the given name and namespace without attributes or
    /// children.
    pub open spec fn bare(name: Seq<char>, ns: Seq<char>) -> XmlElement {
        XmlElement {
            name,
            ns,
            prefixes: Map::empty(),
            attrs: Map::empty(),
            nodes: Seq::empty(),
        }
    }

    /// This element with the attribute `name` set to `value`.
    pub open spec fn with_attr(self, name: Seq<char>, value: Seq<char>) -> XmlElement {
        XmlElement { attrs: self.attrs.insert(name, value), ..self }
    }

    /// This element with `node` appended to its children.
    pub open spec fn with_node(self, node: XmlNode) -> XmlElement {
        XmlElement { nodes: self.nodes.push(node), ..self }
    }

    /// The value of the attribute `name`, where the element has it.
    pub open spec fn attr(self, name: Seq<char>) -> Option<Seq<char>> {
        if self.attrs.contains_key(name) {
            Some(self.attrs[name])
        } else {
            None
        }
    }

    /// The text runs among the children, joined in order.
    pub open spec fn text(self) -> Seq<char> {
        text_of(self.nodes)
    }
}

/// `minidom::Element`, known by what [`dom`] says that it holds.
#[verifier::external_type_specification]
#[verifier::external_body]
pub struct ExElement(minidom::Element);

/// `minidom::Node`, known by what [`node_dom`] says that it holds.
#[verifier::external_type_specification]
#[verifier::external_body]
pub struct ExNode(minidom::Node);

/// `minidom::Error`, known by its kind, [`fault`].
#[verifier::external_type_specification]
#[verifier::external_body]
pub struct ExError(minidom::Error);

/// Whether a name is made of the letters `a` to `z` alone, and of one at
/// least.
pub open spec fn is_plain_name(name: Seq<char>) -> bool {
    name.len() > 0 && forall|i: int| 0 <= i < name.len() ==> 97 <= #[trigger] name[i] as u32 <= 122
}

/// Whether `minidom` can try to write an element: neither the element nor
/// any element below it declares a prefix, and every attribute name is
/// plain.
pub open spec fn is_writable(e: XmlElement) -> bool
    decreases e,
{
    &&& e.prefixes == Map::<Option<Seq<char>>, Seq<char>>::empty()
    &&& forall|name: Seq<char>| e.attrs.contains_key(name) ==> is_plain_name(name)
    &&& forall|i: int|
        0 <= i < e.nodes.len() ==> (#[trigger] e.nodes[i] matches XmlNode::Element(child)
            ==> is_writable(child))
}

/// The tree that a `minidom` element holds.
pub uninterp spec fn dom(e: minidom::Element) -> XmlElement;

/// The node that a `minidom` node holds.
pub uninterp spec fn node_dom(n: minidom::Node) -> XmlNode;

/// The kind of a `minidom` error.
pub uninterp spec fn fault(err: minidom::Error) -> XmlError;

/// What `minidom` writes for an element: its XML text, or the reason why
/// it writes none.
pub uninterp spec fn xml_text(e: XmlElement) -> Result<Seq<char>, XmlError>;

/// What `minidom` reads from a text: the root element, or the reason why
/// it reads none.
pub uninterp spec fn xml_tree(text: Seq<char>) -> Result<XmlElement, XmlError>;

/// The concatenation of the text runs among `nodes`, in order.
pub open spec fn text_of(nodes: Seq<XmlNode>) -> Seq<char>
    decreases nodes.len(),
{
    if nodes.len() == 0 {
        Seq::empty()
    } else {
        let head = text_of(nodes.drop_last());
        match nodes.last() {
            XmlNode::Text(t) => head + t,
            XmlNode::Element(_) => head,
        }
    }
}

/// `minidom::Element::bare`: an element of the given name and namespace
/// without attributes or children.
#[verifier::external_body]
pub(crate) fn bare_element(name: &str, ns: &str) -> (e: minidom::Element)
    ensures
        dom(e) == XmlElement::bare(name@, ns@),
{
    minidom::Element::bare(name, ns)
}

/// `minidom::Element::set_attr` with a string value: the attribute is added,
/// or its value replaced; nothing else changes.
#[verifier::external_body]
pub(crate) fn set_attribute(e: &mut minidom::Element, name: &str, value: &str)
    ensures
        dom(*final(e)) == dom(*old(e)).with_attr(name@, value@),
{
    e.set_attr(name, value);
}

/// `minidom::Element::append_node`: the node becomes the last child.
pub assume_specification[ minidom::Element::append_node ](
    e: &mut minidom::Element,
    node: minidom::Node,
)
    ensures
        dom(*final(e)) == dom(*old(e)).with_node(node_dom(node)),
;

/// The variant `minidom::Node::Text`.
#[verifier::external_body]
pub(crate) fn text_node(text: String) -> (n: minidom::Node)
    ensures
        node_dom(n) == XmlNode::Text(text@),
{
    minidom::Node::Text(text)
}

/// The variant `minidom::Node::Element`.
#[verifier::external_body]
pub(crate) fn element_node(e: minidom::Element) -> (n: minidom::Node)
    ensures
        node_dom(n) == XmlNode::Element(dom(e)),
{
    minidom::Node::Element(e)
}

/// `minidom::Element::name`: the local name.
pub assume_specification<'a>[ minidom::Element::name ](e: &'a minidom::Element) -> (r: &'a str)
    ensures
        r@ == dom(*e).name,
;

/// `minidom::Element::attr`: the value of the named attribute, if the
/// element has it.
pub assume_specification<'a, 'b>[ minidom::Element::attr ](
    e: &'a minidom::Element,
    name: &'b str,
) -> (r: Option<&'a str>)
    ensures
        match r {
            Some(v) => dom(*e).attr(name@) == Some(v@),
            None => dom(*e).attr(name@) is None,
        },
;

/// `minidom::Element::text`: the text runs among the children, joined.
pub assume_specification[ minidom::Element::text ](e: &minidom::Element) -> (r: String)
    ensures
        r@ == dom(*e).text(),
;

/// `minidom::Element::nodes`, collected: the children in document order.
#[verifier::external_body]
pub(crate) fn child_nodes(e: &minidom::Element) -> (r: Vec<&minidom::Node>)
    ensures
        r@.len() == dom(*e).nodes.len(),
        forall|i: int| 0 <= i < r@.len() ==> node_dom(*#[trigger] r@[i]) == dom(*e).nodes[i],
{
    e.nodes().collect()
}

/// `minidom::Node::as_element`: the element, where the node is one.
pub assume_specification<'a>[ minidom::Node::as_element ](n: &'a minidom::Node) -> (r: Option<
    &'a minidom::Element,
>)
    ensures
        match r {
            Some(e) => node_dom(*n) == XmlNode::Element(dom(*e)),
            None => node_dom(*n) is Text,
        },
;

/// `minidom::Node::into_element`: the element, where the node is one.
pub assume_specification[ minidom::Node::into_element ](n: minidom::Node) -> (r: Option<
    minidom::Element,
>)
    ensures
        match r {
            Some(e) => node_dom(n) == XmlNode::Element(dom(e)),
            None => node_dom(n) is Text,
        },
;

/// `minidom::Node::as_text`: the text, where the node is a text run.
pub assume_specification<'a>[ minidom::Node::as_text ](n: &'a minidom::Node) -> (r: Option<
    &'a str,
>)
    ensures
        match r {
            Some(t) => node_dom(*n) == XmlNode::Text(t@),
            None => node_dom(*n) is Element,
        },
;

/// `minidom::Element::write_to`, into a string: the XML text of the
/// element. The call is kept to elements for which `minidom` does not
/// panic.
#[verifier::external_body]
pub(crate) fn write_element(e: &minidom::Element) -> (r: Result<String, minidom::Error>)
    requires
        is_writable(dom(*e)),
    ensures
        match r {
            Ok(text) => xml_text(dom(*e)) == Ok::<_, XmlError>(text@),
            Err(err) => xml_text(dom(*e)) == Err::<Seq<char>, _>(fault(err)),
        },
{
    let mut buf: Vec<u8> = Vec::new();
    match e.write_to(&mut buf) {
        Ok(()) => Ok(String::from_utf8_lossy(&buf).into_owned()),
        Err(err) => Err(err),
    }
}

/// `str::parse` for `minidom::Element`: the root element of an XML text.
#[verifier::external_body]
pub(crate) fn parse_element(text: &str) -> (r: Result<minidom::Element, minidom::Error>)
    ensures
        match r {
            Ok(e) => xml_tree(text@) == Ok::<_, XmlError>(dom(e)),
            Err(err) => xml_tree(text@) == Err::<XmlElement, _>(fault(err)),
        },
{
    text.parse()
}

/// The variant of a `minidom::Error`.
#[verifier::external_body]
pub(crate) fn error_kind(err: &minidom::Error) -> (kind: XmlError)
    ensures
        kind == fault(*err),
{
    match err {
        minidom::Error::XmlError(_) => XmlError::Syntax,
        minidom::Error::EndOfDocument => XmlError::EndOfDocument,
        minidom::Error::InvalidPrefix => XmlError::InvalidPrefix,
        minidom::Error::MissingNamespace => XmlError::MissingNamespace,
        minidom::Error::DuplicatePrefix => XmlError::DuplicatePrefix,
    }
}

} // verus!
