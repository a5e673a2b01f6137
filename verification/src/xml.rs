//! The document model: elements, their attributes and child nodes, and the
//! spec functions that say what an element's name, attributes, children and
//! text are.
use vstd::prelude::*;

verus! {

/// The element type of the `minidom` crate, which parses a document.
#[verifier::external_type_specification]
#[verifier::external_body]
pub struct ExDomElement(minidom::Element);

/// The error type of the `minidom` crate.
#[verifier::external_type_specification]
#[verifier::external_body]
pub struct ExDomError(minidom::Error);

/// An XML element: its local name, its attributes and its child nodes in document order.
#[derive(Debug, PartialEq, Eq)]
pub struct XmlElement {
    pub name: String,
    pub attrs: Vec<(String, String)>,
    pub nodes: Vec<XmlNode>,
}

/// A child node of an element.
#[derive(Debug, PartialEq, Eq)]
pub enum XmlNode {
    Element(XmlElement),
    Text(String),
    Comment(String),
}

/// A document could not be read.
#[derive(Debug)]
pub enum DocumentError {
    /// The bytes are not a well-formed document; the parser's own error.
    Malformed(minidom::Error),
}

/// The child elements among `nodes`, in order.
pub open spec fn child_elements(nodes: Seq<XmlNode>) -> Seq<XmlElement>
    decreases nodes.len(),
{
    if nodes.len() == 0 {
        Seq::empty()
    } else {
        let prefix = child_elements(nodes.drop_last());
        match nodes.last() {
            XmlNode::Element(e) => prefix.push(e),
            _ => prefix,
        }
    }
}

/// The concatenation of the text nodes among `nodes` (not those of descendants).
pub open spec fn direct_text(nodes: Seq<XmlNode>) -> Seq<char>
    decreases nodes.len(),
{
    if nodes.len() == 0 {
        Seq::empty()
    } else {
        direct_text(nodes.drop_last()) + match nodes.last() {
            XmlNode::Text(s) => s@,
            _ => Seq::empty(),
        }
    }
}

/// The text of every text node below `nodes`, in document order, descending into
/// child elements and skipping comments.
pub open spec fn nodes_inner_text(nodes: Seq<XmlNode>) -> Seq<char>
    decreases nodes,
{
    if nodes.len() == 0 {
        Seq::empty()
    } else {
        nodes_inner_text(nodes.drop_last()) + match nodes.last() {
            XmlNode::Element(e) => nodes_inner_text(e.nodes@),
            XmlNode::Text(s) => s@,
            XmlNode::Comment(_) => Seq::empty(),
        }
    }
}

/// The value of the first attribute named `key`, if there is one.
pub open spec fn attr_lookup(attrs: Seq<(String, String)>, key: Seq<char>) -> Option<Seq<char>>
    decreases attrs.len(),
{
    if attrs.len() == 0 {
        None
    } else if attrs[0].0@ == key {
        Some(attrs[0].1@)
    } else {
        attr_lookup(attrs.drop_first(), key)
    }
}

impl XmlElement {
    /// The child elements of this element.
    pub open spec fn children_spec(self) -> Seq<XmlElement> {
        child_elements(self.nodes@)
    }

    /// The concatenated direct text of this element.
    pub open spec fn text_spec(self) -> Seq<char> {
        direct_text(self.nodes@)
    }

    /// The text of all text nodes below this element.
    pub open spec fn inner_text_spec(self) -> Seq<char> {
        nodes_inner_text(self.nodes@)
    }

    /// The value of attribute `key`.
    pub open spec fn attr_spec(self, key: Seq<char>) -> Option<Seq<char>> {
        attr_lookup(self.attrs@, key)
    }

    /// Returns the value of the attribute named `key`, if the element has one.
    pub fn attr(&self, key: &str) -> (r: Option<&str>)
        ensures
            match r {
                Some(v) => self.attr_spec(key@) == Some(v@),
                None => self.attr_spec(key@) is None,
            },
    {
        let wanted = key.to_owned();
        let n = self.attrs.len();
        let mut i: usize = 0;
        assert(self.attrs@.skip(0) == self.attrs@);
        while i < n
            invariant
                n == self.attrs@.len(),
                i <= n,
                wanted@ == key@,
                attr_lookup(self.attrs@, key@) == attr_lookup(self.attrs@.skip(i as int), key@),
            decreases n - i,
        {
            assert(self.attrs@.skip(i as int).drop_first() == self.attrs@.skip(i + 1));
            assert(self.attrs@.skip(i as int)[0] == self.attrs@[i as int]);
            if self.attrs[i].0 == wanted {
                return Some(self.attrs[i].1.as_str());
            }
            i = i + 1;
        }
        None
    }

    /// Returns the concatenation of the element's direct text nodes.
    pub fn text(&self) -> (r: String)
        ensures
            r@ == self.text_spec(),
    {
        let mut out = String::new();
        let n = self.nodes.len();
        let mut i: usize = 0;
        while i < n
            invariant
                n == self.nodes@.len(),
                i <= n,
                out@ == direct_text(self.nodes@.take(i as int)),
            decreases n - i,
        {
            assert(self.nodes@.take(i + 1).drop_last() == self.nodes@.take(i as int));
            match &self.nodes[i] {
                XmlNode::Text(s) => {
                    out.append(s.as_str());
                },
                _ => {},
            }
            i = i + 1;
        }
        assert(self.nodes@.take(n as int) == self.nodes@);
        out
    }

    /// Returns references to the element's child elements, in order.
    pub fn children(&self) -> (r: Vec<&XmlElement>)
        ensures
            r@.map_values(|c: &XmlElement| *c) == self.children_spec(),
    {
        let mut out: Vec<&XmlElement> = Vec::new();
        let n = self.nodes.len();
        let mut i: usize = 0;
        while i < n
            invariant
                n == self.nodes@.len(),
                i <= n,
                out@.map_values(|c: &XmlElement| *c) == child_elements(self.nodes@.take(i as int)),
            decreases n - i,
        {
            assert(self.nodes@.take(i + 1).drop_last() == self.nodes@.take(i as int));
            match &self.nodes[i] {
                XmlNode::Element(e) => {
                    out.push(e);
                },
                _ => {},
            }
            i = i + 1;
        }
        assert(self.nodes@.take(n as int) == self.nodes@);
        out
    }
}

/// Appends to `output` the text of every text node below `el`, in document order.
pub fn gather_all_inner_text(el: &XmlElement, output: &mut String)
    ensures
        final(output)@ == old(output)@ + el.inner_text_spec(),
    decreases el,
{
    let n = el.nodes.len();
    let mut i: usize = 0;
    while i < n
        invariant
            n == el.nodes@.len(),
            i <= n,
            output@ == old(output)@ + nodes_inner_text(el.nodes@.take(i as int)),
        decreases n - i,
    {
        assert(el.nodes@.take(i + 1).drop_last() == el.nodes@.take(i as int));
        match &el.nodes[i] {
            XmlNode::Element(e) => {
                gather_all_inner_text(e, output);
            },
            XmlNode::Text(s) => {
                output.append(s.as_str());
            },
            XmlNode::Comment(_) => {},
        }
        i = i + 1;
    }
    assert(el.nodes@.take(n as int) == el.nodes@);
}

/// The tree that `minidom` builds from `bytes` (element names without their
/// prefix, attributes in the parser's order), or `None` where it reports an error.
pub uninterp spec fn xml_document(bytes: Seq<u8>) -> Option<XmlElement>;

/// Copies a `minidom` element tree into the library's own tree, node for node.
#[verifier::external_body]
fn element_from_dom(dom: &minidom::Element) -> XmlElement {
    XmlElement {
        name: dom.name().to_owned(),
        attrs: dom.attrs().map(|(k, v)| (k.to_owned(), v.to_owned())).collect(),
        nodes: dom.nodes().map(|n| match n {
            minidom::Node::Element(e) => XmlNode::Element(element_from_dom(e)),
            minidom::Node::Text(s) => XmlNode::Text(s.clone()),
            minidom::Node::Comment(s) => XmlNode::Comment(s.clone()),
        }).collect(),
    }
}

/// Calls `minidom::Element::from_reader` on a `quick_xml::Reader` over `bytes`.
/// Claims that the outcome depends on the bytes alone: the tree it returns is
/// `xml_document(bytes)`, and it fails exactly where that is `None`.
#[verifier::external_body]
fn read_document(bytes: &[u8]) -> (r: Result<XmlElement, minidom::Error>)
    ensures
        match r {
            Ok(root) => xml_document(bytes@) == Some(root),
            Err(_) => xml_document(bytes@) is None,
        },
{
    let mut reader = quick_xml::Reader::from_reader(bytes);
    match minidom::Element::from_reader(&mut reader) {
        Ok(dom) => Ok(element_from_dom(&dom)),
        Err(e) => Err(e),
    }
}

/// Parses the bytes of an XML document into its root element.
pub fn parse_document(bytes: &[u8]) -> (r: Result<XmlElement, DocumentError>)
    ensures
        match r {
            Ok(root) => xml_document(bytes@) == Some(root),
            Err(_) => xml_document(bytes@) is None,
        },
{
    match read_document(bytes) {
        Ok(root) => Ok(root),
        Err(e) => Err(DocumentError::Malformed(e)),
    }
}

} // verus!
