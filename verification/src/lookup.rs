//! Finding the one child element that meets a condition, and an attribute
//! that must be present; the errors when they are not.
use vstd::prelude::*;
use crate::xml::{XmlElement, XmlNode, attr_lookup};

verus! {

/// Why a lookup in the document failed.
#[derive(Clone, Debug, PartialEq, Eq)]
pub enum ParseError {
    /// No child element meets the condition described by `cond`.
    MissingChild { cond: String },
    /// More than one child element meets the condition described by `cond`.
    ExtraChildren { cond: String },
    /// The element has no attribute named `attr`.
    MissingAttr { attr: String },
}

/// A lookup error, with its message text as a sequence of characters.
pub enum SpecParseError {
    MissingChild(Seq<char>),
    ExtraChildren(Seq<char>),
    MissingAttr(Seq<char>),
}

impl View for ParseError {
    type V = SpecParseError;

    open spec fn view(&self) -> SpecParseError {
        match self {
            ParseError::MissingChild { cond } => SpecParseError::MissingChild(cond@),
            ParseError::ExtraChildren { cond } => SpecParseError::ExtraChildren(cond@),
            ParseError::MissingAttr { attr } => SpecParseError::MissingAttr(attr@),
        }
    }
}

impl SpecParseError {
    /// The text that reports the error.
    pub open spec fn message_spec(self) -> Seq<char> {
        match self {
            SpecParseError::MissingChild(c) => "no child elements match condition: "@ + c,
            SpecParseError::ExtraChildren(c) => "too many child elements match condition: "@ + c,
            SpecParseError::MissingAttr(a) => "missing attribute: "@ + a,
        }
    }
}

impl ParseError {
    /// Returns the text that reports the error.
    pub fn message(&self) -> (r: String)
        ensures
            r@ == self@.message_spec(),
    {
        match self {
            ParseError::MissingChild { cond } => {
                let mut s = "no child elements match condition: ".to_owned();
                s.append(cond.as_str());
                s
            },
            ParseError::ExtraChildren { cond } => {
                let mut s = "too many child elements match condition: ".to_owned();
                s.append(cond.as_str());
                s
            },
            ParseError::MissingAttr { attr } => {
                let mut s = "missing attribute: ".to_owned();
                s.append(attr.as_str());
                s
            },
        }
    }
}

/// A condition on a child element.
#[derive(Clone, Debug, PartialEq, Eq)]
pub enum ChildCondition {
    /// The element has this name.
    Named(String),
    /// The element has this name and attribute `attr` with value `value`.
    NamedWithAttr { name: String, attr: String, value: String },
}

/// A condition on a child element, over sequences of characters.
pub enum CondSpec {
    Named(Seq<char>),
    NamedWithAttr(Seq<char>, Seq<char>, Seq<char>),
}

impl View for ChildCondition {
    type V = CondSpec;

    open spec fn view(&self) -> CondSpec {
        match self {
            ChildCondition::Named(n) => CondSpec::Named(n@),
            ChildCondition::NamedWithAttr { name, attr, value } => CondSpec::NamedWithAttr(
                name@,
                attr@,
                value@,
            ),
        }
    }
}

impl CondSpec {
    /// Whether element `e` meets the condition.
    pub open spec fn holds_for(self, e: XmlElement) -> bool {
        match self {
            CondSpec::Named(n) => e.name@ == n,
            CondSpec::NamedWithAttr(n, a, v) => e.name@ == n && attr_lookup(e.attrs@, a) == Some(v),
        }
    }

    /// The text that names the condition in an error.
    pub open spec fn description(self) -> Seq<char> {
        match self {
            CondSpec::Named(n) => "named == "@ + n,
            CondSpec::NamedWithAttr(n, a, v) => n + "["@ + a + "="@ + v + "]"@,
        }
    }
}

/// The child elements among `nodes` that meet `cond`, in order.
pub open spec fn matching_children(nodes: Seq<XmlNode>, cond: CondSpec) -> Seq<XmlElement>
    decreases nodes.len(),
{
    if nodes.len() == 0 {
        Seq::empty()
    } else {
        let prefix = matching_children(nodes.drop_last(), cond);
        match nodes.last() {
            XmlNode::Element(e) => if cond.holds_for(e) {
                prefix.push(e)
            } else {
                prefix
            },
            _ => prefix,
        }
    }
}

/// The outcome of looking for the one child of `el` that meets `cond`.
pub open spec fn only_child_spec(el: XmlElement, cond: CondSpec) -> Result<XmlElement, SpecParseError> {
    let found = matching_children(el.nodes@, cond);
    if found.len() == 1 {
        Ok(found[0])
    } else if found.len() == 0 {
        Err(SpecParseError::MissingChild(cond.description()))
    } else {
        Err(SpecParseError::ExtraChildren(cond.description()))
    }
}

/// An element lookup result, with the error taken by its view.
pub open spec fn lookup_view(r: Result<&XmlElement, ParseError>) -> Result<XmlElement, SpecParseError> {
    match r {
        Ok(e) => Ok(*e),
        Err(e) => Err(e@),
    }
}

/// The outcome of `single::Single::single`, without the item.
#[derive(Clone, Copy, Debug, PartialEq, Eq)]
pub enum SingleError {
    NoElements,
    MultipleElements,
}

/// Calls `single::Single::single` on the items of `items`: the one item where
/// there is exactly one, else which of the two errors applies.
#[verifier::external_body]
#[allow(deprecated)]
fn single_item<T>(items: Vec<T>) -> (r: Result<T, SingleError>)
    ensures
        match r {
            Ok(x) => items@.len() == 1 && x == items@[0],
            Err(SingleError::NoElements) => items@.len() == 0,
            Err(SingleError::MultipleElements) => items@.len() > 1,
        },
{
    match single::Single::single(items.into_iter()) {
        Ok(x) => Ok(x),
        Err(single::Error::NoElements) => Err(SingleError::NoElements),
        Err(single::Error::MultipleElements) => Err(SingleError::MultipleElements),
    }
}

impl ChildCondition {
    /// Whether `e` meets the condition.
    pub fn holds(&self, e: &XmlElement) -> (r: bool)
        ensures
            r == self@.holds_for(*e),
    {
        match self {
            ChildCondition::Named(n) => e.name == *n,
            ChildCondition::NamedWithAttr { name, attr, value } => {
                if e.name == *name {
                    match e.attr(attr.as_str()) {
                        Some(v) => {
                            let owned = v.to_owned();
                            owned == *value
                        },
                        None => false,
                    }
                } else {
                    false
                }
            },
        }
    }

    /// The text that names the condition in an error.
    pub fn describe(&self) -> (r: String)
        ensures
            r@ == self@.description(),
    {
        match self {
            ChildCondition::Named(n) => {
                let mut s = "named == ".to_owned();
                s.append(n.as_str());
                s
            },
            ChildCondition::NamedWithAttr { name, attr, value } => {
                let mut s = name.clone();
                s.append("[");
                s.append(attr.as_str());
                s.append("=");
                s.append(value.as_str());
                s.append("]");
                s
            },
        }
    }
}

/// Returns references to the child elements of `el` that meet `cond`, in order.
pub fn children_where<'a>(el: &'a XmlElement, cond: &ChildCondition) -> (r: Vec<&'a XmlElement>)
    ensures
        r@.map_values(|c: &XmlElement| *c) == matching_children(el.nodes@, cond@),
{
    let mut found: Vec<&'a XmlElement> = Vec::new();
    let n = el.nodes.len();
    let mut i: usize = 0;
    while i < n
        invariant
            n == el.nodes@.len(),
            i <= n,
            found@.map_values(|c: &XmlElement| *c) == matching_children(
                el.nodes@.take(i as int),
                cond@,
            ),
        decreases n - i,
    {
        assert(el.nodes@.take(i + 1).drop_last() == el.nodes@.take(i as int));
        match &el.nodes[i] {
            XmlNode::Element(e) => {
                if cond.holds(e) {
                    found.push(e);
                }
            },
            _ => {},
        }
        i = i + 1;
    }
    assert(el.nodes@.take(n as int) == el.nodes@);
    found
}

/// Returns the one child element of `el` that meets `cond`; an error that names
/// the condition where none does or where more than one does.
pub fn only_child_where<'a>(el: &'a XmlElement, cond: &ChildCondition) -> (r: Result<
    &'a XmlElement,
    ParseError,
>)
    ensures
        lookup_view(r) == only_child_spec(*el, cond@),
{
    let found = children_where(el, cond);
    let ghost all = found@;
    match single_item(found) {
        Ok(c) => {
            assert(all.map_values(|c: &XmlElement| *c)[0] == *c);
            Ok(c)
        },
        Err(SingleError::NoElements) => Err(ParseError::MissingChild { cond: cond.describe() }),
        Err(SingleError::MultipleElements) => Err(
            ParseError::ExtraChildren { cond: cond.describe() },
        ),
    }
}

/// Returns the one child element of `el` named `name`.
pub fn only_child_named<'a>(el: &'a XmlElement, name: &str) -> (r: Result<&'a XmlElement, ParseError>)
    ensures
        lookup_view(r) == only_child_spec(*el, CondSpec::Named(name@)),
{
    only_child_where(el, &ChildCondition::Named(name.to_owned()))
}

/// Returns the value of attribute `attr` of `el`; an error that names the
/// attribute where it is missing.
pub fn get_attr<'a>(el: &'a XmlElement, attr: &str) -> (r: Result<&'a str, ParseError>)
    ensures
        match r {
            Ok(v) => el.attr_spec(attr@) == Some(v@),
            Err(e) => el.attr_spec(attr@) is None && e@ == SpecParseError::MissingAttr(attr@),
        },
{
    match el.attr(attr) {
        Some(s) => Ok(s),
        None => Err(ParseError::MissingAttr { attr: attr.to_owned() }),
    }
}

} // verus!
