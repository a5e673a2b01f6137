//! The classes that a documentation index lists.
use vstd::prelude::*;
use crate::xml::XmlElement;
use crate::lookup::{CondSpec, only_child_spec, only_child_named, get_attr};

verus! {

/// The name and reference id of `compound` where it is a class entry (attribute
/// `kind` is `class`) with exactly one `name` child and a `refid` attribute.
pub open spec fn class_entry(compound: XmlElement) -> Option<(Seq<char>, Seq<char>)> {
    if compound.attr_spec("kind"@) == Some("class"@) {
        match (only_child_spec(compound, CondSpec::Named("name"@)), compound.attr_spec("refid"@)) {
            (Ok(n), Some(refid)) => Some((n.text_spec(), refid)),
            _ => None,
        }
    } else {
        None
    }
}

/// The class entries among `compounds`, in order.
pub open spec fn class_entries(compounds: Seq<XmlElement>) -> Seq<(Seq<char>, Seq<char>)>
    decreases compounds.len(),
{
    if compounds.len() == 0 {
        Seq::empty()
    } else {
        let prefix = class_entries(compounds.drop_last());
        match class_entry(compounds.last()) {
            Some(entry) => prefix.push(entry),
            None => prefix,
        }
    }
}

/// A pair of strings as a pair of character sequences.
pub open spec fn pair_view(p: (String, String)) -> (Seq<char>, Seq<char>) {
    (p.0@, p.1@)
}

/// Returns the name and reference id of each class that `index_root` lists, in order.
pub fn get_all_classes(index_root: &XmlElement) -> (r: Vec<(String, String)>)
    ensures
        r@.map_values(|p: (String, String)| pair_view(p)) == class_entries(index_root.children_spec()),
{
    let compounds = index_root.children();
    let ghost cs = compounds@.map_values(|c: &XmlElement| *c);
    let n = compounds.len();
    let mut out: Vec<(String, String)> = Vec::new();
    let mut i: usize = 0;
    let class_kind = "class".to_owned();
    while i < n
        invariant
            n == compounds@.len(),
            cs == compounds@.map_values(|c: &XmlElement| *c),
            i <= n,
            class_kind@ == "class"@,
            out@.map_values(|p: (String, String)| pair_view(p)) == class_entries(cs.take(i as int)),
        decreases n - i,
    {
        assert(cs.take(i + 1).drop_last() == cs.take(i as int));
        assert(cs.take(i + 1).last() == *compounds[i as int]);
        let compound = compounds[i];
        let is_class = match compound.attr("kind") {
            Some(k) => k.to_owned() == class_kind,
            None => false,
        };
        if is_class {
            match (only_child_named(compound, "name"), get_attr(compound, "refid")) {
                (Ok(name), Ok(refid)) => {
                    let entry = (name.text(), refid.to_owned());
                    let ghost before = out@;
                    out.push(entry);
                    assert(out@.map_values(|p: (String, String)| pair_view(p)) == before.map_values(
                        |p: (String, String)| pair_view(p),
                    ).push(pair_view(entry)));
                },
                _ => {},
            }
        }
        i = i + 1;
    }
    assert(cs.take(n as int) == cs);
    out
}

} // verus!
