//! Properties that hold of the library as a whole, proved over the spec
//! functions that the functions' contracts use.
use vstd::prelude::*;
use crate::xml::{XmlElement, XmlNode, child_elements, direct_text, nodes_inner_text};
use crate::lookup::{CondSpec, SpecParseError, matching_children, only_child_spec};
use crate::selection::{
    is_wrapped_spec,
    wrapped_classes,
    class_file_path_spec,
    split_newlines,
    strip_cr,
    text_lines,
    nonempty_lines,
    blocklist_spec,
};
use crate::constructors::{
    arity_text,
    member_text,
    members_text,
    class_text,
    then_text,
    no_text,
    required_param_count,
    WrapperText,
};

verus! {

/// Every element that `matching_children` finds is a child element that meets the condition.
proof fn lemma_matches_are_matching_children(nodes: Seq<XmlNode>, cond: CondSpec)
    ensures
        forall|i: int|
            0 <= i < matching_children(nodes, cond).len() ==> {
                &&& cond.holds_for(#[trigger] matching_children(nodes, cond)[i])
                &&& child_elements(nodes).contains(matching_children(nodes, cond)[i])
            },
    decreases nodes.len(),
{
    if nodes.len() > 0 {
        let prefix = nodes.drop_last();
        lemma_matches_are_matching_children(prefix, cond);
        let m = matching_children(nodes, cond);
        let pm = matching_children(prefix, cond);
        assert forall|i: int| 0 <= i < m.len() implies {
            &&& cond.holds_for(#[trigger] m[i])
            &&& child_elements(nodes).contains(m[i])
        } by {
            if i < pm.len() {
                assert(m[i] == pm[i]);
                let j = choose|j: int| 0 <= j < child_elements(prefix).len() && child_elements(prefix)[j] == pm[i];
                if let XmlNode::Element(e) = nodes.last() {
                    assert(child_elements(nodes)[j] == pm[i]);
                } else {
                    assert(child_elements(nodes)[j] == pm[i]);
                }
            } else {
                if let XmlNode::Element(e) = nodes.last() {
                    assert(child_elements(nodes)[child_elements(nodes).len() - 1] == e);
                }
            }
        }
    }
}

/// Every child element that meets the condition is among those that `matching_children` finds.
proof fn lemma_matching_children_are_matches(nodes: Seq<XmlNode>, cond: CondSpec, x: XmlElement)
    requires
        child_elements(nodes).contains(x),
        cond.holds_for(x),
    ensures
        matching_children(nodes, cond).contains(x),
    decreases nodes.len(),
{
    let prefix = nodes.drop_last();
    let c = child_elements(nodes);
    let j = choose|j: int| 0 <= j < c.len() && c[j] == x;
    if let XmlNode::Element(e) = nodes.last() {
        if j == c.len() - 1 {
            assert(matching_children(nodes, cond).last() == x);
        } else {
            assert(child_elements(prefix)[j] == x);
            lemma_matching_children_are_matches(prefix, cond, x);
            let m = matching_children(prefix, cond);
            let k = choose|k: int| 0 <= k < m.len() && m[k] == x;
            assert(matching_children(nodes, cond)[k] == x);
        }
    } else {
        assert(child_elements(prefix)[j] == x);
        lemma_matching_children_are_matches(prefix, cond, x);
    }
}

/// A lookup of the one child of `el` that meets `cond` succeeds exactly when one
/// child element meets it, and then returns that child; where none does it
/// reports the condition as missing, and where several do, as ambiguous.
pub proof fn law_only_child_is_the_unique_match(el: XmlElement, cond: CondSpec)
    ensures
        match only_child_spec(el, cond) {
            Ok(c) => {
                &&& cond.holds_for(c)
                &&& el.children_spec().contains(c)
                &&& forall|x: XmlElement|
                    el.children_spec().contains(x) && cond.holds_for(x) ==> x == c
            },
            Err(SpecParseError::MissingChild(d)) => {
                &&& d == cond.description()
                &&& forall|x: XmlElement| el.children_spec().contains(x) ==> !cond.holds_for(x)
            },
            Err(SpecParseError::ExtraChildren(d)) => {
                &&& d == cond.description()
                &&& matching_children(el.nodes@, cond).len() > 1
            },
            Err(SpecParseError::MissingAttr(_)) => false,
        },
{
    let m = matching_children(el.nodes@, cond);
    lemma_matches_are_matching_children(el.nodes@, cond);
    assert forall|x: XmlElement| el.children_spec().contains(x) && cond.holds_for(x) implies m.contains(
        x,
    ) by {
        lemma_matching_children_are_matches(el.nodes@, cond, x);
    }
    if m.len() == 1 {
        assert(cond.holds_for(m[0]));
    }
}

/// An element without child elements has as inner text exactly its direct text.
pub proof fn law_inner_text_of_childless_element(el: XmlElement)
    requires
        el.children_spec().len() == 0,
    ensures
        el.inner_text_spec() == el.text_spec(),
{
    lemma_inner_text_without_elements(el.nodes@);
}

proof fn lemma_inner_text_without_elements(nodes: Seq<XmlNode>)
    requires
        child_elements(nodes).len() == 0,
    ensures
        nodes_inner_text(nodes) == direct_text(nodes),
    decreases nodes.len(),
{
    if nodes.len() > 0 {
        let prefix = nodes.drop_last();
        if let XmlNode::Element(e) = nodes.last() {
            assert(child_elements(nodes).len() > 0);
        }
        lemma_inner_text_without_elements(prefix);
    }
}

/// Every class that gets wrappers has a name that is not blocked and holds no
/// `:`, `<` or space, and comes from a listed class, with the path of that
/// class's description.
pub proof fn law_wrapped_classes_are_allowed(
    entries: Seq<(Seq<char>, Seq<char>)>,
    blocklist: Seq<Seq<char>>,
    xml_path: Seq<char>,
)
    ensures
        forall|k: int|
            0 <= k < wrapped_classes(entries, blocklist, xml_path).len() ==> {
                let (name, path) = #[trigger] wrapped_classes(entries, blocklist, xml_path)[k];
                &&& is_wrapped_spec(name, blocklist)
                &&& exists|j: int|
                    0 <= j < entries.len() && entries[j].0 == name && path
                        == class_file_path_spec(xml_path, entries[j].1)
            },
    decreases entries.len(),
{
    if entries.len() > 0 {
        let prefix = entries.drop_last();
        law_wrapped_classes_are_allowed(prefix, blocklist, xml_path);
        let w = wrapped_classes(entries, blocklist, xml_path);
        let pw = wrapped_classes(prefix, blocklist, xml_path);
        assert forall|k: int| 0 <= k < w.len() implies {
            let (name, path) = #[trigger] w[k];
            &&& is_wrapped_spec(name, blocklist)
            &&& exists|j: int|
                0 <= j < entries.len() && entries[j].0 == name && path == class_file_path_spec(
                    xml_path,
                    entries[j].1,
                )
        } by {
            if k < pw.len() {
                assert(w[k] == pw[k]);
                let j = choose|j: int|
                    0 <= j < prefix.len() && prefix[j].0 == pw[k].0 && pw[k].1
                        == class_file_path_spec(xml_path, prefix[j].1);
                assert(entries[j] == prefix[j]);
            } else {
                let last = entries.len() - 1;
                assert(entries[last] == entries.last());
            }
        }
    }
}

/// No line that `text_lines` gives holds a newline.
pub proof fn law_lines_hold_no_newline(s: Seq<char>)
    ensures
        forall|i: int| 0 <= i < text_lines(s).len() ==> !(#[trigger] text_lines(s)[i]).contains('\n'),
{
    lemma_split_newlines_no_newline(s);
}

proof fn lemma_split_newlines_no_newline(s: Seq<char>)
    ensures
        forall|i: int|
            0 <= i < split_newlines(s).0.len() ==> !(#[trigger] split_newlines(s).0[i]).contains('\n'),
        !split_newlines(s).1.contains('\n'),
    decreases s.len(),
{
    if s.len() > 0 {
        let prefix = s.drop_last();
        lemma_split_newlines_no_newline(prefix);
        let (done, cur) = split_newlines(prefix);
        if s.last() == '\n' {
            let line = strip_cr(cur);
            assert(!line.contains('\n')) by {
                if line.contains('\n') {
                    let j = choose|j: int| 0 <= j < line.len() && line[j] == '\n';
                    assert(cur[j] == '\n');
                }
            }
            let d2 = done.push(line);
            assert forall|i: int| 0 <= i < d2.len() implies !(#[trigger] d2[i]).contains('\n') by {
                if i < done.len() {
                    assert(d2[i] == done[i]);
                }
            }
            assert(!Seq::<char>::empty().contains('\n'));
        } else {
            let c2 = cur.push(s.last());
            assert(!c2.contains('\n')) by {
                if c2.contains('\n') {
                    let j = choose|j: int| 0 <= j < c2.len() && c2[j] == '\n';
                    if j < cur.len() {
                        assert(cur[j] == '\n');
                    }
                }
            }
        }
    }
}

/// Every line that `nonempty_lines` keeps is one of the given lines and not empty.
pub proof fn law_nonempty_lines_are_nonempty(lines: Seq<Seq<char>>)
    ensures
        forall|i: int|
            0 <= i < nonempty_lines(lines).len() ==> (#[trigger] nonempty_lines(lines)[i]).len() > 0
                && lines.contains(nonempty_lines(lines)[i]),
    decreases lines.len(),
{
    if lines.len() > 0 {
        let prefix = lines.drop_last();
        law_nonempty_lines_are_nonempty(prefix);
        let n = nonempty_lines(lines);
        let pn = nonempty_lines(prefix);
        assert forall|i: int| 0 <= i < n.len() implies (#[trigger] n[i]).len() > 0 && lines.contains(
            n[i],
        ) by {
            if i < pn.len() {
                assert(n[i] == pn[i]);
                let j = choose|j: int| 0 <= j < prefix.len() && prefix[j] == pn[i];
                assert(lines[j] == prefix[j]);
            } else {
                assert(lines[lines.len() - 1] == lines.last());
            }
        }
    }
}

/// Every blocked class name is a non-empty line of the blocklist text.
pub proof fn law_blocked_names_are_nonempty_lines()
    ensures
        forall|i: int|
            0 <= i < blocklist_spec().len() ==> (#[trigger] blocklist_spec()[i]).len() > 0
                && !blocklist_spec()[i].contains('\n'),
{
    law_nonempty_lines_are_nonempty(text_lines(crate::selection::CLASS_BLOCKLIST@));
    law_lines_hold_no_newline(crate::selection::CLASS_BLOCKLIST@);
    assert forall|i: int| 0 <= i < blocklist_spec().len() implies (#[trigger] blocklist_spec()[i]).len()
        > 0 && !blocklist_spec()[i].contains('\n') by {
        let lines = text_lines(crate::selection::CLASS_BLOCKLIST@);
        let j = choose|j: int| 0 <= j < lines.len() && lines[j] == blocklist_spec()[i];
        assert(!lines[j].contains('\n'));
    }
}

/// Each wrapper that is generated is declared in the header by the same
/// signature that starts its definition in the source: the header line is the
/// signature and `;`, the source line the signature and a body that creates the
/// object with the passed arguments.
pub proof fn law_wrapper_declaration_matches_definition(
    name: Seq<char>,
    params: Seq<XmlElement>,
    k: nat,
)
    ensures
        arity_text(name, params, k).error is None ==> exists|signature: Seq<char>, args: Seq<char>|
            {
                &&& arity_text(name, params, k).header == signature + ";\n"@
                &&& arity_text(name, params, k).source == signature + " { return new "@ + name
                    + "("@ + args + "); }\n"@
            },
{
    reveal_strlit(";\n");
    reveal_strlit(" { return new ");
    reveal_strlit("(");
    reveal_strlit("); }\n");
    reveal_strlit("();\n");
    reveal_strlit("() { return new ");
    reveal_strlit("(); }\n");
    reveal_strlit(");\n");
    reveal_strlit(") { return new ");
    let t = arity_text(name, params, k);
    if t.error is None {
        if k == 0 {
            let signature = name + "* construct_"@ + name + "()"@;
            reveal_strlit("()");
            assert(t.header =~= signature + ";\n"@);
            assert(t.source =~= signature + " { return new "@ + name + "("@ + Seq::empty() + "); }\n"@);
        } else {
            let suffix = crate::constructors::constructor_suffix_spec(params, k)->Ok_0;
            let taken = crate::constructors::taken_params_spec(params, k)->Ok_0;
            let passed = crate::constructors::passed_params_spec(params, k)->Ok_0;
            let signature = name + "* construct_"@ + name + "_from_"@ + suffix + "("@ + taken + ")"@;
            reveal_strlit(")");
            assert(t.header =~= signature + ";\n"@);
            assert(t.source =~= signature + " { return new "@ + name + "("@ + passed + "); }\n"@);
        }
    }
}

/// A parameter count never exceeds the number of parameters.
pub proof fn law_required_params_at_most_all(params: Seq<XmlElement>)
    ensures
        required_param_count(params) <= params.len(),
    decreases params.len(),
{
    if params.len() > 0 {
        law_required_params_at_most_all(params.drop_last());
    }
}

/// A constructor gets one wrapper for each number of passed parameters from the
/// required ones up to but not including all of them: a member whose parameters
/// are all required gets no wrapper at all.
pub proof fn law_member_with_only_required_params_gets_no_wrapper(
    name: Seq<char>,
    memberdef: XmlElement,
)
    requires
        required_param_count(matching_children(memberdef.nodes@, CondSpec::Named("param"@)))
            == matching_children(memberdef.nodes@, CondSpec::Named("param"@)).len(),
    ensures
        member_text(name, memberdef).header.len() == 0,
        member_text(name, memberdef).source.len() == 0,
{
}

/// An element that does not meet a condition, added anywhere among the nodes,
/// leaves the children that meet the condition unchanged.
pub proof fn law_unmatched_element_changes_no_match(
    nodes: Seq<XmlNode>,
    i: int,
    x: XmlElement,
    cond: CondSpec,
)
    requires
        0 <= i <= nodes.len(),
        !cond.holds_for(x),
    ensures
        matching_children(nodes.insert(i, XmlNode::Element(x)), cond) == matching_children(nodes, cond),
    decreases nodes.len(),
{
    let m = nodes.insert(i, XmlNode::Element(x));
    if i == nodes.len() {
        assert(m.drop_last() == nodes);
    } else {
        assert(m.drop_last() == nodes.drop_last().insert(i, XmlNode::Element(x)));
        assert(m.last() == nodes.last());
        law_unmatched_element_changes_no_match(nodes.drop_last(), i, x, cond);
    }
}

/// Adding an element among the nodes adds it to the child elements, at some place.
proof fn lemma_child_elements_insert(nodes: Seq<XmlNode>, i: int, x: XmlElement)
    requires
        0 <= i <= nodes.len(),
    ensures
        exists|k: int|
            0 <= k <= child_elements(nodes).len() && child_elements(
                nodes.insert(i, XmlNode::Element(x)),
            ) == child_elements(nodes).insert(k, x),
    decreases nodes.len(),
{
    let m = nodes.insert(i, XmlNode::Element(x));
    let c = child_elements(nodes);
    if i == nodes.len() {
        assert(m.drop_last() == nodes);
        assert(child_elements(m) =~= c.insert(c.len() as int, x));
    } else {
        let p = nodes.drop_last();
        assert(m.drop_last() == p.insert(i, XmlNode::Element(x)));
        assert(m.last() == nodes.last());
        lemma_child_elements_insert(p, i, x);
        let k = choose|k: int|
            0 <= k <= child_elements(p).len() && child_elements(p.insert(i, XmlNode::Element(x)))
                == child_elements(p).insert(k, x);
        match nodes.last() {
            XmlNode::Element(e) => {
                assert(child_elements(m) =~= c.insert(k, x));
            },
            _ => {
                assert(child_elements(m) =~= c.insert(k, x));
            },
        }
    }
}

/// A generation that adds no text and ends without error changes nothing after `t`.
proof fn lemma_then_nothing(t: WrapperText)
    ensures
        then_text(t, no_text(None)) == t,
{
    if t.error is None {
        assert(t.header + Seq::<char>::empty() =~= t.header);
        assert(t.source + Seq::<char>::empty() =~= t.source);
    }
}

/// A member that documents no constructor of the class (its one `definition`
/// is not `N::N`), added anywhere among the members, changes no output and no outcome.
pub proof fn law_foreign_member_changes_nothing(
    name: Seq<char>,
    members: Seq<XmlElement>,
    k: int,
    x: XmlElement,
)
    requires
        0 <= k <= members.len(),
        only_child_spec(x, CondSpec::Named("definition"@)) matches Ok(d) && d.text_spec() != name
            + "::"@ + name,
    ensures
        members_text(name, members.insert(k, x)) == members_text(name, members),
    decreases members.len(),
{
    let m = members.insert(k, x);
    assert(member_text(name, x) == no_text(None));
    if k == members.len() {
        assert(m.drop_last() == members);
        lemma_then_nothing(members_text(name, members));
    } else {
        assert(m.drop_last() == members.drop_last().insert(k, x));
        assert(m.last() == members.last());
        law_foreign_member_changes_nothing(name, members.drop_last(), k, x);
    }
}

/// A class document whose public section holds one more member that documents
/// no constructor of the class gives the same text and the same outcome: the
/// two documents have the same compound name and public sections that differ
/// by that member alone.
pub proof fn law_class_ignores_foreign_member(
    root: XmlElement,
    root2: XmlElement,
    i: int,
    x: XmlElement,
)
    requires
        ({
            &&& only_child_spec(root, CondSpec::Named("compounddef"@)) matches Ok(cd)
            &&& only_child_spec(root2, CondSpec::Named("compounddef"@)) matches Ok(cd2)
            &&& (only_child_spec(cd2, CondSpec::Named("compoundname"@)) == only_child_spec(
                cd,
                CondSpec::Named("compoundname"@),
            ))
            &&& only_child_spec(
                cd,
                CondSpec::NamedWithAttr("sectiondef"@, "kind"@, "public-func"@),
            ) matches Ok(sd)
            &&& only_child_spec(
                cd2,
                CondSpec::NamedWithAttr("sectiondef"@, "kind"@, "public-func"@),
            ) matches Ok(sd2)
            &&& 0 <= i <= sd.nodes@.len()
            &&& (sd2.nodes@ == sd.nodes@.insert(i, XmlNode::Element(x)))
            &&& (only_child_spec(cd, CondSpec::Named("compoundname"@)) matches Ok(cn) ==> ({
                &&& only_child_spec(x, CondSpec::Named("definition"@)) matches Ok(d)
                &&& d.text_spec() != cn.text_spec() + "::"@ + cn.text_spec()
            }))
        }),
    ensures
        class_text(root2) == class_text(root),
{
    let cd = only_child_spec(root, CondSpec::Named("compounddef"@))->Ok_0;
    let cd2 = only_child_spec(root2, CondSpec::Named("compounddef"@))->Ok_0;
    let sc = CondSpec::NamedWithAttr("sectiondef"@, "kind"@, "public-func"@);
    let sd = only_child_spec(cd, sc)->Ok_0;
    let sd2 = only_child_spec(cd2, sc)->Ok_0;
    if let Ok(cn) = only_child_spec(cd, CondSpec::Named("compoundname"@)) {
        lemma_child_elements_insert(sd.nodes@, i, x);
        let k = choose|k: int|
            0 <= k <= child_elements(sd.nodes@).len() && child_elements(
                sd.nodes@.insert(i, XmlNode::Element(x)),
            ) == child_elements(sd.nodes@).insert(k, x);
        law_foreign_member_changes_nothing(cn.text_spec(), sd.children_spec(), k, x);
    }
}

/// A class document whose compound holds one more section that is not the
/// public functions (`sectiondef` with another `kind`) gives the same text and
/// the same outcome.
pub proof fn law_class_ignores_other_section(
    root: XmlElement,
    root2: XmlElement,
    i: int,
    s: XmlElement,
)
    requires
        ({
            &&& only_child_spec(root, CondSpec::Named("compounddef"@)) matches Ok(cd)
            &&& only_child_spec(root2, CondSpec::Named("compounddef"@)) matches Ok(cd2)
            &&& 0 <= i <= cd.nodes@.len()
            &&& (cd2.nodes@ == cd.nodes@.insert(i, XmlNode::Element(s)))
        }),
        s.name@ == "sectiondef"@,
        s.attr_spec("kind"@) != Some("public-func"@),
    ensures
        class_text(root2) == class_text(root),
{
    let cd = only_child_spec(root, CondSpec::Named("compounddef"@))->Ok_0;
    let cd2 = only_child_spec(root2, CondSpec::Named("compounddef"@))->Ok_0;
    reveal_strlit("sectiondef");
    reveal_strlit("compoundname");
    assert("sectiondef"@[0] != "compoundname"@[0]);
    law_unmatched_element_changes_no_match(cd.nodes@, i, s, CondSpec::Named("compoundname"@));
    law_unmatched_element_changes_no_match(
        cd.nodes@,
        i,
        s,
        CondSpec::NamedWithAttr("sectiondef"@, "kind"@, "public-func"@),
    );
}

} // verus!
