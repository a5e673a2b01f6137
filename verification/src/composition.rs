//! How the library's operations compose over sequences: which items each
//! result keeps, in which order, and how results over joined inputs relate.
use vstd::prelude::*;
use crate::xml::{XmlElement, XmlNode, child_elements, direct_text, nodes_inner_text, attr_lookup};
use crate::lookup::{SpecParseError, CondSpec, matching_children, only_child_spec};
use crate::classes::{class_entry, class_entries};
use crate::selection::{
    is_wrapped_spec,
    wrapped_classes,
    class_file_path_spec,
    nonempty_lines,
    text_lines,
    split_newlines,
};
use crate::constructors::{
    arity_text,
    arities_text,
    constructor_suffix_spec,
    taken_params_spec,
    passed_params_spec,
    required_param_count,
    member_text,
    members_text,
    class_text,
    classes_text,
    class_failures,
    then_text,
    no_text,
    WrapperText,
};

verus! {

/// Generating nothing, without error, is neutral on either side.
proof fn lemma_then_neutral(t: WrapperText)
    ensures
        then_text(t, no_text(None)) == t,
        then_text(no_text(None), t) == t,
{
    assert(t.header + Seq::<char>::empty() =~= t.header);
    assert(t.source + Seq::<char>::empty() =~= t.source);
    assert(Seq::<char>::empty() + t.header =~= t.header);
    assert(Seq::<char>::empty() + t.source =~= t.source);
}

/// Sequencing generations is associative.
proof fn lemma_then_assoc(x: WrapperText, y: WrapperText, z: WrapperText)
    ensures
        then_text(then_text(x, y), z) == then_text(x, then_text(y, z)),
{
    if x.error is None && y.error is None {
        assert((x.header + y.header) + z.header =~= x.header + (y.header + z.header));
        assert((x.source + y.source) + z.source =~= x.source + (y.source + z.source));
    }
}

/// The wrappers of two runs of members one after the other are those of the
/// first run, followed, where it ends without error, by those of the second.
pub proof fn law_members_concat(name: Seq<char>, a: Seq<XmlElement>, b: Seq<XmlElement>)
    ensures
        members_text(name, a + b) == then_text(members_text(name, a), members_text(name, b)),
    decreases b.len(),
{
    if b.len() == 0 {
        assert(a + b =~= a);
        lemma_then_neutral(members_text(name, a));
    } else {
        assert((a + b).drop_last() =~= a + b.drop_last());
        assert((a + b).last() == b.last());
        law_members_concat(name, a, b.drop_last());
        lemma_then_assoc(
            members_text(name, a),
            members_text(name, b.drop_last()),
            member_text(name, b.last()),
        );
    }
}

/// Each member that follows contributes its own wrappers after those of the
/// members before it, unless one of those failed: every constructor overload
/// gets its wrappers.
pub proof fn law_members_push(name: Seq<char>, members: Seq<XmlElement>, m: XmlElement)
    ensures
        members_text(name, members.push(m)) == then_text(members_text(name, members), member_text(name, m)),
        members_text(name, members).error is None ==> {
            &&& members_text(name, members.push(m)).header == members_text(name, members).header
                + member_text(name, m).header
            &&& members_text(name, members.push(m)).source == members_text(name, members).source
                + member_text(name, m).source
            &&& members_text(name, members.push(m)).error == member_text(name, m).error
        },
{
    law_members_concat(name, members, seq![m]);
    assert(seq![m].drop_last() =~= Seq::<XmlElement>::empty());
    assert(seq![m].last() == m);
    lemma_then_neutral(member_text(name, m));
    assert(members_text(name, Seq::<XmlElement>::empty()) == no_text(None));
    assert(members_text(name, seq![m]) == then_text(no_text(None), member_text(name, m)));
    assert(members.push(m) =~= members + seq![m]);
}

/// The text of two runs of classes one after the other is the text of the
/// first followed by the text of the second: every class contributes.
pub proof fn law_classes_concat(a: Seq<(Seq<char>, XmlElement)>, b: Seq<(Seq<char>, XmlElement)>)
    ensures
        classes_text(a + b).0 == classes_text(a).0 + classes_text(b).0,
        classes_text(a + b).1 == classes_text(a).1 + classes_text(b).1,
        class_failures(a + b) == class_failures(a) + class_failures(b),
    decreases b.len(),
{
    if b.len() == 0 {
        assert(a + b =~= a);
        assert(classes_text(a).0 + Seq::<char>::empty() =~= classes_text(a).0);
        assert(classes_text(a).1 + Seq::<char>::empty() =~= classes_text(a).1);
        assert(class_failures(a) + Seq::empty() =~= class_failures(a));
    } else {
        assert((a + b).drop_last() =~= a + b.drop_last());
        assert((a + b).last() == b.last());
        law_classes_concat(a, b.drop_last());
        let t = class_text(b.last().1);
        assert((classes_text(a).0 + classes_text(b.drop_last()).0) + t.header =~= classes_text(a).0
            + (classes_text(b.drop_last()).0 + t.header));
        assert((classes_text(a).1 + classes_text(b.drop_last()).1) + t.source =~= classes_text(a).1
            + (classes_text(b.drop_last()).1 + t.source));
        match t.error {
            Some(e) => {
                assert((class_failures(a) + class_failures(b.drop_last())).push((b.last().0, e))
                    =~= class_failures(a) + class_failures(b.drop_last()).push((b.last().0, e)));
            },
            None => {},
        }
    }
}

/// A class added after others contributes its whole text, and is listed among
/// the failures exactly when its own generation fails.
pub proof fn law_classes_push(cs: Seq<(Seq<char>, XmlElement)>, c: (Seq<char>, XmlElement))
    ensures
        classes_text(cs.push(c)).0 == classes_text(cs).0 + class_text(c.1).header,
        classes_text(cs.push(c)).1 == classes_text(cs).1 + class_text(c.1).source,
        class_failures(cs.push(c)) == match class_text(c.1).error {
            Some(e) => class_failures(cs).push((c.0, e)),
            None => class_failures(cs),
        },
{
    assert(cs.push(c).drop_last() =~= cs);
    assert(cs.push(c).last() == c);
}

/// The classes that fail are exactly those whose generation ends with an
/// error, each with that error, in their order.
pub proof fn law_class_failures_are_the_failing_classes(cs: Seq<(Seq<char>, XmlElement)>)
    ensures
        class_failures(cs) == cs.filter_map(
            |c: (Seq<char>, XmlElement)|
                match class_text(c.1).error {
                    Some(e) => Some((c.0, e)),
                    None => None::<(Seq<char>, SpecParseError)>,
                },
        ),
    decreases cs.len(),
{
    if cs.len() > 0 {
        law_class_failures_are_the_failing_classes(cs.drop_last());
        match class_text(cs.last().1).error {
            Some(e) => {
                assert(class_failures(cs.drop_last()).push((cs.last().0, e)) =~= class_failures(
                    cs.drop_last(),
                ) + seq![(cs.last().0, e)]);
            },
            None => {},
        }
    }
}

/// The class entries of an index are those of its compounds that are class
/// entries, each once, in order.
pub proof fn law_class_entries_keep_every_class(compounds: Seq<XmlElement>)
    ensures
        class_entries(compounds) == compounds.filter_map(|c: XmlElement| class_entry(c)),
    decreases compounds.len(),
{
    if compounds.len() > 0 {
        law_class_entries_keep_every_class(compounds.drop_last());
        match class_entry(compounds.last()) {
            Some(e) => {
                assert(class_entries(compounds.drop_last()).push(e) =~= class_entries(
                    compounds.drop_last(),
                ) + seq![e]);
            },
            None => {},
        }
    }
}

/// The class entries of two runs of compounds one after the other are those of
/// the first followed by those of the second.
pub proof fn law_class_entries_concat(a: Seq<XmlElement>, b: Seq<XmlElement>)
    ensures
        class_entries(a + b) == class_entries(a) + class_entries(b),
    decreases b.len(),
{
    if b.len() == 0 {
        assert(a + b =~= a);
        assert(class_entries(a) + Seq::empty() =~= class_entries(a));
    } else {
        assert((a + b).drop_last() =~= a + b.drop_last());
        assert((a + b).last() == b.last());
        law_class_entries_concat(a, b.drop_last());
        match class_entry(b.last()) {
            Some(e) => {
                assert((class_entries(a) + class_entries(b.drop_last())).push(e) =~= class_entries(a)
                    + class_entries(b.drop_last()).push(e));
            },
            None => {},
        }
    }
}

/// A class name is allowed when it equals no blocked name and holds no `:`,
/// `<` or space.
pub open spec fn plainly_allowed(name: Seq<char>, blocklist: Seq<Seq<char>>) -> bool {
    &&& forall|j: int| 0 <= j < blocklist.len() ==> blocklist[j] != name
    &&& forall|i: int| 0 <= i < name.len() ==> name[i] != ':' && name[i] != '<' && name[i] != ' '
}

/// A class gets wrappers exactly when its name equals no blocked name and
/// holds no `:`, `<` or space.
pub proof fn law_wrapped_exactly_when_allowed(name: Seq<char>, blocklist: Seq<Seq<char>>)
    ensures
        is_wrapped_spec(name, blocklist) == plainly_allowed(name, blocklist),
{
    if is_wrapped_spec(name, blocklist) {
        assert forall|j: int| 0 <= j < blocklist.len() implies blocklist[j] != name by {
            if blocklist[j] == name {
                assert(blocklist.contains(name));
            }
        }
        assert forall|i: int| 0 <= i < name.len() implies name[i] != ':' && name[i] != '<' && name[i]
            != ' ' by {
            if name[i] == ':' {
                assert(name.contains(':'));
            }
            if name[i] == '<' {
                assert(name.contains('<'));
            }
            if name[i] == ' ' {
                assert(name.contains(' '));
            }
        }
    }
}

/// The classes that get wrappers are exactly the listed classes whose names are
/// allowed, in their order, each with the path of its description.
pub proof fn law_wrapped_classes_are_the_allowed_ones(
    entries: Seq<(Seq<char>, Seq<char>)>,
    blocklist: Seq<Seq<char>>,
    xml_path: Seq<char>,
)
    ensures
        wrapped_classes(entries, blocklist, xml_path) == entries.filter(
            |e: (Seq<char>, Seq<char>)| plainly_allowed(e.0, blocklist),
        ).map_values(|e: (Seq<char>, Seq<char>)| (e.0, class_file_path_spec(xml_path, e.1))),
    decreases entries.len(),
{
    reveal(Seq::filter);
    let pred = |e: (Seq<char>, Seq<char>)| plainly_allowed(e.0, blocklist);
    let f = |e: (Seq<char>, Seq<char>)| (e.0, class_file_path_spec(xml_path, e.1));
    if entries.len() > 0 {
        law_wrapped_classes_are_the_allowed_ones(entries.drop_last(), blocklist, xml_path);
        law_wrapped_exactly_when_allowed(entries.last().0, blocklist);
        let sub = entries.drop_last().filter(pred);
        if pred(entries.last()) {
            assert(sub.push(entries.last()).map_values(f) =~= sub.map_values(f).push(
                f(entries.last()),
            ));
        }
    }
}

/// A listed class whose name is allowed gets wrappers, with the path of its description.
pub proof fn law_allowed_class_is_wrapped(
    entries: Seq<(Seq<char>, Seq<char>)>,
    blocklist: Seq<Seq<char>>,
    xml_path: Seq<char>,
    j: int,
)
    requires
        0 <= j < entries.len(),
        plainly_allowed(entries[j].0, blocklist),
    ensures
        wrapped_classes(entries, blocklist, xml_path).contains(
            (entries[j].0, class_file_path_spec(xml_path, entries[j].1)),
        ),
    decreases entries.len(),
{
    law_wrapped_exactly_when_allowed(entries[j].0, blocklist);
    let prefix = entries.drop_last();
    if j == entries.len() - 1 {
        assert(entries.last() == entries[j]);
        let w = wrapped_classes(entries, blocklist, xml_path);
        assert(w[w.len() - 1] == (entries[j].0, class_file_path_spec(xml_path, entries[j].1)));
    } else {
        assert(prefix[j] == entries[j]);
        law_allowed_class_is_wrapped(prefix, blocklist, xml_path, j);
        let pw = wrapped_classes(prefix, blocklist, xml_path);
        let k = choose|k: int|
            0 <= k < pw.len() && pw[k] == (entries[j].0, class_file_path_spec(
                xml_path,
                entries[j].1,
            ));
        let w = wrapped_classes(entries, blocklist, xml_path);
        assert(w[k] == pw[k]);
    }
}

/// Every parameter has exactly one `declname` child and exactly one `type` child.
pub open spec fn params_described(params: Seq<XmlElement>) -> bool {
    forall|i: int|
        0 <= i < params.len() ==> (#[trigger] only_child_spec(
            params[i],
            CondSpec::Named("declname"@),
        )) is Ok && only_child_spec(params[i], CondSpec::Named("type"@)) is Ok
}

/// With every parameter described, the parameter lists of any prefix are built without error.
proof fn lemma_param_lists_ok(params: Seq<XmlElement>, k: nat)
    requires
        params_described(params),
        k <= params.len(),
    ensures
        constructor_suffix_spec(params, k) is Ok,
        taken_params_spec(params, k) is Ok,
        passed_params_spec(params, k) is Ok,
    decreases k,
{
    if k > 0 {
        lemma_param_lists_ok(params, (k - 1) as nat);
        assert(only_child_spec(params[k - 1], CondSpec::Named("declname"@)) is Ok);
    }
}

/// With every parameter described, the wrappers for arities `lo` up to `hi` are
/// those of each arity, joined in order, without error.
proof fn lemma_arities_joined(name: Seq<char>, params: Seq<XmlElement>, lo: nat, hi: nat)
    requires
        params_described(params),
        lo <= hi <= params.len(),
    ensures
        arities_text(name, params, lo, hi) == (WrapperText {
            header: Seq::new((hi - lo) as nat, |j: int| arity_text(name, params, (lo + j) as nat).header).flatten(),
            source: Seq::new((hi - lo) as nat, |j: int| arity_text(name, params, (lo + j) as nat).source).flatten(),
            error: None,
        }),
    decreases hi,
{
    let fh = |j: int| arity_text(name, params, (lo + j) as nat).header;
    let fs = |j: int| arity_text(name, params, (lo + j) as nat).source;
    if hi == lo {
        assert(Seq::new(0, fh).flatten() =~= Seq::<char>::empty());
        assert(Seq::new(0, fs).flatten() =~= Seq::<char>::empty());
    } else {
        lemma_arities_joined(name, params, lo, (hi - 1) as nat);
        lemma_param_lists_ok(params, (hi - 1) as nat);
        let m = (hi - 1 - lo) as nat;
        assert(Seq::new((m + 1) as nat, fh) =~= Seq::new(m, fh).push(fh(m as int)));
        assert(Seq::new((m + 1) as nat, fs) =~= Seq::new(m, fs).push(fs(m as int)));
        Seq::new(m, fh).lemma_flatten_push(fh(m as int));
        Seq::new(m, fs).lemma_flatten_push(fs(m as int));
        assert((lo + m) as nat == (hi - 1) as nat);
    }
}

/// A constructor whose parameters are all described gets one wrapper for each
/// number of passed parameters from the `r` required ones up to but not
/// including all `n` of its `param` children: exactly `n - r` wrappers, joined
/// in order of arity, without error.
pub proof fn law_member_wraps_every_optional_arity(name: Seq<char>, m: XmlElement)
    requires
        ({
            &&& only_child_spec(m, CondSpec::Named("definition"@)) matches Ok(d)
            &&& d.text_spec() == name + "::"@ + name
        }),
        params_described(matching_children(m.nodes@, CondSpec::Named("param"@))),
    ensures
        ({
            let params = matching_children(m.nodes@, CondSpec::Named("param"@));
            let r = required_param_count(params);
            let n = params.len();
            &&& r <= n
            &&& member_text(name, m).error is None
            &&& member_text(name, m).header == Seq::new(
                (n - r) as nat,
                |j: int| arity_text(name, params, (r + j) as nat).header,
            ).flatten()
            &&& member_text(name, m).source == Seq::new(
                (n - r) as nat,
                |j: int| arity_text(name, params, (r + j) as nat).source,
            ).flatten()
            &&& forall|k: nat| r <= k < n ==> (#[trigger] arity_text(name, params, k)).error is None
        }),
{
    let params = matching_children(m.nodes@, CondSpec::Named("param"@));
    crate::laws::law_required_params_at_most_all(params);
    let r = required_param_count(params);
    lemma_arities_joined(name, params, r, params.len());
    assert forall|k: nat| r <= k < params.len() implies (#[trigger] arity_text(name, params, k)).error is None by {
        lemma_param_lists_ok(params, k);
    }
}

/// The text of the one `declname` child of a parameter.
pub open spec fn declared_name(p: XmlElement) -> Seq<char> {
    only_child_spec(p, CondSpec::Named("declname"@))->Ok_0.text_spec()
}

/// The inner text of the one `type` child of a parameter.
pub open spec fn declared_type(p: XmlElement) -> Seq<char> {
    only_child_spec(p, CondSpec::Named("type"@))->Ok_0.inner_text_spec()
}

/// `part` of each of the first `k` parameters, each after the first preceded by `sep`.
pub open spec fn separated(
    params: Seq<XmlElement>,
    k: nat,
    sep: Seq<char>,
    part: spec_fn(XmlElement) -> Seq<char>,
) -> Seq<Seq<char>> {
    Seq::new(k, |i: int| if i == 0 { part(params[i]) } else { sep + part(params[i]) })
}

proof fn lemma_separated_push(
    params: Seq<XmlElement>,
    k: nat,
    sep: Seq<char>,
    part: spec_fn(XmlElement) -> Seq<char>,
)
    requires
        k < params.len(),
    ensures
        separated(params, k + 1, sep, part).flatten() == separated(params, k, sep, part).flatten() + (
        if k == 0 {
            part(params[k as int])
        } else {
            sep + part(params[k as int])
        }),
{
    let x = if k == 0 { part(params[k as int]) } else { sep + part(params[k as int]) };
    assert(separated(params, k + 1, sep, part) =~= separated(params, k, sep, part).push(x));
    separated(params, k, sep, part).lemma_flatten_push(x);
}

/// With every parameter described, the suffix of arity `k` is the declared names
/// of the first `k` parameters joined by `_and_`.
pub proof fn law_suffix_joins_declared_names(params: Seq<XmlElement>, k: nat)
    requires
        params_described(params),
        k <= params.len(),
    ensures
        constructor_suffix_spec(params, k) == Ok::<Seq<char>, SpecParseError>(
            separated(params, k, "_and_"@, |p: XmlElement| declared_name(p)).flatten(),
        ),
    decreases k,
{
    let f = |p: XmlElement| declared_name(p);
    if k == 0 {
        assert(separated(params, 0, "_and_"@, f).flatten() =~= Seq::<char>::empty());
    } else {
        law_suffix_joins_declared_names(params, (k - 1) as nat);
        lemma_separated_push(params, (k - 1) as nat, "_and_"@, f);
        assert(only_child_spec(params[k - 1], CondSpec::Named("declname"@)) is Ok);
        let prev = separated(params, (k - 1) as nat, "_and_"@, f).flatten();
        let d = declared_name(params[k - 1]);
        assert(prev + "_and_"@ + d =~= prev + ("_and_"@ + d));
    }
}

/// With every parameter described, the parameter list of arity `k` is `type name`
/// for each of the first `k` parameters, joined by `, `.
pub proof fn law_taken_params_join_declarations(params: Seq<XmlElement>, k: nat)
    requires
        params_described(params),
        k <= params.len(),
    ensures
        taken_params_spec(params, k) == Ok::<Seq<char>, SpecParseError>(
            separated(
                params,
                k,
                ", "@,
                |p: XmlElement| declared_type(p) + " "@ + declared_name(p),
            ).flatten(),
        ),
    decreases k,
{
    let f = |p: XmlElement| declared_type(p) + " "@ + declared_name(p);
    if k == 0 {
        assert(separated(params, 0, ", "@, f).flatten() =~= Seq::<char>::empty());
    } else {
        law_taken_params_join_declarations(params, (k - 1) as nat);
        lemma_separated_push(params, (k - 1) as nat, ", "@, f);
        assert(only_child_spec(params[k - 1], CondSpec::Named("declname"@)) is Ok);
        let prev = separated(params, (k - 1) as nat, ", "@, f).flatten();
        let x = f(params[k - 1]);
        assert(prev + ", "@ + declared_type(params[k - 1]) + " "@ + declared_name(params[k - 1])
            =~= prev + (", "@ + x));
        assert(prev + declared_type(params[k - 1]) + " "@ + declared_name(params[k - 1]) =~= prev
            + x);
    }
}

/// With every parameter described, the argument list of arity `k` is the
/// declared names of the first `k` parameters joined by `, `.
pub proof fn law_passed_params_join_declared_names(params: Seq<XmlElement>, k: nat)
    requires
        params_described(params),
        k <= params.len(),
    ensures
        passed_params_spec(params, k) == Ok::<Seq<char>, SpecParseError>(
            separated(params, k, ", "@, |p: XmlElement| declared_name(p)).flatten(),
        ),
    decreases k,
{
    let f = |p: XmlElement| declared_name(p);
    if k == 0 {
        assert(separated(params, 0, ", "@, f).flatten() =~= Seq::<char>::empty());
    } else {
        law_passed_params_join_declared_names(params, (k - 1) as nat);
        lemma_separated_push(params, (k - 1) as nat, ", "@, f);
        assert(only_child_spec(params[k - 1], CondSpec::Named("declname"@)) is Ok);
        let prev = separated(params, (k - 1) as nat, ", "@, f).flatten();
        let d = declared_name(params[k - 1]);
        assert(prev + ", "@ + d =~= prev + (", "@ + d));
    }
}

/// With every parameter described, the wrapper of arity `k` is, for `k == 0`,
/// `N* construct_N()` creating the object with no arguments, and otherwise
/// `N* construct_N_from_<names>(<declarations>)` creating it with those names.
pub proof fn law_arity_wrapper_text(name: Seq<char>, params: Seq<XmlElement>, k: nat)
    requires
        params_described(params),
        k <= params.len(),
    ensures
        arity_text(name, params, k).error is None,
        k == 0 ==> arity_text(name, params, k).header == name + "* construct_"@ + name + "();\n"@,
        k == 0 ==> arity_text(name, params, k).source == name + "* construct_"@ + name
            + "() { return new "@ + name + "(); }\n"@,
        k > 0 ==> arity_text(name, params, k).header == name + "* construct_"@ + name + "_from_"@
            + separated(params, k, "_and_"@, |p: XmlElement| declared_name(p)).flatten() + "("@
            + separated(params, k, ", "@, |p: XmlElement| declared_type(p) + " "@ + declared_name(p)).flatten()
            + ");\n"@,
        k > 0 ==> arity_text(name, params, k).source == name + "* construct_"@ + name + "_from_"@
            + separated(params, k, "_and_"@, |p: XmlElement| declared_name(p)).flatten() + "("@
            + separated(params, k, ", "@, |p: XmlElement| declared_type(p) + " "@ + declared_name(p)).flatten()
            + ") { return new "@ + name + "("@
            + separated(params, k, ", "@, |p: XmlElement| declared_name(p)).flatten() + "); }\n"@,
{
    law_suffix_joins_declared_names(params, k);
    law_taken_params_join_declarations(params, k);
    law_passed_params_join_declared_names(params, k);
}

/// The element of an element node.
pub open spec fn node_element(n: XmlNode) -> Option<XmlElement> {
    match n {
        XmlNode::Element(e) => Some(e),
        _ => None,
    }
}

/// The child elements are the element nodes, each once, in order.
pub proof fn law_child_elements_are_element_nodes(nodes: Seq<XmlNode>)
    ensures
        child_elements(nodes) == nodes.filter_map(|n: XmlNode| node_element(n)),
    decreases nodes.len(),
{
    if nodes.len() > 0 {
        law_child_elements_are_element_nodes(nodes.drop_last());
        if let XmlNode::Element(e) = nodes.last() {
            assert(child_elements(nodes.drop_last()).push(e) =~= child_elements(nodes.drop_last())
                + seq![e]);
        }
    }
}

/// The children that meet a condition are the child elements that meet it, in order.
pub proof fn law_matching_children_filter_children(nodes: Seq<XmlNode>, cond: CondSpec)
    ensures
        matching_children(nodes, cond) == child_elements(nodes).filter(
            |e: XmlElement| cond.holds_for(e),
        ),
    decreases nodes.len(),
{
    reveal(Seq::filter);
    if nodes.len() > 0 {
        law_matching_children_filter_children(nodes.drop_last(), cond);
        if let XmlNode::Element(e) = nodes.last() {
            let c = child_elements(nodes);
            assert(c.drop_last() =~= child_elements(nodes.drop_last()));
            assert(c.last() == e);
        }
    }
}

/// The text of a text node, and nothing for other nodes.
pub open spec fn node_own_text(n: XmlNode) -> Seq<char> {
    match n {
        XmlNode::Text(s) => s@,
        _ => Seq::empty(),
    }
}

/// The direct text is the text nodes' texts joined in order.
pub proof fn law_direct_text_joins_text_nodes(nodes: Seq<XmlNode>)
    ensures
        direct_text(nodes) == nodes.map_values(|n: XmlNode| node_own_text(n)).flatten(),
    decreases nodes.len(),
{
    if nodes.len() > 0 {
        law_direct_text_joins_text_nodes(nodes.drop_last());
        let f = |n: XmlNode| node_own_text(n);
        assert(nodes.map_values(f) =~= nodes.drop_last().map_values(f).push(f(nodes.last())));
        nodes.drop_last().map_values(f).lemma_flatten_push(f(nodes.last()));
    }
}

/// The text below a node: a text node's text, an element's inner text, nothing for a comment.
pub open spec fn node_inner_text(n: XmlNode) -> Seq<char> {
    match n {
        XmlNode::Element(e) => nodes_inner_text(e.nodes@),
        XmlNode::Text(s) => s@,
        XmlNode::Comment(_) => Seq::empty(),
    }
}

/// The inner text of nodes is the inner text of each node joined in order.
pub proof fn law_inner_text_joins_nodes(nodes: Seq<XmlNode>)
    ensures
        nodes_inner_text(nodes) == nodes.map_values(|n: XmlNode| node_inner_text(n)).flatten(),
    decreases nodes.len(),
{
    if nodes.len() > 0 {
        law_inner_text_joins_nodes(nodes.drop_last());
        let f = |n: XmlNode| node_inner_text(n);
        assert(nodes.map_values(f) =~= nodes.drop_last().map_values(f).push(f(nodes.last())));
        nodes.drop_last().map_values(f).lemma_flatten_push(f(nodes.last()));
    }
}

/// An attribute lookup finds the value of the first attribute with the key, and
/// nothing exactly where no attribute has the key.
pub proof fn law_attr_lookup_finds_first(attrs: Seq<(String, String)>, key: Seq<char>)
    ensures
        attr_lookup(attrs, key) is None <==> forall|i: int| 0 <= i < attrs.len() ==> attrs[i].0@ != key,
        attr_lookup(attrs, key) matches Some(v) ==> exists|i: int|
            0 <= i < attrs.len() && attrs[i].0@ == key && attrs[i].1@ == v && forall|j: int|
                0 <= j < i ==> attrs[j].0@ != key,
    decreases attrs.len(),
{
    if attrs.len() > 0 {
        let rest = attrs.drop_first();
        law_attr_lookup_finds_first(rest, key);
        if attrs[0].0@ != key {
            assert forall|i: int| 0 <= i < rest.len() implies rest[i] == attrs[i + 1] by {}
            if attr_lookup(rest, key) is None {
                assert forall|i: int| 0 <= i < attrs.len() implies attrs[i].0@ != key by {
                    if i > 0 {
                        assert(attrs[i] == rest[i - 1]);
                    }
                }
            } else {
                let v = attr_lookup(rest, key)->Some_0;
                let i = choose|i: int|
                    0 <= i < rest.len() && rest[i].0@ == key && rest[i].1@ == v && forall|j: int|
                        0 <= j < i ==> rest[j].0@ != key;
                assert forall|j: int| 0 <= j < i + 1 implies attrs[j].0@ != key by {
                    if j > 0 {
                        assert(attrs[j] == rest[j - 1]);
                    }
                }
                assert(attrs[i + 1] == rest[i]);
            }
        }
    }
}

/// The non-empty lines are the lines that are not empty, in order.
pub proof fn law_nonempty_lines_filter(lines: Seq<Seq<char>>)
    ensures
        nonempty_lines(lines) == lines.filter(|l: Seq<char>| l.len() > 0),
    decreases lines.len(),
{
    reveal(Seq::filter);
    if lines.len() > 0 {
        law_nonempty_lines_filter(lines.drop_last());
    }
}

/// The required parameters are counted by those without exactly one `defval` child.
pub proof fn law_required_params_counts_undefaulted(params: Seq<XmlElement>)
    ensures
        required_param_count(params) == params.filter(
            |p: XmlElement| only_child_spec(p, CondSpec::Named("defval"@)) is Err,
        ).len(),
    decreases params.len(),
{
    reveal(Seq::filter);
    if params.len() > 0 {
        law_required_params_counts_undefaulted(params.drop_last());
    }
}

/// Text with no carriage return is its lines, each ended by a newline, where it
/// ends with a newline or is empty; else the same with the last newline left out.
pub proof fn law_lines_rejoin_to_text(s: Seq<char>)
    requires
        !s.contains('\r'),
    ensures
        text_lines(s).map_values(|l: Seq<char>| l.push('\n')).flatten() == if s.len() == 0
            || s.last() == '\n' {
            s
        } else {
            s.push('\n')
        },
{
    lemma_split_rejoins(s);
    let (done, cur) = split_newlines(s);
    let f = |l: Seq<char>| l.push('\n');
    if cur.len() > 0 {
        assert(done.push(cur).map_values(f) =~= done.map_values(f).push(f(cur)));
        done.map_values(f).lemma_flatten_push(f(cur));
        assert(s.last() == cur.last());
        assert(done.map_values(f).flatten() + cur.push('\n') =~= s.push('\n'));
    } else {
        assert(done.map_values(f).flatten() + cur =~= done.map_values(f).flatten());
    }
}

proof fn lemma_split_rejoins(s: Seq<char>)
    requires
        !s.contains('\r'),
    ensures
        split_newlines(s).0.map_values(|l: Seq<char>| l.push('\n')).flatten() + split_newlines(s).1 == s,
        split_newlines(s).1.len() > 0 ==> s.len() > 0 && s.last() == split_newlines(s).1.last(),
        split_newlines(s).1.len() == 0 ==> s.len() == 0 || s.last() == '\n',
    decreases s.len(),
{
    let f = |l: Seq<char>| l.push('\n');
    if s.len() == 0 {
        assert(Seq::<Seq<char>>::empty().map_values(f).flatten() + Seq::<char>::empty() =~= s);
    } else {
        let p = s.drop_last();
        assert(!p.contains('\r')) by {
            if p.contains('\r') {
                let j = choose|j: int| 0 <= j < p.len() && p[j] == '\r';
                assert(s[j] == '\r');
            }
        }
        lemma_split_rejoins(p);
        let (done, cur) = split_newlines(p);
        let c = s.last();
        let x = done.map_values(f).flatten();
        assert(s =~= p.push(c));
        assert(x + cur == p);
        assert((x + cur).push(c) =~= x + cur.push(c));
        assert(c != '\r') by {
            if c == '\r' {
                assert(s[s.len() - 1] == '\r');
            }
        }
        if c == '\n' {
            if cur.len() > 0 {
                assert(cur.last() != '\r');
            }
            assert(crate::selection::strip_cr(cur) == cur);
            assert(done.push(cur).map_values(f) =~= done.map_values(f).push(f(cur)));
            done.map_values(f).lemma_flatten_push(f(cur));
            assert(done.map_values(f).flatten() + cur.push('\n') + Seq::<char>::empty() =~= s);
        } else {
            assert(done.map_values(f).flatten() + cur.push(c) =~= s);
        }
    }
}

/// A compound is a class entry exactly when its `kind` attribute is `class`,
/// it has exactly one `name` child and it has a `refid` attribute; the entry is
/// that child's text and that attribute's value.
pub proof fn law_class_entry_requires_kind_name_and_refid(c: XmlElement)
    ensures
        class_entry(c) is Some <==> ({
            &&& c.attr_spec("kind"@) == Some("class"@)
            &&& matching_children(c.nodes@, CondSpec::Named("name"@)).len() == 1
            &&& c.attr_spec("refid"@) is Some
        }),
        class_entry(c) matches Some((n, r)) ==> n == matching_children(
            c.nodes@,
            CondSpec::Named("name"@),
        )[0].text_spec() && Some(r) == c.attr_spec("refid"@),
{
}

} // verus!
