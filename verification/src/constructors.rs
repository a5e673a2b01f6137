//! C++ constructor wrappers for one documented class: which constructors get
//! a wrapper, and the exact declaration and definition text of each.
use vstd::prelude::*;
use crate::xml::{XmlElement, gather_all_inner_text};
use crate::lookup::{
    ParseError,
    SpecParseError,
    ChildCondition,
    CondSpec,
    matching_children,
    only_child_spec,
    only_child_named,
    only_child_where,
    children_where,
};

verus! {

/// Text appended to the header and to the source, and the error that ended
/// the generation early, if one did.
pub struct WrapperText {
    pub header: Seq<char>,
    pub source: Seq<char>,
    pub error: Option<SpecParseError>,
}

/// No text, ending with `error`.
pub open spec fn no_text(error: Option<SpecParseError>) -> WrapperText {
    WrapperText { header: Seq::empty(), source: Seq::empty(), error }
}

/// `first`, then `second` where `first` ended without error.
pub open spec fn then_text(first: WrapperText, second: WrapperText) -> WrapperText {
    if first.error is Some {
        first
    } else {
        WrapperText {
            header: first.header + second.header,
            source: first.source + second.source,
            error: second.error,
        }
    }
}

/// The elements that a vector of references points to.
pub open spec fn targets(v: Seq<&XmlElement>) -> Seq<XmlElement> {
    v.map_values(|p: &XmlElement| *p)
}

/// A text result, with the error taken by its view.
pub open spec fn text_view(r: Result<String, ParseError>) -> Result<Seq<char>, SpecParseError> {
    match r {
        Ok(s) => Ok(s@),
        Err(e) => Err(e@),
    }
}

/// The outcome of a generation step, with the error taken by its view.
pub open spec fn status_view(r: Result<(), ParseError>) -> Option<SpecParseError> {
    match r {
        Ok(()) => None,
        Err(e) => Some(e@),
    }
}

/// The declared names of the first `k` parameters joined by `_and_`; the first
/// failed lookup of a `declname` child otherwise.
pub open spec fn constructor_suffix_spec(params: Seq<XmlElement>, k: nat) -> Result<
    Seq<char>,
    SpecParseError,
>
    decreases k,
{
    if k == 0 {
        Ok(Seq::empty())
    } else {
        match constructor_suffix_spec(params, (k - 1) as nat) {
            Err(e) => Err(e),
            Ok(s) => match only_child_spec(params[k - 1], CondSpec::Named("declname"@)) {
                Err(e) => Err(e),
                Ok(d) => Ok(
                    if k == 1 {
                        s + d.text_spec()
                    } else {
                        s + "_and_"@ + d.text_spec()
                    },
                ),
            },
        }
    }
}

/// The first `k` parameters as `type name`, joined by `, `; the first failed
/// lookup of a `type` or `declname` child otherwise.
pub open spec fn taken_params_spec(params: Seq<XmlElement>, k: nat) -> Result<
    Seq<char>,
    SpecParseError,
>
    decreases k,
{
    if k == 0 {
        Ok(Seq::empty())
    } else {
        match taken_params_spec(params, (k - 1) as nat) {
            Err(e) => Err(e),
            Ok(s) => match only_child_spec(params[k - 1], CondSpec::Named("type"@)) {
                Err(e) => Err(e),
                Ok(t) => match only_child_spec(params[k - 1], CondSpec::Named("declname"@)) {
                    Err(e) => Err(e),
                    Ok(d) => Ok(
                        (if k == 1 {
                            s
                        } else {
                            s + ", "@
                        }) + t.inner_text_spec() + " "@ + d.text_spec(),
                    ),
                },
            },
        }
    }
}

/// The declared names of the first `k` parameters joined by `, `; the first
/// failed lookup of a `declname` child otherwise.
pub open spec fn passed_params_spec(params: Seq<XmlElement>, k: nat) -> Result<
    Seq<char>,
    SpecParseError,
>
    decreases k,
{
    if k == 0 {
        Ok(Seq::empty())
    } else {
        match passed_params_spec(params, (k - 1) as nat) {
            Err(e) => Err(e),
            Ok(s) => match only_child_spec(params[k - 1], CondSpec::Named("declname"@)) {
                Err(e) => Err(e),
                Ok(d) => Ok(
                    (if k == 1 {
                        s
                    } else {
                        s + ", "@
                    }) + d.text_spec(),
                ),
            },
        }
    }
}

/// Once the suffix of a prefix of the parameters fails, every longer prefix fails the same way.
proof fn lemma_suffix_error_persists(params: Seq<XmlElement>, a: nat, b: nat)
    requires
        a <= b,
        constructor_suffix_spec(params, a) is Err,
    ensures
        constructor_suffix_spec(params, b) == constructor_suffix_spec(params, a),
    decreases b,
{
    if b > a {
        lemma_suffix_error_persists(params, a, (b - 1) as nat);
    }
}

/// Once the parameter list of a prefix fails, every longer prefix fails the same way.
proof fn lemma_taken_error_persists(params: Seq<XmlElement>, a: nat, b: nat)
    requires
        a <= b,
        taken_params_spec(params, a) is Err,
    ensures
        taken_params_spec(params, b) == taken_params_spec(params, a),
    decreases b,
{
    if b > a {
        lemma_taken_error_persists(params, a, (b - 1) as nat);
    }
}

/// Once the argument list of a prefix fails, every longer prefix fails the same way.
proof fn lemma_passed_error_persists(params: Seq<XmlElement>, a: nat, b: nat)
    requires
        a <= b,
        passed_params_spec(params, a) is Err,
    ensures
        passed_params_spec(params, b) == passed_params_spec(params, a),
    decreases b,
{
    if b > a {
        lemma_passed_error_persists(params, a, (b - 1) as nat);
    }
}

/// Builds the declared names of the first `k` parameters joined by `_and_`.
fn constructor_suffix(params: &Vec<&XmlElement>, k: usize) -> (r: Result<String, ParseError>)
    requires
        k <= params@.len(),
    ensures
        text_view(r) == constructor_suffix_spec(targets(params@), k as nat),
{
    let mut out = String::new();
    let mut i: usize = 0;
    while i < k
        invariant
            k <= params@.len(),
            i <= k,
            constructor_suffix_spec(targets(params@), i as nat) == Ok::<Seq<char>, SpecParseError>(
                out@,
            ),
        decreases k - i,
    {
        if i != 0 {
            out.append("_and_");
        }
        let declname = match only_child_named(params[i], "declname") {
            Ok(d) => d,
            Err(e) => {
                proof {
                    lemma_suffix_error_persists(targets(params@), (i + 1) as nat, k as nat);
                }
                return Err(e);
            },
        };
        let text = declname.text();
        out.append(text.as_str());
        i = i + 1;
    }
    Ok(out)
}

/// Builds the first `k` parameters as `type name`, joined by `, `.
fn taken_params(params: &Vec<&XmlElement>, k: usize) -> (r: Result<String, ParseError>)
    requires
        k <= params@.len(),
    ensures
        text_view(r) == taken_params_spec(targets(params@), k as nat),
{
    let mut out = String::new();
    let mut i: usize = 0;
    while i < k
        invariant
            k <= params@.len(),
            i <= k,
            taken_params_spec(targets(params@), i as nat) == Ok::<Seq<char>, SpecParseError>(
                out@,
            ),
        decreases k - i,
    {
        if i != 0 {
            out.append(", ");
        }
        let type_el = match only_child_named(params[i], "type") {
            Ok(t) => t,
            Err(e) => {
                proof {
                    lemma_taken_error_persists(targets(params@), (i + 1) as nat, k as nat);
                }
                return Err(e);
            },
        };
        gather_all_inner_text(type_el, &mut out);
        out.append(" ");
        let declname = match only_child_named(params[i], "declname") {
            Ok(d) => d,
            Err(e) => {
                proof {
                    lemma_taken_error_persists(targets(params@), (i + 1) as nat, k as nat);
                }
                return Err(e);
            },
        };
        let text = declname.text();
        out.append(text.as_str());
        i = i + 1;
    }
    Ok(out)
}

/// Builds the declared names of the first `k` parameters joined by `, `.
fn passed_params(params: &Vec<&XmlElement>, k: usize) -> (r: Result<String, ParseError>)
    requires
        k <= params@.len(),
    ensures
        text_view(r) == passed_params_spec(targets(params@), k as nat),
{
    let mut out = String::new();
    let mut i: usize = 0;
    while i < k
        invariant
            k <= params@.len(),
            i <= k,
            passed_params_spec(targets(params@), i as nat) == Ok::<Seq<char>, SpecParseError>(
                out@,
            ),
        decreases k - i,
    {
        if i != 0 {
            out.append(", ");
        }
        let declname = match only_child_named(params[i], "declname") {
            Ok(d) => d,
            Err(e) => {
                proof {
                    lemma_passed_error_persists(targets(params@), (i + 1) as nat, k as nat);
                }
                return Err(e);
            },
        };
        let text = declname.text();
        out.append(text.as_str());
        i = i + 1;
    }
    Ok(out)
}

/// The wrapper for the constructor of class `name` called with the first `k`
/// of `params`: a declaration for the header and a definition for the source.
pub open spec fn arity_text(name: Seq<char>, params: Seq<XmlElement>, k: nat) -> WrapperText {
    if k == 0 {
        WrapperText {
            header: name + "* construct_"@ + name + "();\n"@,
            source: name + "* construct_"@ + name + "() { return new "@ + name + "(); }\n"@,
            error: None,
        }
    } else {
        match constructor_suffix_spec(params, k) {
            Err(e) => no_text(Some(e)),
            Ok(suffix) => match taken_params_spec(params, k) {
                Err(e) => no_text(Some(e)),
                Ok(taken) => match passed_params_spec(params, k) {
                    Err(e) => no_text(Some(e)),
                    Ok(passed) => WrapperText {
                        header: name + "* construct_"@ + name + "_from_"@ + suffix + "("@ + taken
                            + ");\n"@,
                        source: name + "* construct_"@ + name + "_from_"@ + suffix + "("@ + taken
                            + ") { return new "@ + name + "("@ + passed + "); }\n"@,
                        error: None,
                    },
                },
            },
        }
    }
}

/// Appends the wrapper for the constructor of class `name` called with the
/// first `k` of `params`.
fn arity_wrapper(
    name: &String,
    params: &Vec<&XmlElement>,
    k: usize,
    hxx_file: &mut String,
    cxx_file: &mut String,
) -> (r: Result<(), ParseError>)
    requires
        k <= params@.len(),
    ensures
        final(hxx_file)@ == old(hxx_file)@ + arity_text(name@, targets(params@), k as nat).header,
        final(cxx_file)@ == old(cxx_file)@ + arity_text(name@, targets(params@), k as nat).source,
        status_view(r) == arity_text(name@, targets(params@), k as nat).error,
{
    if k == 0 {
        cxx_file.append(name.as_str());
        cxx_file.append("* construct_");
        cxx_file.append(name.as_str());
        cxx_file.append("() { return new ");
        cxx_file.append(name.as_str());
        cxx_file.append("(); }\n");
        hxx_file.append(name.as_str());
        hxx_file.append("* construct_");
        hxx_file.append(name.as_str());
        hxx_file.append("();\n");
        return Ok(());
    }
    let suffix = match constructor_suffix(params, k) {
        Ok(s) => s,
        Err(e) => {
            return Err(e);
        },
    };
    let taken = match taken_params(params, k) {
        Ok(s) => s,
        Err(e) => {
            return Err(e);
        },
    };
    let passed = match passed_params(params, k) {
        Ok(s) => s,
        Err(e) => {
            return Err(e);
        },
    };
    cxx_file.append(name.as_str());
    cxx_file.append("* construct_");
    cxx_file.append(name.as_str());
    cxx_file.append("_from_");
    cxx_file.append(suffix.as_str());
    cxx_file.append("(");
    cxx_file.append(taken.as_str());
    cxx_file.append(") { return new ");
    cxx_file.append(name.as_str());
    cxx_file.append("(");
    cxx_file.append(passed.as_str());
    cxx_file.append("); }\n");
    hxx_file.append(name.as_str());
    hxx_file.append("* construct_");
    hxx_file.append(name.as_str());
    hxx_file.append("_from_");
    hxx_file.append(suffix.as_str());
    hxx_file.append("(");
    hxx_file.append(taken.as_str());
    hxx_file.append(");\n");
    Ok(())
}

/// The wrappers for arities `lo` up to but not including `hi`, in order, up to
/// the first one that fails.
pub open spec fn arities_text(name: Seq<char>, params: Seq<XmlElement>, lo: nat, hi: nat) -> WrapperText
    decreases hi,
{
    if hi <= lo {
        no_text(None)
    } else {
        then_text(
            arities_text(name, params, lo, (hi - 1) as nat),
            arity_text(name, params, (hi - 1) as nat),
        )
    }
}

/// How many of `params` lack a single `defval` child: the parameters that every
/// call must pass.
pub open spec fn required_param_count(params: Seq<XmlElement>) -> nat
    decreases params.len(),
{
    if params.len() == 0 {
        0
    } else {
        required_param_count(params.drop_last()) + if only_child_spec(
            params.last(),
            CondSpec::Named("defval"@),
        ) is Err {
            1nat
        } else {
            0nat
        }
    }
}

/// The wrappers for `memberdef` where it documents a constructor of class
/// `name`: one for each number of passed parameters from the required ones up
/// to but not including all of them.
pub open spec fn member_text(name: Seq<char>, memberdef: XmlElement) -> WrapperText {
    match only_child_spec(memberdef, CondSpec::Named("definition"@)) {
        Err(e) => no_text(Some(e)),
        Ok(d) => if d.text_spec() != name + "::"@ + name {
            no_text(None)
        } else {
            let params = matching_children(memberdef.nodes@, CondSpec::Named("param"@));
            arities_text(name, params, required_param_count(params), params.len())
        },
    }
}

/// The wrappers for all of `members`, in order, up to the first that fails.
pub open spec fn members_text(name: Seq<char>, members: Seq<XmlElement>) -> WrapperText
    decreases members.len(),
{
    if members.len() == 0 {
        no_text(None)
    } else {
        then_text(members_text(name, members.drop_last()), member_text(name, members.last()))
    }
}

/// The wrappers for the class that `class_root` documents.
pub open spec fn class_text(class_root: XmlElement) -> WrapperText {
    match only_child_spec(class_root, CondSpec::Named("compounddef"@)) {
        Err(e) => no_text(Some(e)),
        Ok(compounddef) => match only_child_spec(compounddef, CondSpec::Named("compoundname"@)) {
            Err(e) => no_text(Some(e)),
            Ok(compoundname) => match only_child_spec(
                compounddef,
                CondSpec::NamedWithAttr("sectiondef"@, "kind"@, "public-func"@),
            ) {
                Err(e) => no_text(Some(e)),
                Ok(sectiondef) => members_text(compoundname.text_spec(), sectiondef.children_spec()),
            },
        },
    }
}

/// Once the arities up to `a` fail, the arities up to any later `b` end the same way.
proof fn lemma_arities_error_persists(name: Seq<char>, params: Seq<XmlElement>, lo: nat, a: nat, b: nat)
    requires
        a <= b,
        arities_text(name, params, lo, a).error is Some,
    ensures
        arities_text(name, params, lo, b) == arities_text(name, params, lo, a),
    decreases b,
{
    if b > a {
        lemma_arities_error_persists(name, params, lo, a, (b - 1) as nat);
    }
}

/// Once the members up to `a` fail, the members up to any later `b` end the same way.
proof fn lemma_members_error_persists(name: Seq<char>, members: Seq<XmlElement>, a: nat, b: nat)
    requires
        a <= b <= members.len(),
        members_text(name, members.take(a as int)).error is Some,
    ensures
        members_text(name, members.take(b as int)) == members_text(name, members.take(a as int)),
    decreases b,
{
    if b > a {
        lemma_members_error_persists(name, members, a, (b - 1) as nat);
        assert(members.take(b as int).drop_last() == members.take((b - 1) as int));
    }
}

/// Counts the parameters that lack a single `defval` child.
fn required_params(params: &Vec<&XmlElement>) -> (r: usize)
    ensures
        r == required_param_count(targets(params@)),
        r <= params@.len(),
{
    let n = params.len();
    let mut count: usize = 0;
    let mut i: usize = 0;
    while i < n
        invariant
            n == params@.len(),
            i <= n,
            count <= i,
            count == required_param_count(targets(params@).take(i as int)),
        decreases n - i,
    {
        assert(targets(params@).take(i + 1).drop_last() == targets(params@).take(i as int));
        if only_child_named(params[i], "defval").is_err() {
            count = count + 1;
        }
        i = i + 1;
    }
    assert(targets(params@).take(n as int) == targets(params@));
    count
}

/// Appends the wrappers for `memberdef` where it documents a constructor of class `name`.
fn member_wrappers(
    name: &String,
    memberdef: &XmlElement,
    hxx_file: &mut String,
    cxx_file: &mut String,
) -> (r: Result<(), ParseError>)
    ensures
        final(hxx_file)@ == old(hxx_file)@ + member_text(name@, *memberdef).header,
        final(cxx_file)@ == old(cxx_file)@ + member_text(name@, *memberdef).source,
        status_view(r) == member_text(name@, *memberdef).error,
{
    let definition = match only_child_named(memberdef, "definition") {
        Ok(d) => d.text(),
        Err(e) => {
            return Err(e);
        },
    };
    let mut constructor_name = name.clone();
    constructor_name.append("::");
    constructor_name.append(name.as_str());
    if definition != constructor_name {
        return Ok(());
    }
    let params = children_where(memberdef, &ChildCondition::Named("param".to_owned()));
    let ghost ps = targets(params@);
    let required = required_params(&params);
    let n = params.len();
    let mut k: usize = required;
    assert(member_text(name@, *memberdef) == arities_text(name@, ps, required as nat, n as nat));
    while k < n
        invariant
            member_text(name@, *memberdef) == arities_text(name@, ps, required as nat, n as nat),
            required <= k <= n,
            n == params@.len(),
            ps == targets(params@),
            hxx_file@ == old(hxx_file)@ + arities_text(name@, ps, required as nat, k as nat).header,
            cxx_file@ == old(cxx_file)@ + arities_text(name@, ps, required as nat, k as nat).source,
            arities_text(name@, ps, required as nat, k as nat).error is None,
        decreases n - k,
    {
        let res = arity_wrapper(name, &params, k, hxx_file, cxx_file);
        match res {
            Ok(()) => {},
            Err(e) => {
                proof {
                    let prev = arities_text(name@, ps, required as nat, k as nat);
                    let cur = arity_text(name@, ps, k as nat);
                    assert(hxx_file@ =~= old(hxx_file)@ + (prev.header + cur.header));
                    assert(cxx_file@ =~= old(cxx_file)@ + (prev.source + cur.source));
                    assert(arities_text(name@, ps, required as nat, (k + 1) as nat) == then_text(
                        prev,
                        cur,
                    ));
                    lemma_arities_error_persists(
                        name@,
                        ps,
                        required as nat,
                        (k + 1) as nat,
                        n as nat,
                    );
                    assert(member_text(name@, *memberdef) == arities_text(
                        name@,
                        ps,
                        required as nat,
                        n as nat,
                    ));
                }
                return Err(e);
            },
        }
        k = k + 1;
    }
    Ok(())
}

/// Appends the wrappers for each of `members` in order, up to the first that fails.
fn members_wrappers(
    name: &String,
    members: &Vec<&XmlElement>,
    hxx_file: &mut String,
    cxx_file: &mut String,
) -> (r: Result<(), ParseError>)
    ensures
        final(hxx_file)@ == old(hxx_file)@ + members_text(name@, targets(members@)).header,
        final(cxx_file)@ == old(cxx_file)@ + members_text(name@, targets(members@)).source,
        status_view(r) == members_text(name@, targets(members@)).error,
{
    let ghost ms = targets(members@);
    let n = members.len();
    let mut i: usize = 0;
    while i < n
        invariant
            i <= n,
            n == members@.len(),
            ms == targets(members@),
            hxx_file@ == old(hxx_file)@ + members_text(name@, ms.take(i as int)).header,
            cxx_file@ == old(cxx_file)@ + members_text(name@, ms.take(i as int)).source,
            members_text(name@, ms.take(i as int)).error is None,
        decreases n - i,
    {
        assert(ms.take(i + 1).drop_last() == ms.take(i as int));
        assert(ms.take(i + 1).last() == *members[i as int]);
        let res = member_wrappers(name, members[i], hxx_file, cxx_file);
        match res {
            Ok(()) => {},
            Err(e) => {
                proof {
                    let prev = members_text(name@, ms.take(i as int));
                    let cur = member_text(name@, ms[i as int]);
                    assert(hxx_file@ =~= old(hxx_file)@ + (prev.header + cur.header));
                    assert(cxx_file@ =~= old(cxx_file)@ + (prev.source + cur.source));
                    assert(members_text(name@, ms.take(i + 1)) == then_text(prev, cur));
                    lemma_members_error_persists(name@, ms, (i + 1) as nat, n as nat);
                    assert(ms.take(n as int) == ms);
                }
                return Err(e);
            },
        }
        i = i + 1;
    }
    assert(ms.take(n as int) == ms);
    Ok(())
}

/// Appends to `hxx_file` a declaration and to `cxx_file` a definition of a
/// wrapper function for each constructor of the class that `class_root`
/// documents, for each number of passed parameters from the required ones up
/// to but not including all of them. Stops at the first lookup that fails, with
/// what came before it already appended, and returns that error.
pub fn generate_constructor_wrappers(
    class_root: &XmlElement,
    hxx_file: &mut String,
    cxx_file: &mut String,
) -> (r: Result<(), ParseError>)
    ensures
        final(hxx_file)@ == old(hxx_file)@ + class_text(*class_root).header,
        final(cxx_file)@ == old(cxx_file)@ + class_text(*class_root).source,
        status_view(r) == class_text(*class_root).error,
{
    let compounddef = match only_child_named(class_root, "compounddef") {
        Ok(c) => c,
        Err(e) => {
            return Err(e);
        },
    };
    let name = match only_child_named(compounddef, "compoundname") {
        Ok(c) => c.text(),
        Err(e) => {
            return Err(e);
        },
    };
    let section_cond = ChildCondition::NamedWithAttr {
        name: "sectiondef".to_owned(),
        attr: "kind".to_owned(),
        value: "public-func".to_owned(),
    };
    let sectiondef = match only_child_where(compounddef, &section_cond) {
        Ok(s) => s,
        Err(e) => {
            return Err(e);
        },
    };
    let members = sectiondef.children();
    members_wrappers(&name, &members, hxx_file, cxx_file)
}

/// Classes as their file names and documents.
pub open spec fn class_views(classes: Seq<(String, XmlElement)>) -> Seq<(Seq<char>, XmlElement)> {
    classes.map_values(|c: (String, XmlElement)| (c.0@, c.1))
}

/// The header and source text that all of `classes` give, in order: each class
/// contributes its text up to its own first failed lookup.
pub open spec fn classes_text(classes: Seq<(Seq<char>, XmlElement)>) -> (Seq<char>, Seq<char>)
    decreases classes.len(),
{
    if classes.len() == 0 {
        (Seq::empty(), Seq::empty())
    } else {
        let (header, source) = classes_text(classes.drop_last());
        let t = class_text(classes.last().1);
        (header + t.header, source + t.source)
    }
}

/// The classes among `classes` whose generation failed, each with its error, in order.
pub open spec fn class_failures(classes: Seq<(Seq<char>, XmlElement)>) -> Seq<
    (Seq<char>, SpecParseError),
>
    decreases classes.len(),
{
    if classes.len() == 0 {
        Seq::empty()
    } else {
        let prefix = class_failures(classes.drop_last());
        match class_text(classes.last().1).error {
            Some(e) => prefix.push((classes.last().0, e)),
            None => prefix,
        }
    }
}

/// Appends the wrappers of every class in `classes` (a file name and its parsed
/// document), in order. A class whose lookup fails keeps what it generated
/// before the failure and does not stop the others; returns the file name and
/// error of each class that failed, in order.
pub fn generate_all_wrappers(
    classes: &Vec<(String, XmlElement)>,
    hxx_file: &mut String,
    cxx_file: &mut String,
) -> (r: Vec<(String, ParseError)>)
    ensures
        final(hxx_file)@ == old(hxx_file)@ + classes_text(class_views(classes@)).0,
        final(cxx_file)@ == old(cxx_file)@ + classes_text(class_views(classes@)).1,
        r@.map_values(|f: (String, ParseError)| (f.0@, f.1@)) == class_failures(
            class_views(classes@),
        ),
{
    let ghost cs = class_views(classes@);
    let n = classes.len();
    let mut failures: Vec<(String, ParseError)> = Vec::new();
    let mut i: usize = 0;
    while i < n
        invariant
            n == classes@.len(),
            cs == class_views(classes@),
            i <= n,
            hxx_file@ == old(hxx_file)@ + classes_text(cs.take(i as int)).0,
            cxx_file@ == old(cxx_file)@ + classes_text(cs.take(i as int)).1,
            failures@.map_values(|f: (String, ParseError)| (f.0@, f.1@)) == class_failures(
                cs.take(i as int),
            ),
        decreases n - i,
    {
        assert(cs.take(i + 1).drop_last() == cs.take(i as int));
        assert(cs.take(i + 1).last() == (classes@[i as int].0@, classes@[i as int].1));
        let ghost before_h = hxx_file@;
        let ghost before_c = cxx_file@;
        let result = generate_constructor_wrappers(&classes[i].1, hxx_file, cxx_file);
        proof {
            let t = class_text(classes@[i as int].1);
            assert(hxx_file@ =~= old(hxx_file)@ + (classes_text(cs.take(i as int)).0 + t.header));
            assert(cxx_file@ =~= old(cxx_file)@ + (classes_text(cs.take(i as int)).1 + t.source));
        }
        match result {
            Ok(()) => {},
            Err(e) => {
                let entry = (classes[i].0.clone(), e);
                let ghost prev = failures@;
                failures.push(entry);
                assert(failures@.map_values(|f: (String, ParseError)| (f.0@, f.1@)) == prev.map_values(
                    |f: (String, ParseError)| (f.0@, f.1@),
                ).push((entry.0@, entry.1@)));
            },
        }
        i = i + 1;
    }
    assert(cs.take(n as int) == cs);
    failures
}

} // verus!
