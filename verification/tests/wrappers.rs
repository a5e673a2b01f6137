use wx_widgets_bindgen_helpers::constructors::{generate_all_wrappers, generate_constructor_wrappers};
use wx_widgets_bindgen_helpers::lookup::ParseError;
use wx_widgets_bindgen_helpers::xml::{parse_document, XmlElement};

fn parse(text: &str) -> XmlElement {
    parse_document(text.as_bytes()).expect("well-formed test document")
}

fn class_doc(members: &str) -> String {
    format!(
        "<?xml version='1.0' encoding='UTF-8' standalone='no'?>\n<doxygen>\n  <compounddef id=\"classwx_button\" kind=\"class\">\n    <compoundname>wxButton</compoundname>\n    <sectiondef kind=\"public-func\">\n{}\n    </sectiondef>\n  </compounddef>\n</doxygen>\n",
        members
    )
}

const FULL_CTOR: &str = "<memberdef kind=\"function\"><type/><definition>wxButton::wxButton</definition>\
<param><type><ref refid=\"w\">wxWindow</ref> *</type><declname>parent</declname></param>\
<param><type>wxWindowID</type><declname>id</declname></param>\
<param><type>const <ref refid=\"s\">wxString</ref> &amp;</type><declname>label</declname><defval>wxEmptyString</defval></param>\
<param><type>long</type><declname>style</declname><defval>0</defval></param>\
</memberdef>";

fn run(doc: &str) -> (String, String, Result<(), ParseError>) {
    let root = parse(doc);
    let mut hxx = "H:".to_owned();
    let mut cxx = "C:".to_owned();
    let r = generate_constructor_wrappers(&root, &mut hxx, &mut cxx);
    (hxx, cxx, r)
}

#[test]
fn wrappers_for_required_up_to_all_but_last() {
    let (hxx, cxx, r) = run(&class_doc(FULL_CTOR));
    assert_eq!(r, Ok(()));
    assert_eq!(
        hxx,
        "H:wxButton* construct_wxButton_from_parent_and_id(wxWindow * parent, wxWindowID id);\n\
wxButton* construct_wxButton_from_parent_and_id_and_label(wxWindow * parent, wxWindowID id, const wxString & label);\n"
    );
    assert_eq!(
        cxx,
        "C:wxButton* construct_wxButton_from_parent_and_id(wxWindow * parent, wxWindowID id) { return new wxButton(parent, id); }\n\
wxButton* construct_wxButton_from_parent_and_id_and_label(wxWindow * parent, wxWindowID id, const wxString & label) { return new wxButton(parent, id, label); }\n"
    );
}

#[test]
fn default_constructor_wrapper_when_nothing_required() {
    let member = "<memberdef><definition>wxButton::wxButton</definition>\
<param><type>long</type><declname>style</declname><defval>0</defval></param></memberdef>";
    let (hxx, cxx, r) = run(&class_doc(member));
    assert_eq!(r, Ok(()));
    assert_eq!(hxx, "H:wxButton* construct_wxButton();\n");
    assert_eq!(cxx, "C:wxButton* construct_wxButton() { return new wxButton(); }\n");
}

#[test]
fn no_wrapper_when_every_param_required_or_none() {
    let members = "<memberdef><definition>wxButton::wxButton</definition></memberdef>\
<memberdef><definition>wxButton::wxButton</definition>\
<param><type>int</type><declname>a</declname></param></memberdef>";
    let (hxx, cxx, r) = run(&class_doc(members));
    assert_eq!(r, Ok(()));
    assert_eq!(hxx, "H:");
    assert_eq!(cxx, "C:");
}

#[test]
fn other_members_are_skipped() {
    let members = "<memberdef><definition>bool wxButton::Create</definition>\
<param><type>int</type><declname>a</declname><defval>1</defval></param></memberdef>";
    let (hxx, cxx, r) = run(&class_doc(members));
    assert_eq!(r, Ok(()));
    assert_eq!((hxx.as_str(), cxx.as_str()), ("H:", "C:"));
}

#[test]
fn missing_compounddef_is_reported() {
    let (hxx, cxx, r) = run("<doxygen/>");
    assert_eq!(r, Err(ParseError::MissingChild { cond: "named == compounddef".to_owned() }));
    assert_eq!((hxx.as_str(), cxx.as_str()), ("H:", "C:"));
}

#[test]
fn duplicate_compoundname_is_reported() {
    let doc = "<doxygen><compounddef><compoundname>A</compoundname><compoundname>B</compoundname></compounddef></doxygen>";
    let (_, _, r) = run(doc);
    assert_eq!(r, Err(ParseError::ExtraChildren { cond: "named == compoundname".to_owned() }));
}

#[test]
fn missing_public_section_is_reported() {
    let doc = "<doxygen><compounddef><compoundname>A</compoundname><sectiondef kind=\"protected-func\"/></compounddef></doxygen>";
    let (_, _, r) = run(doc);
    assert_eq!(
        r,
        Err(ParseError::MissingChild { cond: "sectiondef[kind=public-func]".to_owned() })
    );
}

#[test]
fn member_without_definition_stops_with_earlier_output_kept() {
    let members = format!("{}<memberdef kind=\"function\"><type>int</type></memberdef>{}", FULL_CTOR, FULL_CTOR);
    let (hxx, cxx, r) = run(&class_doc(&members));
    assert_eq!(r, Err(ParseError::MissingChild { cond: "named == definition".to_owned() }));
    // only the first constructor's wrappers: two arities
    assert_eq!(hxx.matches("construct_wxButton_from_").count(), 2);
    assert_eq!(cxx.matches("return new wxButton(").count(), 2);
}

#[test]
fn missing_declname_stops_before_that_arity() {
    let member = "<memberdef><definition>wxButton::wxButton</definition>\
<param><type>int</type><declname>a</declname><defval>1</defval></param>\
<param><type>int</type><defval>2</defval></param>\
<param><type>int</type><declname>c</declname><defval>3</defval></param></memberdef>";
    let (hxx, cxx, r) = run(&class_doc(member));
    assert_eq!(r, Err(ParseError::MissingChild { cond: "named == declname".to_owned() }));
    assert_eq!(
        hxx,
        "H:wxButton* construct_wxButton();\nwxButton* construct_wxButton_from_a(int a);\n"
    );
    assert_eq!(
        cxx,
        "C:wxButton* construct_wxButton() { return new wxButton(); }\nwxButton* construct_wxButton_from_a(int a) { return new wxButton(a); }\n"
    );
}

#[test]
fn missing_type_is_reported() {
    let member = "<memberdef><definition>wxButton::wxButton</definition>\
<param><declname>a</declname></param><param><type>int</type><declname>b</declname><defval>1</defval></param></memberdef>";
    let (hxx, _, r) = run(&class_doc(member));
    assert_eq!(r, Err(ParseError::MissingChild { cond: "named == type".to_owned() }));
    assert_eq!(hxx, "H:");
}

#[test]
fn two_defvals_count_as_required() {
    let member = "<memberdef><definition>wxButton::wxButton</definition>\
<param><type>int</type><declname>a</declname><defval>1</defval><defval>2</defval></param>\
<param><type>int</type><declname>b</declname><defval>3</defval></param></memberdef>";
    let (hxx, _, r) = run(&class_doc(member));
    assert_eq!(r, Ok(()));
    assert_eq!(hxx, "H:wxButton* construct_wxButton_from_a(int a);\n");
}

#[test]
fn header_declaration_matches_source_definition() {
    let (hxx, cxx, _) = run(&class_doc(FULL_CTOR));
    for (h, c) in hxx[2..].lines().zip(cxx[2..].lines()) {
        let signature = h.strip_suffix(';').expect("declaration ends with ;");
        assert!(c.starts_with(signature));
        assert!(c[signature.len()..].starts_with(" { return new wxButton("));
    }
}

#[test]
fn all_wrappers_continue_after_a_failing_class() {
    let good = parse(&class_doc(FULL_CTOR));
    let bad = parse("<doxygen/>");
    let good2 = parse(&class_doc(FULL_CTOR));
    let classes = vec![
        ("good.xml".to_owned(), good),
        ("bad.xml".to_owned(), bad),
        ("good2.xml".to_owned(), good2),
    ];
    let mut hxx = String::new();
    let mut cxx = String::new();
    let failures = generate_all_wrappers(&classes, &mut hxx, &mut cxx);
    assert_eq!(
        failures,
        vec![(
            "bad.xml".to_owned(),
            ParseError::MissingChild { cond: "named == compounddef".to_owned() }
        )]
    );
    assert_eq!(hxx.lines().count(), 4);
    assert_eq!(cxx.lines().count(), 4);
}

#[test]
fn foreign_members_and_other_sections_change_nothing() {
    let (h1, c1, r1) = run(&class_doc(FULL_CTOR));
    let extra = format!(
        "<memberdef><definition>bool wxButton::Create</definition></memberdef>{}",
        FULL_CTOR
    );
    let (h2, c2, r2) = run(&class_doc(&extra));
    assert_eq!((h1.clone(), c1.clone(), r1.clone()), (h2, c2, r2));
    let with_section = class_doc(FULL_CTOR).replace(
        "<compoundname>",
        "<sectiondef kind=\"protected-func\"><memberdef/></sectiondef><compoundname>",
    );
    assert_eq!((h1, c1, r1), run(&with_section));
}
