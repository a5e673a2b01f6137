use wx_widgets_bindgen_helpers::xml::{gather_all_inner_text, parse_document, XmlElement, XmlNode};
use wx_widgets_bindgen_helpers::lookup::{
    children_where, get_attr, only_child_named, only_child_where, ChildCondition, ParseError,
};

fn parse(text: &str) -> XmlElement {
    parse_document(text.as_bytes()).expect("well-formed test document")
}

#[test]
fn parse_keeps_names_attributes_text_and_comments() {
    let root = parse("<a x=\"1\" y=\"two\">hi<!--note--><b/>yo</a>");
    assert_eq!(root.name, "a");
    assert_eq!(root.attrs, vec![("x".to_owned(), "1".to_owned()), ("y".to_owned(), "two".to_owned())]);
    assert_eq!(root.nodes.len(), 4);
    assert_eq!(root.nodes[0], XmlNode::Text("hi".to_owned()));
    assert_eq!(root.nodes[1], XmlNode::Comment("note".to_owned()));
    match &root.nodes[2] {
        XmlNode::Element(b) => {
            assert_eq!(b.name, "b");
            assert!(b.nodes.is_empty());
        }
        other => panic!("expected an element, got {:?}", other),
    }
    assert_eq!(root.nodes[3], XmlNode::Text("yo".to_owned()));
}

#[test]
fn parse_unescapes_entities() {
    let root = parse("<t>const wxString &amp;</t>");
    assert_eq!(root.text(), "const wxString &");
}

#[test]
fn parse_rejects_malformed_document() {
    assert!(parse_document(b"<a><b></a>").is_err());
    assert!(parse_document(b"").is_err());
}

#[test]
fn text_is_direct_text_only() {
    let root = parse("<node>hello,<split>inner</split> world!</node>");
    assert_eq!(root.text(), "hello, world!");
}

#[test]
fn inner_text_descends_and_skips_comments() {
    let root = parse("<type>const <ref refid=\"r\">wxString</ref><!--x--> &amp;</type>");
    let mut out = "prefix:".to_owned();
    gather_all_inner_text(&root, &mut out);
    assert_eq!(out, "prefix:const wxString &");
}

#[test]
fn inner_text_of_childless_element_is_its_text() {
    let root = parse("<a>one<!--c-->two</a>");
    let mut out = String::new();
    gather_all_inner_text(&root, &mut out);
    assert_eq!(out, root.text());
}

#[test]
fn attr_finds_value_or_none() {
    let root = parse("<a kind=\"class\" refid=\"r1\"/>");
    assert_eq!(root.attr("kind"), Some("class"));
    assert_eq!(root.attr("refid"), Some("r1"));
    assert_eq!(root.attr("missing"), None);
}

#[test]
fn children_skip_text_and_comments() {
    let root = parse("<r>t<a/><!--c--><b/>u<c/></r>");
    let names: Vec<&str> = root.children().iter().map(|c| c.name.as_str()).collect();
    assert_eq!(names, vec!["a", "b", "c"]);
}

#[test]
fn only_child_named_finds_the_unique_child() {
    let root = parse("<r><a>1</a><b>2</b></r>");
    let b = only_child_named(&root, "b").expect("one b");
    assert_eq!(b.text(), "2");
}

#[test]
fn only_child_named_reports_missing_child() {
    let root = parse("<r><a/></r>");
    assert_eq!(
        only_child_named(&root, "b"),
        Err(ParseError::MissingChild { cond: "named == b".to_owned() })
    );
}

#[test]
fn only_child_named_reports_extra_children() {
    let root = parse("<r><a/><a/></r>");
    assert_eq!(
        only_child_named(&root, "a"),
        Err(ParseError::ExtraChildren { cond: "named == a".to_owned() })
    );
}

#[test]
fn only_child_where_checks_name_and_attribute() {
    let root = parse(
        "<c><sectiondef kind=\"private-func\"/><sectiondef kind=\"public-func\"><m/></sectiondef></c>",
    );
    let cond = ChildCondition::NamedWithAttr {
        name: "sectiondef".to_owned(),
        attr: "kind".to_owned(),
        value: "public-func".to_owned(),
    };
    let found = only_child_where(&root, &cond).expect("one public section");
    assert_eq!(found.attr("kind"), Some("public-func"));
    assert_eq!(cond.describe(), "sectiondef[kind=public-func]");
}

#[test]
fn only_child_where_reports_condition_text() {
    let root = parse("<c><sectiondef kind=\"private-func\"/></c>");
    let cond = ChildCondition::NamedWithAttr {
        name: "sectiondef".to_owned(),
        attr: "kind".to_owned(),
        value: "public-func".to_owned(),
    };
    assert_eq!(
        only_child_where(&root, &cond),
        Err(ParseError::MissingChild { cond: "sectiondef[kind=public-func]".to_owned() })
    );
}

#[test]
fn children_where_keeps_order() {
    let root = parse("<m><param>1</param><x/><param>2</param></m>");
    let params = children_where(&root, &ChildCondition::Named("param".to_owned()));
    let texts: Vec<String> = params.iter().map(|p| p.text()).collect();
    assert_eq!(texts, vec!["1".to_owned(), "2".to_owned()]);
}

#[test]
fn get_attr_reports_missing_attribute() {
    let root = parse("<a kind=\"class\"/>");
    assert_eq!(get_attr(&root, "kind"), Ok("class"));
    assert_eq!(
        get_attr(&root, "refid"),
        Err(ParseError::MissingAttr { attr: "refid".to_owned() })
    );
}

#[test]
fn lookup_error_messages() {
    let root = parse("<a><b/><b/><c/></a>");
    let extra = only_child_named(&root, "b").unwrap_err();
    assert_eq!(extra.message(), "too many child elements match condition: named == b");
    let missing = only_child_named(&root, "z").unwrap_err();
    assert_eq!(missing.message(), "no child elements match condition: named == z");
    assert_eq!(only_child_named(&root, "c").map(|c| c.name.as_str()), Ok("c"));
    let c = parse("<c refid='x' kind='class'/>");
    assert_eq!(get_attr(&c, "refid"), Ok("x"));
    assert_eq!(get_attr(&c, "kind"), Ok("class"));
    let attr = get_attr(&c, "name").unwrap_err();
    assert_eq!(attr, ParseError::MissingAttr { attr: "name".to_owned() });
    assert_eq!(attr.message(), "missing attribute: name");
}
