use wx_widgets_bindgen_helpers::classes::get_all_classes;
use wx_widgets_bindgen_helpers::selection::{
    class_blocklist, class_file_path, classes_to_wrap, contains_char, header_prologue,
    index_file_path, is_wrapped_class, lines_of, source_prologue, CLASS_BLOCKLIST,
};
use wx_widgets_bindgen_helpers::xml::parse_document;

const INDEX: &str = "<?xml version='1.0' encoding='UTF-8' standalone='no'?>\n<doxygenindex version=\"1.8\">\n\
  <compound refid=\"classwx_button\" kind=\"class\"><name>wxButton</name><member refid=\"m\" kind=\"function\"><name>Create</name></member></compound>\n\
  <compound refid=\"classwx_thread\" kind=\"class\"><name>wxThread</name></compound>\n\
  <compound refid=\"structwx_point\" kind=\"struct\"><name>wxPoint</name></compound>\n\
  <compound refid=\"classwx_vec\" kind=\"class\"><name>wxVector&lt; T &gt;</name></compound>\n\
  <compound refid=\"classns\" kind=\"class\"><name>ns::Thing</name></compound>\n\
  <compound kind=\"class\"><name>NoRefid</name></compound>\n\
  <compound refid=\"classtwo\" kind=\"class\"><name>A</name><name>B</name></compound>\n\
  <compound refid=\"classwx_frame\" kind=\"class\"><name>wxFrame</name></compound>\n\
</doxygenindex>\n";

#[test]
fn all_classes_lists_class_compounds_with_name_and_refid() {
    let root = parse_document(INDEX.as_bytes()).unwrap();
    let classes = get_all_classes(&root);
    let expected: Vec<(String, String)> = vec![
        ("wxButton", "classwx_button"),
        ("wxThread", "classwx_thread"),
        ("wxVector< T >", "classwx_vec"),
        ("ns::Thing", "classns"),
        ("wxFrame", "classwx_frame"),
    ]
    .into_iter()
    .map(|(a, b)| (a.to_owned(), b.to_owned()))
    .collect();
    assert_eq!(classes, expected);
}

#[test]
fn classes_to_wrap_filters_and_builds_paths() {
    let root = parse_document(INDEX.as_bytes()).unwrap();
    let plan = classes_to_wrap(&root, "doc/xml");
    let expected: Vec<(String, String)> = vec![
        ("wxButton".to_owned(), "doc/xml/classwx_button.xml".to_owned()),
        ("wxFrame".to_owned(), "doc/xml/classwx_frame.xml".to_owned()),
    ];
    assert_eq!(plan, expected);
}

#[test]
fn lines_follow_str_lines() {
    for text in ["", "\n", "a", "a\n", "\na\r\nb\n", "x\r", "a\n\nb", "a\rb\n"] {
        let expected: Vec<String> = text.lines().map(|l| l.to_owned()).collect();
        assert_eq!(lines_of(text), expected, "text {:?}", text);
    }
}

#[test]
fn blocklist_is_the_nonempty_lines() {
    let blocked = class_blocklist();
    let expected: Vec<String> = CLASS_BLOCKLIST
        .lines()
        .filter(|l| !l.is_empty())
        .map(|l| l.to_owned())
        .collect();
    assert_eq!(blocked, expected);
    assert_eq!(blocked.first().map(|s| s.as_str()), Some("wxThreadHelper"));
    assert_eq!(blocked.last().map(|s| s.as_str()), Some("wxZipEntry"));
    assert_eq!(blocked.len(), 323);
    assert!(blocked.iter().all(|b| !b.is_empty() && !b.contains('\n')));
}

#[test]
fn wrapped_class_rules() {
    let blocked = class_blocklist();
    assert!(is_wrapped_class("wxButton", &blocked));
    assert!(!is_wrapped_class("wxThread", &blocked));
    assert!(!is_wrapped_class("wxZipEntry", &blocked));
    assert!(!is_wrapped_class("ns::Thing", &blocked));
    assert!(!is_wrapped_class("wxVector<int>", &blocked));
    assert!(!is_wrapped_class("unsigned int", &blocked));
    assert!(is_wrapped_class("", &blocked));
}

#[test]
fn char_search() {
    assert!(contains_char("a:b", ':'));
    assert!(!contains_char("ab", ':'));
    assert!(!contains_char("", ' '));
}

#[test]
fn paths_and_prologues() {
    assert_eq!(index_file_path("wx/xml"), "wx/xml/index.xml");
    assert_eq!(class_file_path("wx/xml", "classwx_button"), "wx/xml/classwx_button.xml");
    assert_eq!(header_prologue(), "#include \"wx/wx.h\"\n");
    assert_eq!(source_prologue("out/gen.hpp"), "#include \"out/gen.hpp\"\n");
}
