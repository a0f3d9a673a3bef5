use dashmap::DashMap;
use htmx_lsp::config::HtmxConfig;
use htmx_lsp::htmx_tags::Tag;
use htmx_lsp::diagnostics::{
    describe, file_warning, FileWarnings, Severity, TagLocation, TagWarning,
};
use htmx_lsp::htmx_tree_sitter::{HTMLQueries, HTMLQuery, LspFiles, Parsers};
use htmx_lsp::init_hx::LangType;
use htmx_lsp::position::{
    get_position_from_lsp_completion, Point, Position, PositionDefinition, QueryType, TextPosition,
};
use htmx_lsp::query_helper::{query_tag, HtmxQuery, Queries};
use ropey::Rope;

fn tag(name: &str, start: usize, end: usize, file: usize, line: usize) -> Tag {
    Tag { name: name.to_string(), start, end, file, line }
}

fn fields(tag: &Tag) -> (String, usize, usize, usize, usize) {
    (tag.name.clone(), tag.start, tag.end, tag.file, tag.line)
}

const RUST_SOURCE: &str = r#"
fn main() {
    // hx@something
    let msg = "hello";
    // hx@other and more
}
"#;

#[test]
fn registering_a_uri_twice() {
    let mut files = LspFiles::default();
    let uri = "file:///a.rs".to_string();
    assert_eq!(files.get_index(&uri), None);
    assert_eq!(files.add_file(uri.clone()), Some(0));
    assert_eq!(files.get_index(&uri), Some(0));
    assert_eq!(files.add_file(uri.clone()), None);
    assert_eq!(files.get_index(&uri), Some(0));
}

#[test]
fn identifiers_count_up() {
    let mut files = LspFiles::default();
    assert_eq!(files.add_file("a".to_string()), Some(0));
    assert_eq!(files.add_file("b".to_string()), Some(1));
    assert_eq!(files.add_file("c".to_string()), Some(2));
    assert_eq!(files.get_index(&"b".to_string()), Some(1));
}

#[test]
fn reverse_lookup_gives_the_uri() {
    let mut files = LspFiles::default();
    let a = files.add_file("file:///a.rs".to_string()).unwrap();
    let b = files.add_file("file:///b.rs".to_string()).unwrap();
    assert_eq!(files.get_uri(a), Some("file:///a.rs".to_string()));
    assert_eq!(files.get_uri(b), Some("file:///b.rs".to_string()));
    assert_eq!(files.get_uri(7), None);
}

#[test]
fn reset_forgets_files_but_not_identifiers() {
    let mut files = LspFiles::default();
    files.add_file("a".to_string());
    files.add_tag(tag("hx@a", 0, 3, 0, 0)).unwrap();
    files.add_tree(0, Some(LangType::Template), "<div></div>");
    files.reset();
    assert_eq!(files.get_index(&"a".to_string()), None);
    assert_eq!(files.get_uri(0), None);
    assert!(files.get_tag(&"hx@a".to_string()).is_none());
    assert!(files.get_tree(0).is_none());
    assert_eq!(files.add_file("a".to_string()), Some(1));
}

#[test]
fn same_name_twice_is_one_success_and_one_failure() {
    let mut files = LspFiles::default();
    assert!(files.add_tag(tag("hx@a", 1, 4, 0, 2)).is_ok());
    let refused = files.add_tag(tag("hx@a", 5, 8, 1, 6)).unwrap_err();
    assert_eq!(fields(&refused), ("hx@a".to_string(), 5, 8, 1, 6));
    let held = files.get_tag(&"hx@a".to_string()).unwrap();
    assert_eq!(fields(&held), ("hx@a".to_string(), 1, 4, 0, 2));

    let mut files = LspFiles::default();
    assert!(files.add_tag(tag("hx@a", 5, 8, 1, 6)).is_ok());
    let refused = files.add_tag(tag("hx@a", 1, 4, 0, 2)).unwrap_err();
    assert_eq!(fields(&refused), ("hx@a".to_string(), 1, 4, 0, 2));
}

#[test]
fn deleting_a_files_tags_frees_their_names() {
    let mut files = LspFiles::default();
    assert!(files.add_tag(tag("hx@a", 1, 4, 0, 2)).is_ok());
    assert!(files.add_tag(tag("hx@b", 1, 4, 0, 3)).is_ok());
    assert!(files.add_tag(tag("hx@c", 1, 4, 1, 3)).is_ok());
    assert!(files.add_tag(tag("hx@a", 5, 8, 1, 6)).is_err());
    files.delete_tags_by_index(0);
    assert!(files.get_tag(&"hx@a".to_string()).is_none());
    assert!(files.get_tag(&"hx@b".to_string()).is_none());
    assert!(files.get_tag(&"hx@c".to_string()).is_some());
    assert!(files.add_tag(tag("hx@a", 5, 8, 1, 6)).is_ok());
    assert_eq!(files.get_tag(&"hx@a".to_string()).map(|t| t.file), Some(1));
}

#[test]
fn parsers_parse_each_kind() {
    let mut parsers = Parsers::default();
    let html = parsers.parse(LangType::Template, "<div></div>", None).expect("a tree");
    assert_eq!(html.root_node().kind(), "fragment");
    let rust = parsers.parse(LangType::Backend, RUST_SOURCE, None).expect("a tree");
    assert_eq!(rust.root_node().kind(), "source_file");
    let js = parsers.parse(LangType::JavaScript, "let a = 1;", Some(&html)).expect("a tree");
    assert_eq!(js.root_node().kind(), "program");
    let mut copy = parsers.clone();
    assert!(copy.parse(LangType::Template, "<a>", None).is_some());
}

#[test]
fn trees_keep_their_classification() {
    let mut files = LspFiles::default();
    files.add_tree(3, None, "<div></div>");
    assert!(files.get_tree(3).is_none());
    files.add_tree(3, Some(LangType::Template), "<div></div>");
    let (tree, lang) = files.get_tree(3).expect("a tree");
    assert_eq!(lang, LangType::Template);
    assert_eq!(tree.root_node().end_byte(), 11);
    files.add_tree(3, Some(LangType::Backend), "<p>text</p>\n");
    let (tree, lang) = files.get_tree(3).expect("a tree");
    assert_eq!(lang, LangType::Template);
    assert_eq!(tree.root_node().kind(), "fragment");
    assert_eq!(tree.root_node().end_byte(), 12);
}

#[test]
fn an_edit_parses_and_reads_the_tags_again() {
    let queries = Queries::new().expect("patterns");
    let mut files = LspFiles::default();
    let uri = "file:///src/a.rs".to_string();
    assert!(files.on_change(&uri, "// hx@one\n", &queries).is_empty());
    assert!(files.get_tree(0).is_none());
    files.add_file(uri.clone());
    assert!(files.on_change(&uri, "// hx@one\n", &queries).is_empty());
    assert!(files.get_tree(0).is_none());
    assert!(files.get_tag(&"hx@one".to_string()).is_none());

    files.add_tree(0, Some(LangType::Backend), "fn f() {}\n");
    assert!(files.on_change(&uri, "// hx@one\n", &queries).is_empty());
    assert_eq!(files.get_tree(0).map(|t| t.0.root_node().end_byte()), Some(10));
    assert_eq!(files.get_tag(&"hx@one".to_string()).map(|t| fields(&t)), Some(("hx@one".to_string(), 3, 8, 0, 0)));

    assert!(files.on_change(&uri, "// hx@one\n", &queries).is_empty());
    assert_eq!(files.get_tag(&"hx@one".to_string()).map(|t| fields(&t)), Some(("hx@one".to_string(), 3, 8, 0, 0)));

    let conflicts = files.on_change(&uri, "\n// hx@two\n  // hx@two\n", &queries);
    assert_eq!(conflicts.len(), 1);
    assert_eq!(fields(&conflicts[0]), ("hx@two".to_string(), 5, 10, 0, 2));
    assert!(files.get_tag(&"hx@one".to_string()).is_none());
    assert_eq!(files.get_tag(&"hx@two".to_string()).map(|t| t.line), Some(1));
    let again = files.on_change(&uri, "\n// hx@two\n  // hx@two\n", &queries);
    assert_eq!(again.len(), 1);
    assert_eq!(fields(&again[0]), fields(&conflicts[0]));
}

#[test]
fn an_edit_of_a_template_reads_no_tags() {
    let queries = Queries::new().expect("patterns");
    let mut files = LspFiles::default();
    let uri = "file:///t.html".to_string();
    files.add_file(uri.clone());
    files.add_tree(0, Some(LangType::Template), "<a></a>");
    files.add_tag(tag("hx@kept", 0, 6, 0, 0)).unwrap();
    assert!(files.on_change(&uri, "<div><!-- hx@new --></div>", &queries).is_empty());
    assert_eq!(files.get_tree(0).map(|t| t.0.root_node().end_byte()), Some(26));
    assert!(files.get_tag(&"hx@kept".to_string()).is_some());
    assert!(files.get_tag(&"hx@new".to_string()).is_none());
}

#[test]
fn what_the_editor_shows_for_a_warning() {
    let shown = describe(TagWarning { line: 3, start: 5, end: 10 });
    assert_eq!((shown.line, shown.start, shown.end), (3, 5, 10));
    assert_eq!(shown.severity, Severity::Warning);
    assert_eq!(shown.message, "This tag already exist.");
    assert_eq!(shown.source, "htmx-lsp");
}

#[test]
fn comment_patterns_compile() {
    assert!(Queries::new().is_some());
    assert_eq!(HtmxQuery::try_from(LangType::Template), Err(()));
    assert_eq!(HtmxQuery::try_from(LangType::JavaScript), Ok(HtmxQuery::JavaScript));
    assert_eq!(HtmxQuery::try_from(LangType::Backend), Ok(HtmxQuery::Backend));
}

#[test]
fn markup_patterns_compile() {
    let queries = HTMLQueries::new().expect("patterns");
    assert_eq!(queries.get(HTMLQuery::Name).capture_names().len(), 4);
    assert!(queries.get(HTMLQuery::Value).capture_names().contains(&"attr_value".to_string()));
    assert!(queries
        .get(HTMLQuery::Lsp)
        .capture_names()
        .contains(&"with_attr_value_not_empty".to_string()));
}

#[test]
fn tags_of_a_rust_source() {
    let queries = Queries::new().expect("patterns");
    let mut parsers = Parsers::default();
    let tree = parsers.parse(LangType::Backend, RUST_SOURCE, None).expect("a tree");
    let tags = query_tag(tree.root_node(), RUST_SOURCE, &queries, HtmxQuery::Backend);
    assert_eq!(tags.len(), 1);
    assert_eq!(fields(&tags[0]), ("hx@something".to_string(), 7, 18, 0, 2));
}

#[test]
fn tags_of_a_script() {
    let source = "// hx@first\nlet a = 1; // hx@second\n";
    let queries = Queries::new().expect("patterns");
    let mut parsers = Parsers::default();
    let tree = parsers.parse(LangType::JavaScript, source, None).expect("a tree");
    let tags = query_tag(tree.root_node(), source, &queries, HtmxQuery::JavaScript);
    assert_eq!(tags.len(), 2);
    assert_eq!(fields(&tags[0]), ("hx@first".to_string(), 3, 10, 0, 0));
    assert_eq!(fields(&tags[1]), ("hx@second".to_string(), 14, 22, 0, 1));
}

#[test]
fn no_tags_from_a_tree_of_another_kind_or_a_shorter_text() {
    let queries = Queries::new().expect("patterns");
    let mut parsers = Parsers::default();
    let tree = parsers.parse(LangType::Backend, RUST_SOURCE, None).expect("a tree");
    assert!(query_tag(tree.root_node(), RUST_SOURCE, &queries, HtmxQuery::JavaScript).is_empty());
    assert!(query_tag(tree.root_node(), "// hx@a", &queries, HtmxQuery::Backend).is_empty());
}

#[test]
fn tags_are_replaced_on_every_edit() {
    let queries = Queries::new().expect("patterns");
    let mut files = LspFiles::default();
    let mut diags = vec![];
    let file = files.add_file("file:///a.rs".to_string()).unwrap();
    files.add_tree(file, Some(LangType::Backend), RUST_SOURCE);
    assert_eq!(
        files.add_tags_from_file(file, LangType::Backend, RUST_SOURCE, false, &queries, &mut diags),
        Ok(())
    );
    assert!(diags.is_empty());
    let first = files.get_tag(&"hx@something".to_string()).map(|t| fields(&t));
    assert_eq!(first, Some(("hx@something".to_string(), 7, 18, file, 2)));

    files.add_tree(file, None, RUST_SOURCE);
    assert_eq!(
        files.add_tags_from_file(file, LangType::Backend, RUST_SOURCE, false, &queries, &mut diags),
        Ok(())
    );
    assert!(diags.is_empty());
    assert_eq!(files.get_tag(&"hx@something".to_string()).map(|t| fields(&t)), first);

    let edited = "// hx@renamed\n";
    files.add_tree(file, None, edited);
    files.add_tags_from_file(file, LangType::Backend, edited, false, &queries, &mut diags).unwrap();
    assert!(diags.is_empty());
    assert!(files.get_tag(&"hx@something".to_string()).is_none());
    assert_eq!(
        files.get_tag(&"hx@renamed".to_string()).map(|t| fields(&t)),
        Some(("hx@renamed".to_string(), 3, 12, file, 0))
    );
}

#[test]
fn duplicate_tags_are_handed_back() {
    let queries = Queries::new().expect("patterns");
    let mut files = LspFiles::default();
    let mut diags = vec![];
    let a = files.add_file("file:///a.rs".to_string()).unwrap();
    let b = files.add_file("file:///b.rs".to_string()).unwrap();
    let text_a = "// hx@one\n// hx@one\n";
    let text_b = "fn f() {}\n  // hx@one\n// hx@two\n";
    files.add_tree(a, Some(LangType::Backend), text_a);
    files.add_tree(b, Some(LangType::Backend), text_b);
    files.add_tags_from_file(a, LangType::Backend, text_a, false, &queries, &mut diags).unwrap();
    assert_eq!(diags.len(), 1);
    assert_eq!(fields(&diags[0]), ("hx@one".to_string(), 3, 8, a, 1));
    files.add_tags_from_file(b, LangType::Backend, text_b, false, &queries, &mut diags).unwrap();
    assert_eq!(diags.len(), 2);
    assert_eq!(fields(&diags[1]), ("hx@one".to_string(), 5, 10, b, 1));
    assert_eq!(files.get_tag(&"hx@one".to_string()).map(|t| (t.file, t.line)), Some((a, 0)));
    assert_eq!(files.get_tag(&"hx@two".to_string()).map(|t| (t.file, t.line)), Some((b, 2)));

    let mut warnings = vec![];
    files.publish_tag_diagnostics(diags, &mut warnings);
    assert_eq!(warnings.len(), 2);
    assert_eq!(warnings[0].uri, "file:///a.rs");
    assert_eq!(warnings[0].warnings, vec![TagWarning { line: 1, start: 3, end: 8 }]);
    assert_eq!(warnings[1].uri, "file:///b.rs");
    assert_eq!(warnings[1].warnings, vec![TagWarning { line: 1, start: 5, end: 10 }]);
}

#[test]
fn templates_declare_no_tags() {
    let queries = Queries::new().expect("patterns");
    let mut files = LspFiles::default();
    let mut diags = vec![];
    files.add_tree(0, Some(LangType::Template), "<!-- hx@a -->");
    assert_eq!(
        files.add_tags_from_file(0, LangType::Template, "<!-- hx@a -->", false, &queries, &mut diags),
        Err(())
    );
    assert!(files.get_tag(&"hx@a".to_string()).is_none());
}

#[test]
fn files_without_a_tree_keep_their_tags() {
    let queries = Queries::new().expect("patterns");
    let mut files = LspFiles::default();
    let mut diags = vec![];
    files.add_tag(tag("hx@kept", 0, 6, 4, 0)).unwrap();
    assert_eq!(
        files.add_tags_from_file(4, LangType::Backend, "// hx@new", false, &queries, &mut diags),
        Ok(())
    );
    assert!(files.get_tag(&"hx@kept".to_string()).is_some());
    assert!(files.get_tag(&"hx@new".to_string()).is_none());
}

#[test]
fn warnings_are_filed_by_uri() {
    let mut groups: Vec<FileWarnings> = vec![];
    file_warning(&mut groups, "a".to_string(), TagWarning { line: 1, start: 2, end: 3 });
    file_warning(&mut groups, "b".to_string(), TagWarning { line: 4, start: 5, end: 6 });
    file_warning(&mut groups, "a".to_string(), TagWarning { line: 7, start: 8, end: 9 });
    assert_eq!(groups.len(), 2);
    assert_eq!(groups[0].uri, "a");
    assert_eq!(
        groups[0].warnings,
        vec![TagWarning { line: 1, start: 2, end: 3 }, TagWarning { line: 7, start: 8, end: 9 }]
    );
    assert_eq!(groups[1].uri, "b");
    assert_eq!(groups[1].warnings, vec![TagWarning { line: 4, start: 5, end: 6 }]);
}

#[test]
fn warnings_skip_tags_of_unknown_files() {
    let mut files = LspFiles::default();
    files.add_file("file:///a.rs".to_string());
    let mut groups = vec![];
    files.publish_tag_diagnostics(
        vec![tag("hx@a", 1, 4, 9, 2), tag("hx@b", 2, 5, 0, 3), tag("hx@c", 3, 6, 0, 4)],
        &mut groups,
    );
    assert_eq!(groups.len(), 1);
    assert_eq!(groups[0].uri, "file:///a.rs");
    assert_eq!(
        groups[0].warnings,
        vec![TagWarning { line: 3, start: 2, end: 5 }, TagWarning { line: 4, start: 3, end: 6 }]
    );
}

#[test]
fn definition_of_the_token_under_the_cursor() {
    let mut files = LspFiles::default();
    let file = files.add_file("file:///src/a.rs".to_string()).unwrap();
    files.add_tag(tag("hx@two", 7, 12, file, 30)).unwrap();
    files.add_tag(tag("hx@lost", 7, 12, 99, 30)).unwrap();
    let cursor = |column| Some(PositionDefinition::new(2, 10, Point::new(2, column)));

    let mut def = None;
    assert_eq!(files.goto_definition_response(cursor(18), "hx@one hx@two", &mut def), None);
    assert_eq!(
        def,
        Some(TagLocation { uri: "file:///src/a.rs".to_string(), line: 30, start: 7, end: 12 })
    );

    let mut def = None;
    files.goto_definition_response(cursor(11), "hx@one hx@two", &mut def);
    assert_eq!(def, None);
    files.goto_definition_response(cursor(16), "hx@one hx@two", &mut def);
    assert_eq!(def, None);
    files.goto_definition_response(None, "hx@one hx@two", &mut def);
    assert_eq!(def, None);
    files.goto_definition_response(cursor(11), "hx@lost", &mut def);
    assert_eq!(def, None);

    let mut def = Some(TagLocation { uri: "kept".to_string(), line: 1, start: 2, end: 3 });
    files.goto_definition_response(cursor(11), "hx@none", &mut def);
    assert_eq!(def.map(|d| d.uri), Some("kept".to_string()));
}

fn settings() -> Option<HtmxConfig> {
    Some(HtmxConfig {
        lang: "rust".to_string(),
        template_ext: "html".to_string(),
        templates: vec![],
        js_tags: vec![],
        backend_tags: vec![],
        is_valid: true,
    })
}

#[test]
fn saving_reads_the_tags_again() {
    let queries = Queries::new().expect("patterns");
    let documents: DashMap<String, Rope> = DashMap::new();
    let mut files = LspFiles::default();
    let uri = "file:///src/a.rs".to_string();
    let file = files.add_file(uri.clone()).unwrap();
    files.add_tree(file, Some(LangType::Backend), "// hx@saved\n");
    documents.insert(uri.clone(), Rope::from_str("// hx@saved\n"));
    let mut diags = vec![tag("hx@earlier", 0, 9, 3, 1)];
    let reported = files.saved(&uri, &mut diags, &settings(), &documents, &queries).expect("tags");
    assert_eq!(reported.len(), 1);
    assert_eq!(fields(&reported[0]), ("hx@earlier".to_string(), 0, 9, 3, 1));
    assert_eq!(files.get_tag(&"hx@saved".to_string()).map(|t| (t.file, t.line)), Some((file, 0)));
}

#[test]
fn saving_skips_what_it_cannot_read() {
    let queries = Queries::new().expect("patterns");
    let documents: DashMap<String, Rope> = DashMap::new();
    let mut files = LspFiles::default();
    let mut diags = vec![];
    let rs = "file:///src/a.rs".to_string();
    let html = "file:///t/a.html".to_string();
    let txt = "file:///t/a.txt".to_string();
    documents.insert(html.clone(), Rope::from_str("<div></div>"));
    documents.insert(txt.clone(), Rope::from_str("text"));
    assert!(files.saved(&rs, &mut diags, &settings(), &documents, &queries).is_none());
    files.add_file(rs.clone());
    files.add_file(html.clone());
    files.add_file(txt.clone());
    assert!(files.saved(&rs, &mut diags, &settings(), &documents, &queries).is_none());
    assert!(files.saved(&html, &mut diags, &settings(), &documents, &queries).is_none());
    assert!(files.saved(&txt, &mut diags, &settings(), &documents, &queries).is_none());
    documents.insert(rs.clone(), Rope::from_str("// hx@a\n"));
    assert!(files.saved(&rs, &mut diags, &None, &documents, &queries).is_none());
    assert!(files.saved(&rs, &mut diags, &settings(), &documents, &queries).is_some());
}

#[test]
fn position_in_a_held_document() {
    let documents: DashMap<String, Rope> = DashMap::new();
    let uri = "file:///t/a.html".to_string();
    documents.insert(uri.clone(), Rope::from_str("<p>text</p>\n<div hx-swap=\"\"></div>"));
    let at = |line, character, mode| {
        get_position_from_lsp_completion(TextPosition { line, character }, &documents, uri.clone(), mode)
    };
    assert_eq!(
        at(1, 13, QueryType::Completion),
        Some(Position::AttributeValue { name: "hx-swap".to_string(), value: "".to_string() })
    );
    assert_eq!(at(1, 6, QueryType::Hover), Some(Position::AttributeName("hx-swap".to_string())));
    assert_eq!(at(0, 4, QueryType::Hover), None);
    assert_eq!(
        get_position_from_lsp_completion(
            TextPosition { line: 1, character: 13 },
            &documents,
            "file:///other".to_string(),
            QueryType::Completion
        ),
        None
    );
}
