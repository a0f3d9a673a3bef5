use htmx_lsp::position::{query_position, Point, Position, QueryType};
use tree_sitter::Parser;

fn prepare_tree(text: &str) -> tree_sitter::Tree {
    let language = tree_sitter_html::language();
    let mut parser = Parser::new();

    parser
        .set_language(language)
        .expect("could not load html grammer");

    parser.parse(text, None).expect("not to fail")
}

#[test]
fn suggests_attr_names_when_starting_tag() {
    let text = r##"<div hx- ></div>"##;

    let tree = prepare_tree(text);

    let matches = query_position(
        tree.root_node(),
        text,
        Point::new(0, 8),
        QueryType::Completion,
    );
    assert_eq!(matches, Some(Position::AttributeName("hx-".to_string())));
}

#[test]
fn does_not_suggest_when_quote_not_initiated() {
    let text = r##"<div hx-swap= ></div>"##;

    let tree = prepare_tree(text);

    let matches = query_position(
        tree.root_node(),
        text,
        Point::new(0, 13),
        QueryType::Completion,
    );

    assert_eq!(matches, None);
}

#[test]
fn suggests_attr_values_when_starting_quote_value() {
    let text = r#"<div hx-swap=" ></div>"#;

    let tree = prepare_tree(text);

    let matches = query_position(
        tree.root_node(),
        text,
        Point::new(0, 14),
        QueryType::Completion,
    );

    assert_eq!(
        matches,
        Some(Position::AttributeValue {
            name: "hx-swap".to_string(),
            value: "".to_string()
        })
    );
}

#[test]
fn suggests_attr_values_when_open_and_closed_quotes() {
    let text = r#"<div hx-swap=""></div>"#;

    let tree = prepare_tree(text);

    let matches = query_position(
        tree.root_node(),
        text,
        Point::new(0, 13),
        QueryType::Completion,
    );

    assert_eq!(
        matches,
        Some(Position::AttributeValue {
            name: "hx-swap".to_string(),
            value: "".to_string()
        })
    );
}

#[test]
fn suggests_attr_values_once_opening_quotes_in_between_tags() {
    let text = r#"<div id="fa" hx-swap="hx-swap" hx-swap="hx-swap">
      <span hx-target="
      <button>Click me</button>
    </div>
    "#;

    let tree = prepare_tree(text);

    let matches = query_position(
        tree.root_node(),
        text,
        Point::new(1, 23),
        QueryType::Completion,
    );

    assert_eq!(
        matches,
        Some(Position::AttributeValue {
            name: "hx-target".to_string(),
            value: "".to_string()
        })
    );
}

#[test]
fn suggests_attr_names_for_incomplete_attr_in_between_tags() {
    let text = r#"<div id="fa" hx-target="this" hx-swap="hx-swap">
      <span hx-
      <button>Click me</button>
    </div>
    "#;

    let tree = prepare_tree(text);

    let matches = query_position(
        tree.root_node(),
        text,
        Point::new(1, 14),
        QueryType::Completion,
    );

    assert_eq!(matches, Some(Position::AttributeName("hx-".to_string())));
}

#[test]
fn matches_more_than_one_attribute() {
    let text = r#"<div hx-get="/foo" hx-target="this" hx- ></div>"#;

    let tree = prepare_tree(text);

    let matches = query_position(
        tree.root_node(),
        text,
        Point::new(0, 39),
        QueryType::Completion,
    );

    assert_eq!(matches, Some(Position::AttributeName("hx-".to_string())));
}

#[test]
fn suggests_attr_value_when_attr_is_empty_and_in_between_attributes() {
    let text = r##"<div hx-get="/foo" hx-target="" hx-swap="#swap"></div>
    "##;

    let tree = prepare_tree(text);

    let matches = query_position(
        tree.root_node(),
        text,
        Point::new(0, 30),
        QueryType::Completion,
    );

    assert_eq!(
        matches,
        Some(Position::AttributeValue {
            name: "hx-target".to_string(),
            value: "".to_string()
        })
    );
}

#[test]
fn suggests_attr_values_for_incoplete_quoted_attr_when_in_between_attributes() {
    let text = r##"<div hx-get="/foo" hx-target=" hx-swap="#swap"></div>"##;

    let tree = prepare_tree(text);

    let matches = query_position(
        tree.root_node(),
        text,
        Point::new(0, 30),
        QueryType::Completion,
    );

    assert_eq!(
        matches,
        Some(Position::AttributeValue {
            name: "hx-target".to_string(),
            value: "".to_string()
        })
    );
}

#[test]
fn suggests_attr_names_for_incoplete_quoted_value_in_between_attributes() {
    let text = r##"<div hx-get="/foo" hx- hx-swap="#swap"></div>
        <span class="foo" />"##;

    let tree = prepare_tree(text);

    let matches = query_position(
        tree.root_node(),
        text,
        Point::new(0, 22),
        QueryType::Completion,
    );

    assert_eq!(matches, Some(Position::AttributeName("hx-".to_string())));
}

#[test]
fn suggests_attribute_keys_when_half_completeded() {
    let text = r##"<div hx-get="/foo" hx-t hx-swap="#swap"></div>
        <span class="foo" />"##;

    let tree = prepare_tree(text);

    let matches = query_position(
        tree.root_node(),
        text,
        Point::new(0, 23),
        QueryType::Completion,
    );

    assert_eq!(matches, Some(Position::AttributeName("hx-t".to_string())));
}

#[test]
fn suggests_values_for_already_filled_attributes() {
    let text = r##"<div hx-get="/foo" hx-target="find " hx-swap="#swap"></div>"##;

    let tree = prepare_tree(text);

    let matches = query_position(tree.root_node(), text, Point::new(0, 35), QueryType::Hover);

    assert_eq!(
        matches,
        Some(Position::AttributeValue {
            name: "hx-target".to_string(),
            value: "find ".to_string()
        })
    );
}

#[test]
fn does_not_suggest_when_cursor_isnt_within_a_htmx_attribute() {
    let text = r#"<div hx-get="/foo"  class="p-4" ></div>"#;

    let tree = prepare_tree(text);

    let matches = query_position(tree.root_node(), text, Point::new(0, 24), QueryType::Hover);

    assert_eq!(matches, None);
}

#[test]
fn hover_hx_tags() {
    let cases = [
        (
            r#"<div hx-get="/foo" class="p-4" hx-target="closest" ></div>"#,
            Point::new(0, 37),
            Some(Position::AttributeName(String::from("hx-target"))),
        ),
        (
            r#"<div hx-get="" class="p-4" hx-target="" ></div>"#,
            Point::new(0, 9),
            Some(Position::AttributeName(String::from("hx-get"))),
        ),
        (
            r#"<div hx-get="/foo" hx-target="closest" hx-swap="outerHTML" hx-swap="swap"></div>"#,
            Point::new(0, 9),
            Some(Position::AttributeName(String::from("hx-get"))),
        ),
        (
            r#"<a hx-swap="" hx-patch="/route" hx-validate"#,
            Point::new(0, 40),
            Some(Position::AttributeName(String::from("hx-validate"))),
        ),
    ];

    for case in cases {
        let text = case.0;
        let tree = prepare_tree(text);
        let matches = query_position(tree.root_node(), text, case.1, QueryType::Hover);
        assert_eq!(matches, case.2);
    }
}

#[test]
fn ok222() {
    let cases = [(
        r#"<a hx-swap class="text-2xl">
       
</a>
                
            "#,
        Point::new(1, 5),
        QueryType::Completion,
    )];
    for case in cases {
        let text = case.0;
        let tree = prepare_tree(text);
        let matches = query_position(tree.root_node(), text, case.1, case.2);
        assert_eq!(matches, Some(Position::AttributeName(String::from("--"))));
    }
}

#[test]
fn completion_between_the_name_and_a_later_equal_sign() {
    let text = "<div hx-swap = ></div>";
    let tree = prepare_tree(text);
    let at = |column| query_position(tree.root_node(), text, Point::new(0, column), QueryType::Completion);
    assert_eq!(at(10), Some(Position::AttributeName("hx-swap".to_string())));
    assert_eq!(at(11), Some(Position::AttributeName("hx-swap".to_string())));
    assert_eq!(at(12), None);
    assert_eq!(at(13), None);
    assert_eq!(at(14), None);
    assert_eq!(at(15), None);
    assert_eq!(at(16), None);
    assert_eq!(at(17), Some(Position::AttributeName("--".to_string())));
}

#[test]
fn other_attributes_are_not_seen() {
    let text = r#"<div hx-get="/foo" class="p-4" ></div>"#;
    let tree = prepare_tree(text);
    assert_eq!(query_position(tree.root_node(), text, Point::new(0, 24), QueryType::Hover), None);
    assert_eq!(
        query_position(tree.root_node(), text, Point::new(0, 24), QueryType::Completion),
        None
    );
}


#[test]
fn hovering_inside_a_value_before_a_later_equal_sign() {
    let text = r#"<div hx-get="/foo" hx-swap= ></div>"#;
    let tree = prepare_tree(text);
    for column in 13..18 {
        assert_eq!(
            query_position(tree.root_node(), text, Point::new(0, column), QueryType::Hover),
            Some(Position::AttributeValue { name: "hx-get".to_string(), value: "/foo".to_string() })
        );
        assert_eq!(
            query_position(tree.root_node(), text, Point::new(0, column), QueryType::Completion),
            Some(Position::AttributeValue { name: "hx-get".to_string(), value: "".to_string() })
        );
    }
    assert_eq!(query_position(tree.root_node(), text, Point::new(0, 27), QueryType::Completion), None);
}

#[test]
fn completion_on_an_earlier_name_before_a_later_equal_sign() {
    let text = "<div hx-boost hx-swap= ></div>";
    let tree = prepare_tree(text);
    let at = |column| query_position(tree.root_node(), text, Point::new(0, column), QueryType::Completion);
    assert_eq!(at(9), Some(Position::AttributeName("hx-boost".to_string())));
    assert_eq!(at(13), Some(Position::AttributeName("hx-boost".to_string())));
    assert_eq!(at(21), None);
    assert_eq!(at(22), None);
}
