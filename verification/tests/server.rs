use htmx_lsp::position::Position;
use htmx_lsp::server::{
    can_complete, completion_items, find_entry, find_values, has_prefix, hover_description,
    is_helix, strip_prefix, AttributeValues, CompletionTrigger, HxCompletion,
};

fn entry(name: &str, desc: &str) -> HxCompletion {
    HxCompletion { name: name.to_string(), desc: desc.to_string() }
}

fn attributes() -> Vec<HxCompletion> {
    vec![entry("boost", "Boost links"), entry("get", "Issue a GET"), entry("swap", "How to swap")]
}

fn values() -> Vec<AttributeValues> {
    vec![
        AttributeValues {
            attribute: "hx-swap".to_string(),
            values: vec![entry("innerHTML", "Inside"), entry("outerHTML", "Whole")],
        },
        AttributeValues { attribute: "hx-target".to_string(), values: vec![entry("this", "Itself")] },
        AttributeValues { attribute: "hx-swap".to_string(), values: vec![entry("late", "Never")] },
    ]
}

#[test]
fn which_requests_are_answered() {
    assert!(can_complete(Some(CompletionTrigger::Invoked), false));
    assert!(can_complete(Some(CompletionTrigger::TriggerCharacter), false));
    assert!(!can_complete(Some(CompletionTrigger::Incomplete), false));
    assert!(!can_complete(None, false));
    assert!(can_complete(None, true));
    assert!(can_complete(Some(CompletionTrigger::Incomplete), true));
    assert!(is_helix("helix"));
    assert!(!is_helix("Helix"));
    assert!(!is_helix("vim"));
}

#[test]
fn prefix_of_a_name() {
    assert!(has_prefix("hx-"));
    assert!(has_prefix("hx-get"));
    assert!(!has_prefix("hx"));
    assert!(!has_prefix("--"));
    assert!(!has_prefix("class"));
    assert!(!has_prefix(" hx-get"));
    assert!(!has_prefix(""));
}

#[test]
fn name_without_its_prefix() {
    assert_eq!(strip_prefix("hx-get"), "get");
    assert_eq!(strip_prefix("hx-"), "");
    assert_eq!(strip_prefix("get"), "get");
    assert_eq!(strip_prefix("hx-on-hx-load"), "on-load");
    assert_eq!(strip_prefix("hx-hx-"), "");
    assert_eq!(strip_prefix("hhx-x-"), "hx-");
    assert_eq!(strip_prefix("h\u{e9}hx-x"), "h\u{e9}x");
    assert_eq!(strip_prefix(""), "");
}

#[test]
fn first_entry_with_a_name() {
    let all = vec![entry("a", "first"), entry("b", "second"), entry("a", "third")];
    assert_eq!(find_entry(&all, "a").map(|e| e.desc.clone()), Some("first".to_string()));
    assert_eq!(find_entry(&all, "b").map(|e| e.desc.clone()), Some("second".to_string()));
    assert!(find_entry(&all, "c").is_none());
    assert_eq!(find_values(&values(), "hx-swap").map(|v| v.len()), Some(2));
    assert_eq!(find_values(&values(), "hx-target").map(|v| v.len()), Some(1));
    assert!(find_values(&values(), "hx-get").is_none());
}

#[test]
fn completions_on_a_name() {
    let on = |name: &str| {
        completion_items(&Some(Position::AttributeName(name.to_string())), &attributes(), &values())
    };
    assert_eq!(on("hx-"), Some(attributes()));
    assert_eq!(on("hx-sw"), Some(attributes()));
    assert_eq!(on("--"), Some(attributes()));
    assert_eq!(on("-"), None);
    assert_eq!(on("---"), None);
    assert_eq!(on("class"), None);
    assert_eq!(completion_items(&None, &attributes(), &values()), None);
}

#[test]
fn completions_in_a_value() {
    let inside = |name: &str| {
        completion_items(
            &Some(Position::AttributeValue { name: name.to_string(), value: "".to_string() }),
            &attributes(),
            &values(),
        )
    };
    assert_eq!(
        inside("hx-swap"),
        Some(vec![entry("innerHTML", "Inside"), entry("outerHTML", "Whole")])
    );
    assert_eq!(inside("hx-target"), Some(vec![entry("this", "Itself")]));
    assert_eq!(inside("hx-get"), None);
}

#[test]
fn description_of_a_name() {
    let on = |name: &str| {
        hover_description(&Some(Position::AttributeName(name.to_string())), &attributes(), &values())
    };
    assert_eq!(on("hx-get"), Some("Issue a GET".to_string()));
    assert_eq!(on("get"), Some("Issue a GET".to_string()));
    assert_eq!(on("hx-boost"), Some("Boost links".to_string()));
    assert_eq!(on("hx-"), None);
    assert_eq!(on("hx-unknown"), None);
    assert_eq!(hover_description(&None, &attributes(), &values()), None);
}

#[test]
fn description_of_a_value() {
    let inside = |name: &str, value: &str| {
        hover_description(
            &Some(Position::AttributeValue { name: name.to_string(), value: value.to_string() }),
            &attributes(),
            &values(),
        )
    };
    assert_eq!(inside("hx-swap", "outerHTML"), Some("Whole".to_string()));
    assert_eq!(inside("hx-swap", "late"), None);
    assert_eq!(inside("hx-swap", ""), None);
    assert_eq!(inside("hx-target", "this"), Some("Itself".to_string()));
    assert_eq!(inside("hx-get", "this"), None);
}
