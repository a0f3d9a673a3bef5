use htmx_lsp::htmx_tags::{get_tag, get_tags, in_tag, in_tags, Tag};
use htmx_lsp::position::{Point, PositionDefinition};

fn fields(tag: &Tag) -> (String, usize, usize, usize, usize) {
    (tag.name.clone(), tag.start, tag.end, tag.file, tag.line)
}

#[test]
fn tag_in_a_comment_line() {
    let tag = get_tag("    // hx@something").expect("a tag");
    assert_eq!(fields(&tag), ("hx@something".to_string(), 7, 18, 0, 0));
}

#[test]
fn tag_after_text_with_a_space() {
    let tag = get_tag("a hx@b").expect("a tag");
    assert_eq!(fields(&tag), ("hx@b".to_string(), 2, 5, 0, 0));
}

#[test]
fn bare_marker_is_a_tag_with_an_empty_identifier() {
    let tag = get_tag("hx@").expect("a tag");
    assert_eq!(fields(&tag), ("hx@".to_string(), 0, 2, 0, 0));
}

#[test]
fn tag_at_the_start_of_a_line() {
    let tag = get_tag("hx@foo").expect("a tag");
    assert_eq!(fields(&tag), ("hx@foo".to_string(), 0, 5, 0, 0));
}

#[test]
fn a_marker_with_a_space_in_its_piece_is_passed_over() {
    let tag = get_tag("hx@a b hx@c").expect("a tag");
    assert_eq!(fields(&tag), ("hx@c".to_string(), 7, 10, 0, 0));
    assert!(get_tag("hx@ foo").is_none());
}

#[test]
fn no_tag_without_a_marker() {
    assert!(get_tag("").is_none());
    assert!(get_tag("x").is_none());
    assert!(get_tag("let msg = 1;").is_none());
}

#[test]
fn text_before_the_first_marker_is_no_part_of_the_tag() {
    let tag = get_tag("//hx@bar").expect("a tag");
    assert_eq!(fields(&tag), ("hx@bar".to_string(), 2, 7, 0, 0));
    let tag = get_tag("ahx@b").expect("a tag");
    assert_eq!(fields(&tag), ("hx@b".to_string(), 1, 4, 0, 0));
}

#[test]
fn the_identifier_ends_at_the_next_marker() {
    let tag = get_tag("ahx@ahx@b c").expect("a tag");
    assert_eq!(fields(&tag), ("hx@a".to_string(), 1, 4, 0, 0));
}

#[test]
fn no_tag_when_every_piece_holds_a_space() {
    assert!(get_tag("a hx@b c").is_none());
}

#[test]
fn tag_stands_at_its_own_marker() {
    let tag = get_tag("x hx@ab c hx@a").expect("a tag");
    assert_eq!(fields(&tag), ("hx@a".to_string(), 10, 13, 0, 0));
}

#[test]
fn tag_columns_count_bytes() {
    let tag = get_tag("\u{e9} hx@tag").expect("a tag");
    assert_eq!(fields(&tag), ("hx@tag".to_string(), 3, 8, 0, 0));
    let tag = get_tag("a hx@t\u{e9}").expect("a tag");
    assert_eq!(fields(&tag), ("hx@t\u{e9}".to_string(), 2, 7, 0, 0));
}

#[test]
fn tag_columns_count_the_bytes_of_wide_characters() {
    let tag = get_tag("\u{20ac}\u{1f600} hx@t\u{20ac}\u{1f600}!").expect("a tag");
    assert_eq!(fields(&tag), ("hx@t\u{20ac}\u{1f600}!".to_string(), 8, 19, 0, 0));
    let tags = get_tags("\u{1f600} \u{20ac}", 0, 0).expect("tags");
    assert_eq!(fields(&tags[0]), ("\u{1f600}".to_string(), 0, 3, 0, 0));
    assert_eq!(fields(&tags[1]), ("\u{20ac}".to_string(), 5, 7, 0, 0));
}

#[test]
fn in_tag_takes_both_ends() {
    let line = "  // hx@tag";
    assert!(in_tag(line, Point::new(0, 4)).is_none());
    assert_eq!(in_tag(line, Point::new(0, 5)).map(|t| t.name), Some("hx@tag".to_string()));
    assert_eq!(in_tag(line, Point::new(0, 10)).map(|t| t.name), Some("hx@tag".to_string()));
    assert!(in_tag(line, Point::new(0, 11)).is_none());
    assert!(in_tag("no tag", Point::new(0, 0)).is_none());
}

#[test]
fn tokens_of_a_value() {
    let tags = get_tags("hx@a hx@bc", 10, 3).expect("tags");
    assert_eq!(tags.len(), 2);
    assert_eq!(fields(&tags[0]), ("hx@a".to_string(), 10, 13, 0, 3));
    assert_eq!(fields(&tags[1]), ("hx@bc".to_string(), 15, 19, 0, 3));
}

#[test]
fn one_token() {
    let tags = get_tags("tag", 0, 0).expect("tags");
    assert_eq!(tags.len(), 1);
    assert_eq!(fields(&tags[0]), ("tag".to_string(), 0, 2, 0, 0));
}

#[test]
fn token_columns_count_bytes() {
    let tags = get_tags("\u{e9}a b", 1, 0).expect("tags");
    assert_eq!(tags.len(), 2);
    assert_eq!(fields(&tags[0]), ("\u{e9}a".to_string(), 1, 3, 0, 0));
    assert_eq!(fields(&tags[1]), ("b".to_string(), 5, 5, 0, 0));
}

#[test]
fn no_tokens_with_a_leading_or_double_space() {
    assert!(get_tags(" a", 0, 0).is_none());
    assert!(get_tags("a  b", 0, 0).is_none());
    assert!(get_tags("  ", 3, 0).is_none());
}

#[test]
fn trailing_space_gives_an_empty_token() {
    let tags = get_tags("a ", 0, 0).expect("tags");
    assert_eq!(tags.len(), 2);
    assert_eq!(fields(&tags[0]), ("a".to_string(), 0, 0, 0, 0));
    assert_eq!(fields(&tags[1]), ("".to_string(), 2, 1, 0, 0));
}

#[test]
fn empty_value() {
    assert!(get_tags("", 0, 0).is_none());
    let tags = get_tags("", 5, 1).expect("tags");
    assert_eq!(tags.len(), 1);
    assert_eq!(fields(&tags[0]), ("".to_string(), 5, 4, 0, 1));
}

#[test]
fn no_tokens_when_columns_do_not_fit() {
    assert!(get_tags("ab", usize::MAX - 1, 0).is_none());
    assert!(get_tags("ab", usize::MAX - 2, 0).is_none());
    let tags = get_tags("ab", usize::MAX - 3, 0).expect("tags");
    assert_eq!(fields(&tags[0]), ("ab".to_string(), usize::MAX - 3, usize::MAX - 2, 0, 0));
}

#[test]
fn token_under_the_cursor() {
    let definition = |column| PositionDefinition::new(2, 4, Point::new(2, column));
    assert!(in_tags("one two", definition(3)).is_none());
    assert_eq!(in_tags("one two", definition(4)).map(|t| fields(&t)), Some(("one".to_string(), 4, 6, 0, 2)));
    assert_eq!(in_tags("one two", definition(6)).map(|t| t.name), Some("one".to_string()));
    assert!(in_tags("one two", definition(7)).is_none());
    assert_eq!(in_tags("one two", definition(9)).map(|t| fields(&t)), Some(("two".to_string(), 8, 10, 0, 2)));
    assert!(in_tags("one two", definition(11)).is_none());
    assert!(in_tags(" one", definition(5)).is_none());
}

#[test]
fn setters_change_one_field() {
    let mut tag = get_tag("a hx@b").expect("a tag");
    tag.set_file(7);
    tag.set_line(9);
    assert_eq!(fields(&tag), ("hx@b".to_string(), 2, 5, 7, 9));
    let copy = tag.clone();
    assert_eq!(fields(&copy), fields(&tag));
}
