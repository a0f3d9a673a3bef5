//! Where the cursor stands relative to the htmx attributes of an element.
//!
//! A pattern query over a syntax tree yields matches, each with its labelled
//! captures. A match counts for the cursor where its attribute starts at or
//! before the cursor. Of a match that counts, the captures at or before the
//! cursor are kept, and those behind it that belong to what the cursor has
//! passed. The kept captures are folded into a table, label by label, and
//! the table decides whether the cursor is on an attribute name or inside an
//! attribute value.

use vstd::prelude::*;
use dashmap::DashMap;
use ropey::Rope;
use tree_sitter::Node;
use crate::htmx_tree_sitter::HTMLQuery;
use crate::init_hx::LangType;
use crate::store::{document_text, texts_of};
use crate::syntax::{
    compile_query, compiled, depth_of, descendant_at, end_byte_of, grammar_of, kind_of,
    matches_in, matches_of, new_parser, node_end_byte, node_kind, node_parent, node_parsed_as,
    parent_of, parse_text, parsed, root_of, smallest_node_at, tree_root,
};
use crate::text::{bytes_of, same_text};

verus! {

/// A place in a text, by zero-based row and byte column.
#[derive(Clone, Copy, Debug, PartialEq, Eq)]
pub struct Point {
    pub row: usize,
    pub column: usize,
}

impl Point {
    pub fn new(row: usize, column: usize) -> (point: Point)
        ensures
            point.row == row,
            point.column == column,
    {
        Point { row, column }
    }

    /// Rows first, then columns.
    pub open spec fn before(self, other: Point) -> bool {
        self.row < other.row || (self.row == other.row && self.column < other.column)
    }

    pub open spec fn at_or_before(self, other: Point) -> bool {
        self.before(other) || self == other
    }

    pub fn is_before(&self, other: &Point) -> (r: bool)
        ensures
            r == self.before(*other),
    {
        self.row < other.row || (self.row == other.row && self.column < other.column)
    }

    pub fn is_at_or_before(&self, other: &Point) -> (r: bool)
        ensures
            r == self.at_or_before(*other),
    {
        self.row < other.row || (self.row == other.row && self.column <= other.column)
    }
}

/// The cursor in an attribute value: the line and the byte column at which
/// the value starts, and the cursor itself.
#[derive(Clone, Copy, Debug, PartialEq, Eq)]
pub struct PositionDefinition {
    pub line: usize,
    pub start: usize,
    pub point: Point,
}

impl PositionDefinition {
    pub fn new(line: usize, start: usize, point: Point) -> (definition: PositionDefinition)
        ensures
            definition == (PositionDefinition { line, start, point }),
    {
        PositionDefinition { line, start, point }
    }
}

/// The cursor as the editor counts it: by line and by character in the
/// line.
#[derive(Clone, Copy, Debug, PartialEq, Eq)]
pub struct TextPosition {
    pub line: u32,
    pub character: u32,
}

/// What the editor asked for at the cursor.
#[derive(Clone, Copy, Debug, PartialEq, Eq)]
pub enum QueryType {
    Hover,
    Completion,
}

/// One capture of a pattern match: its label, the text of the captured node
/// and the node's span.
#[derive(Debug)]
pub struct Capture {
    pub name: String,
    pub text: String,
    pub start: Point,
    pub end: Point,
}

pub struct CaptureView {
    pub name: Seq<char>,
    pub text: Seq<char>,
    pub start: Point,
    pub end: Point,
}

impl View for Capture {
    type V = CaptureView;

    open spec fn view(&self) -> CaptureView {
        CaptureView { name: self.name@, text: self.text@, start: self.start, end: self.end }
    }
}

impl DeepView for Capture {
    type V = CaptureView;

    open spec fn deep_view(&self) -> CaptureView {
        self@
    }
}

/// The text of a captured node and where the node ends.
#[derive(Debug)]
pub struct CaptureDetails {
    pub value: String,
    pub end_position: Point,
}

pub struct CaptureDetailsView {
    pub value: Seq<char>,
    pub end_position: Point,
}

impl View for CaptureDetails {
    type V = CaptureDetailsView;

    open spec fn view(&self) -> CaptureDetailsView {
        CaptureDetailsView { value: self.value@, end_position: self.end_position }
    }
}

impl Clone for CaptureDetails {
    fn clone(&self) -> (copy: Self)
        ensures
            copy@ == self@,
    {
        CaptureDetails { value: self.value.clone(), end_position: self.end_position }
    }
}

impl CaptureDetails {
    pub fn new(value: String, end_position: Point) -> (details: CaptureDetails)
        ensures
            details@ == (CaptureDetailsView { value: value@, end_position }),
    {
        CaptureDetails { value, end_position }
    }
}

/// The resolved cursor position.
#[derive(Debug, PartialEq)]
pub enum Position {
    AttributeName(String),
    AttributeValue { name: String, value: String },
}

pub enum PositionView {
    AttributeName(Seq<char>),
    AttributeValue { name: Seq<char>, value: Seq<char> },
}

impl View for Position {
    type V = PositionView;

    open spec fn view(&self) -> PositionView {
        match self {
            Position::AttributeName(name) => PositionView::AttributeName(name@),
            Position::AttributeValue { name, value } => PositionView::AttributeValue {
                name: name@,
                value: value@,
            },
        }
    }
}

impl Clone for Position {
    fn clone(&self) -> (copy: Self)
        ensures
            copy@ == self@,
    {
        match self {
            Position::AttributeName(name) => Position::AttributeName(name.clone()),
            Position::AttributeValue { name, value } => Position::AttributeValue {
                name: name.clone(),
                value: value.clone(),
            },
        }
    }
}

impl DeepView for Position {
    type V = PositionView;

    open spec fn deep_view(&self) -> PositionView {
        self@
    }
}

/// The table that a sequence of labelled entries stands for: a later entry
/// replaces an earlier one with the same label.
spec fn table_of(entries: Seq<(String, CaptureDetails)>) -> Map<
    Seq<char>,
    CaptureDetailsView,
>
    decreases entries.len(),
{
    if entries.len() == 0 {
        Map::empty()
    } else {
        table_of(entries.drop_last()).insert(entries.last().0@, entries.last().1@)
    }
}

/// Capture details by label.
pub struct Props {
    entries: Vec<(String, CaptureDetails)>,
}

impl View for Props {
    type V = Map<Seq<char>, CaptureDetailsView>;

    closed spec fn view(&self) -> Map<Seq<char>, CaptureDetailsView> {
        table_of(self.entries@)
    }
}

impl Props {
    pub fn new() -> (props: Props)
        ensures
            props@ == Map::<Seq<char>, CaptureDetailsView>::empty(),
    {
        Props { entries: Vec::new() }
    }

    /// Sets the details for `label`, replacing what was there.
    pub fn insert(&mut self, label: String, details: CaptureDetails)
        ensures
            final(self)@ == old(self)@.insert(label@, details@),
    {
        let ghost before = self.entries@;
        self.entries.push((label, details));
        proof {
            assert(self.entries@.drop_last() =~= before);
        }
    }

    /// The details for `label`, if any.
    pub fn get(&self, label: &str) -> (found: Option<&CaptureDetails>)
        ensures
            match found {
                Some(details) => self@.contains_key(label@) && self@[label@] == details@,
                None => !self@.contains_key(label@),
            },
    {
        let mut i: usize = self.entries.len();
        proof {
            assert(self.entries@.take(i as int) =~= self.entries@);
        }
        while i > 0
            invariant
                i <= self.entries.len(),
                table_of(self.entries@).contains_key(label@) <==> table_of(
                    self.entries@.take(i as int),
                ).contains_key(label@),
                table_of(self.entries@).contains_key(label@) ==> table_of(self.entries@)[label@]
                    == table_of(self.entries@.take(i as int))[label@],
            decreases i,
        {
            proof {
                let prefix = self.entries@.take(i as int);
                assert(prefix.drop_last() =~= self.entries@.take(i - 1));
            }
            i -= 1;
            if same_text(self.entries[i].0.as_str(), label) {
                return Some(&self.entries[i].1);
            }
        }
        None
    }

    pub fn contains_key(&self, label: &str) -> (found: bool)
        ensures
            found == self@.contains_key(label@),
    {
        self.get(label).is_some()
    }
}

/// The position that the captures of the attribute-name pattern give.
///
/// Without an `attr_name` capture there is none. With an `unfinished_tag`
/// capture the attribute is still being typed: hovering shows the name only
/// over a complete match and up to the name's end; completion past the end
/// of the unfinished tag proposes a fresh name (`--`), and gives nothing
/// where an `equal_error` capture says that a value may be starting.
pub open spec fn resolve_name(
    table: Map<Seq<char>, CaptureDetailsView>,
    point: Point,
    mode: QueryType,
) -> Option<PositionView> {
    if !table.contains_key("attr_name"@) {
        None
    } else if !table.contains_key("unfinished_tag"@) {
        Some(PositionView::AttributeName(table["attr_name"@].value))
    } else {
        match mode {
            QueryType::Hover => if table.contains_key("complete_match"@) && point.at_or_before(
                table["attr_name"@].end_position,
            ) {
                Some(PositionView::AttributeName(table["attr_name"@].value))
            } else {
                None
            },
            QueryType::Completion => if table["unfinished_tag"@].end_position.before(point) {
                Some(PositionView::AttributeName("--"@))
            } else if table.contains_key("equal_error"@) {
                None
            } else {
                Some(PositionView::AttributeName(table["attr_name"@].value))
            },
        }
    }
}

/// The captured attribute value's text, empty where none was captured.
pub open spec fn captured_value(table: Map<Seq<char>, CaptureDetailsView>) -> Seq<char> {
    if table.contains_key("attr_value"@) {
        table["attr_value"@].value
    } else {
        Seq::empty()
    }
}

/// The position that the captures of the attribute-value pattern give.
///
/// Without an `attr_name` capture there is none. Hovering before the name's
/// end is still on the name. An open quote or an empty quoted value gives an
/// empty value, unless completion finds the cursor at or past the end of the
/// quoted value. An error character `=` gives nothing. A non-empty attribute
/// gives nothing at or past its end; before it, hovering reports the
/// captured text and completion an empty value.
pub open spec fn resolve_value(
    table: Map<Seq<char>, CaptureDetailsView>,
    point: Point,
    mode: QueryType,
) -> Option<PositionView> {
    if !table.contains_key("attr_name"@) {
        None
    } else {
        let name = table["attr_name"@].value;
        if mode == QueryType::Hover && point.before(table["attr_name"@].end_position) {
            Some(PositionView::AttributeName(name))
        } else if table.contains_key("open_quote_error"@) || table.contains_key(
            "empty_attribute"@,
        ) {
            if mode == QueryType::Completion && table.contains_key("quoted_attr_value"@)
                && table["quoted_attr_value"@].end_position.at_or_before(point) {
                None
            } else {
                Some(PositionView::AttributeValue { name, value: Seq::empty() })
            }
        } else if table.contains_key("error_char"@) && table["error_char"@].value == "="@ {
            None
        } else if table.contains_key("non_empty_attribute"@) {
            if table["non_empty_attribute"@].end_position.at_or_before(point) {
                None
            } else if mode == QueryType::Hover {
                Some(PositionView::AttributeValue { name, value: captured_value(table) })
            } else {
                Some(PositionView::AttributeValue { name, value: Seq::empty() })
            }
        } else {
            Some(PositionView::AttributeValue { name, value: Seq::empty() })
        }
    }
}

/// Decides the position from the captures of the attribute-name pattern.
pub fn name_position(props: &Props, trigger_point: Point, query_type: QueryType) -> (found: Option<
    Position,
>)
    ensures
        found.deep_view() == resolve_name(props@, trigger_point, query_type),
{
    let attr_name = match props.get("attr_name") {
        Some(details) => details,
        None => { return None; },
    };
    if let Some(unfinished_tag) = props.get("unfinished_tag") {
        match query_type {
            QueryType::Hover => {
                if props.contains_key("complete_match") && trigger_point.is_at_or_before(
                    &attr_name.end_position,
                ) {
                    return Some(Position::AttributeName(attr_name.value.clone()));
                }
                return None;
            },
            QueryType::Completion => {
                if unfinished_tag.end_position.is_before(&trigger_point) {
                    return Some(Position::AttributeName("--".to_owned()));
                } else if props.contains_key("equal_error") {
                    return None;
                }
            },
        }
    }
    Some(Position::AttributeName(attr_name.value.clone()))
}

/// Decides the position from the captures of the attribute-value pattern.
pub fn value_position(props: &Props, trigger_point: Point, query_type: QueryType) -> (found: Option<
    Position,
>)
    ensures
        found.deep_view() == resolve_value(props@, trigger_point, query_type),
{
    let attr_name = match props.get("attr_name") {
        Some(details) => details,
        None => { return None; },
    };
    let hover = matches!(query_type, QueryType::Hover);
    if hover && trigger_point.is_before(&attr_name.end_position) {
        return Some(Position::AttributeName(attr_name.value.clone()));
    } else if props.contains_key("open_quote_error") || props.contains_key("empty_attribute") {
        if !hover {
            if let Some(quoted) = props.get("quoted_attr_value") {
                if quoted.end_position.is_at_or_before(&trigger_point) {
                    return None;
                }
            }
        }
        return Some(
            Position::AttributeValue { name: attr_name.value.clone(), value: String::new() },
        );
    }
    if let Some(error_char) = props.get("error_char") {
        if same_text(error_char.value.as_str(), "=") {
            return None;
        }
    }
    let mut value = String::new();
    if let Some(capture) = props.get("non_empty_attribute") {
        if capture.end_position.is_at_or_before(&trigger_point) {
            return None;
        }
        if hover {
            if let Some(attr_value) = props.get("attr_value") {
                value = attr_value.value.clone();
            }
        }
    }
    Some(Position::AttributeValue { name: attr_name.value.clone(), value })
}

/// The completion position that the captures of the whole-attribute pattern
/// give: nothing after an `=` that no value follows, the name for an
/// attribute without a value, and otherwise an empty value for an attribute
/// whose value is empty, filled or lacks its closing quote.
pub open spec fn resolve_completion(table: Map<Seq<char>, CaptureDetailsView>) -> Option<
    PositionView,
> {
    if !table.contains_key("attr_name"@) {
        None
    } else {
        let name = table["attr_name"@].value;
        if table.contains_key("with_attr_name_with_equals_err"@) {
            None
        } else if table.contains_key("with_attr_name_without_value_t"@) {
            Some(PositionView::AttributeName(name))
        } else if table.contains_key("with_attr_value_empty"@) || table.contains_key(
            "with_attr_value_not_empty"@,
        ) || table.contains_key("with_error_with_value_t_no_second_quote"@) {
            Some(PositionView::AttributeValue { name, value: Seq::empty() })
        } else {
            None
        }
    }
}

/// The hover position that the captures of the whole-attribute pattern give.
///
/// Past the end of the attribute there is none. Inside an attribute with a
/// value, the cursor at or after the name's end is in the value, and at or
/// before it on the name; an attribute with an empty value reports the
/// captured value text where there is one and the name otherwise.
pub open spec fn resolve_hover(table: Map<Seq<char>, CaptureDetailsView>, point: Point) -> Option<
    PositionView,
> {
    if !table.contains_key("attr_name"@) {
        None
    } else {
        let name = table["attr_name"@].value;
        let name_end = table["attr_name"@].end_position;
        if table.contains_key("with_attr_value_not_empty"@) {
            if table["with_attr_value_not_empty"@].end_position.before(point) {
                None
            } else if table.contains_key("attr_value"@) && name_end.at_or_before(point) {
                Some(PositionView::AttributeValue { name, value: table["attr_value"@].value })
            } else if point.at_or_before(name_end) {
                Some(PositionView::AttributeName(name))
            } else {
                None
            }
        } else if table.contains_key("with_attr_value_empty"@) {
            if table["with_attr_value_empty"@].end_position.before(point) {
                None
            } else if table.contains_key("attr_value"@) {
                Some(PositionView::AttributeValue { name, value: table["attr_value"@].value })
            } else {
                Some(PositionView::AttributeName(name))
            }
        } else {
            None
        }
    }
}

/// Decides the completion position from the captures of the whole-attribute
/// pattern.
pub fn completion_position(props: Props) -> (found: Option<Position>)
    ensures
        found.deep_view() == resolve_completion(props@),
{
    let attr_name = match props.get("attr_name") {
        Some(details) => details,
        None => { return None; },
    };
    if props.contains_key("with_attr_name_with_equals_err") {
        None
    } else if props.contains_key("with_attr_name_without_value_t") {
        Some(Position::AttributeName(attr_name.value.clone()))
    } else if props.contains_key("with_attr_value_empty") {
        Some(Position::AttributeValue { name: attr_name.value.clone(), value: String::new() })
    } else if props.contains_key("with_attr_value_not_empty") {
        Some(Position::AttributeValue { name: attr_name.value.clone(), value: String::new() })
    } else if props.contains_key("with_error_with_value_t_no_second_quote") {
        Some(Position::AttributeValue { name: attr_name.value.clone(), value: String::new() })
    } else {
        None
    }
}

/// Decides the hover position from the captures of the whole-attribute
/// pattern.
pub fn hover_position(props: Props, client_point: Point) -> (found: Option<Position>)
    ensures
        found.deep_view() == resolve_hover(props@, client_point),
{
    let attr_name = match props.get("attr_name") {
        Some(details) => details,
        None => { return None; },
    };
    if let Some(capture) = props.get("with_attr_value_not_empty") {
        if capture.end_position.is_before(&client_point) {
            return None;
        }
        if let Some(attr_value) = props.get("attr_value") {
            if attr_name.end_position.is_at_or_before(&client_point) {
                return Some(
                    Position::AttributeValue {
                        name: attr_name.value.clone(),
                        value: attr_value.value.clone(),
                    },
                );
            }
        }
        if client_point.is_at_or_before(&attr_name.end_position) {
            return Some(Position::AttributeName(attr_name.value.clone()));
        }
        None
    } else if let Some(capture) = props.get("with_attr_value_empty") {
        if capture.end_position.is_before(&client_point) {
            return None;
        }
        match props.get("attr_value") {
            Some(attr_value) => Some(
                Position::AttributeValue {
                    name: attr_name.value.clone(),
                    value: attr_value.value.clone(),
                },
            ),
            None => Some(Position::AttributeName(attr_name.value.clone())),
        }
    } else {
        None
    }
}

/// The first `attr_name` capture among the captures.
pub open spec fn name_capture(captures: Seq<CaptureView>) -> Option<CaptureView>
    decreases captures.len(),
{
    if captures.len() == 0 {
        None
    } else if captures[0].name == "attr_name"@ {
        Some(captures[0])
    } else {
        name_capture(captures.drop_first())
    }
}

/// Where the attribute of a match starts: at its `attr_name` capture, or at
/// its first capture where it has none.
pub open spec fn anchor(captures: Seq<CaptureView>) -> Point {
    match name_capture(captures) {
        Some(name) => name.start,
        None => captures[0].start,
    }
}

/// Whether a match counts for the cursor: it has captures, and its attribute
/// starts at or before the cursor.
pub open spec fn counts(captures: Seq<CaptureView>, point: Point) -> bool {
    captures.len() > 0 && anchor(captures).at_or_before(point)
}

/// Whether the span of `inner` lies within the span of `outer`.
pub open spec fn within(inner: CaptureView, outer: CaptureView) -> bool {
    outer.start.at_or_before(inner.start) && inner.end.at_or_before(outer.end)
}

/// Whether the attribute name of the match begins before `before` and is
/// not finished at the cursor: it ends behind the cursor.
pub open spec fn name_open_before(captures: Seq<CaptureView>, point: Point, before: Point) -> bool {
    match name_capture(captures) {
        Some(name) => point.before(name.end) && name.start.before(before),
        None => false,
    }
}

/// Whether one of the matches has an attribute name that begins before
/// `before` and is not finished at the cursor.
pub open spec fn open_name_before(
    matches: Seq<Seq<CaptureView>>,
    point: Point,
    before: Point,
) -> bool {
    exists|i: int|
        0 <= i < matches.len() && name_open_before(#[trigger] matches[i], point, before)
}

/// Whether a capture of a match that counts is kept. One that starts at or
/// before the cursor is. One that starts behind the cursor is kept where it
/// belongs to what the cursor has passed: it lies within the match's first
/// capture, the attribute or tag that the match is about, and every
/// attribute name that begins before it is finished at the cursor.
pub open spec fn kept(
    matches: Seq<Seq<CaptureView>>,
    first: CaptureView,
    capture: CaptureView,
    point: Point,
) -> bool {
    capture.start.at_or_before(point) || (within(capture, first) && !open_name_before(
        matches,
        point,
        capture.start,
    ))
}

/// The details of a capture: its text and where it ends.
pub open spec fn details_of(capture: CaptureView) -> CaptureDetailsView {
    CaptureDetailsView { value: capture.text, end_position: capture.end }
}

/// The table with the kept captures of one match: for each label the
/// details of the last one.
pub open spec fn with_captures(
    table: Map<Seq<char>, CaptureDetailsView>,
    matches: Seq<Seq<CaptureView>>,
    first: CaptureView,
    captures: Seq<CaptureView>,
    point: Point,
) -> Map<Seq<char>, CaptureDetailsView>
    decreases captures.len(),
{
    if captures.len() == 0 {
        table
    } else {
        let earlier = with_captures(table, matches, first, captures.drop_last(), point);
        if kept(matches, first, captures.last(), point) {
            earlier.insert(captures.last().name, details_of(captures.last()))
        } else {
            earlier
        }
    }
}

/// The table of the first matches of `matches`, `some` of them, as they
/// stand among all of them.
pub open spec fn fold_some(
    matches: Seq<Seq<CaptureView>>,
    some: Seq<Seq<CaptureView>>,
    point: Point,
) -> Map<Seq<char>, CaptureDetailsView>
    decreases some.len(),
{
    if some.len() == 0 {
        Map::empty()
    } else {
        let earlier = fold_some(matches, some.drop_last(), point);
        if counts(some.last(), point) {
            with_captures(earlier, matches, some.last()[0], some.last(), point)
        } else {
            earlier
        }
    }
}

/// The table of the matches for the cursor. A match counts where its
/// attribute starts at or before the cursor; of a match that counts, the
/// kept captures enter the table, and a later capture replaces an earlier
/// one with the same label.
pub open spec fn fold_captures(matches: Seq<Seq<CaptureView>>, point: Point) -> Map<
    Seq<char>,
    CaptureDetailsView,
> {
    fold_some(matches, matches, point)
}

/// Finds the first `attr_name` capture of a match.
pub fn match_name(captures: &Vec<Capture>) -> (found: Option<&Capture>)
    ensures
        found.deep_view() == name_capture(captures.deep_view()),
{
    let ghost all = captures.deep_view();
    let mut i: usize = 0;
    proof {
        assert(all.skip(0) =~= all);
    }
    while i < captures.len()
        invariant
            i <= captures.len(),
            all == captures.deep_view(),
            name_capture(all) == name_capture(all.skip(i as int)),
        decreases captures.len() - i,
    {
        proof {
            assert(all.skip(i as int).drop_first() =~= all.skip(i + 1));
            assert(all.skip(i as int)[0] == captures[i as int]@);
        }
        if same_text(captures[i].name.as_str(), "attr_name") {
            return Some(&captures[i]);
        }
        i += 1;
    }
    None
}

/// Where the attribute of a match starts.
pub fn match_anchor(captures: &Vec<Capture>) -> (start: Point)
    requires
        captures.len() > 0,
    ensures
        start == anchor(captures.deep_view()),
{
    proof {
        assert(captures.deep_view()[0] == captures[0]@);
    }
    match match_name(captures) {
        Some(name) => name.start,
        None => captures[0].start,
    }
}

/// Whether one of the matches has an attribute name that begins before
/// `before` and is not finished at the cursor.
pub fn any_open_name_before(matches: &Vec<Vec<Capture>>, point: Point, before: Point) -> (found:
    bool)
    ensures
        found == open_name_before(matches.deep_view(), point, before),
{
    let ghost all = matches.deep_view();
    let mut i: usize = 0;
    while i < matches.len()
        invariant
            i <= matches.len(),
            all == matches.deep_view(),
            forall|k: int| 0 <= k < i ==> !name_open_before(#[trigger] all[k], point, before),
        decreases matches.len() - i,
    {
        proof {
            assert(all[i as int] == matches[i as int].deep_view());
        }
        if let Some(name) = match_name(&matches[i]) {
            if point.is_before(&name.end) && name.start.is_before(&before) {
                return true;
            }
        }
        i += 1;
    }
    false
}

/// Adds the kept captures of the match at `index` to the table.
pub fn insert_captures(
    props: &mut Props,
    matches: &Vec<Vec<Capture>>,
    index: usize,
    trigger_point: Point,
)
    requires
        index < matches.len(),
        matches[index as int].len() > 0,
    ensures
        final(props)@ == with_captures(
            old(props)@,
            matches.deep_view(),
            matches[index as int][0]@,
            matches[index as int].deep_view(),
            trigger_point,
        ),
{
    let captures = &matches[index];
    let first = &captures[0];
    let ghost all = captures.deep_view();
    let ghost before = props@;
    let mut i: usize = 0;
    proof {
        assert(all.take(0) =~= Seq::<CaptureView>::empty());
    }
    while i < captures.len()
        invariant
            i <= captures.len(),
            all == captures.deep_view(),
            *first == captures[0],
            props@ == with_captures(
                before,
                matches.deep_view(),
                first@,
                all.take(i as int),
                trigger_point,
            ),
        decreases captures.len() - i,
    {
        let capture = &captures[i];
        proof {
            assert(all.take(i + 1).drop_last() =~= all.take(i as int));
            assert(all.take(i + 1).last() == capture@);
        }
        let inside = first.start.is_at_or_before(&capture.start) && capture.end.is_at_or_before(
            &first.end,
        );
        if capture.start.is_at_or_before(&trigger_point) || (inside && !any_open_name_before(
            matches,
            trigger_point,
            capture.start,
        )) {
            props.insert(
                capture.name.clone(),
                CaptureDetails { value: capture.text.clone(), end_position: capture.end },
            );
        }
        i += 1;
    }
    proof {
        assert(all.take(i as int) =~= all);
    }
}

/// Folds the matches into the table for the cursor.
pub fn props_from_captures(matches: &Vec<Vec<Capture>>, trigger_point: Point) -> (props: Props)
    ensures
        props@ == fold_captures(matches.deep_view(), trigger_point),
{
    let ghost all = matches.deep_view();
    let mut props = Props::new();
    let mut i: usize = 0;
    proof {
        assert(all.take(0) =~= Seq::<Seq<CaptureView>>::empty());
    }
    while i < matches.len()
        invariant
            i <= matches.len(),
            all == matches.deep_view(),
            props@ == fold_some(all, all.take(i as int), trigger_point),
        decreases matches.len() - i,
    {
        let captures = &matches[i];
        proof {
            assert(all.take(i + 1).drop_last() =~= all.take(i as int));
            assert(all.take(i + 1).last() == captures.deep_view());
            if captures.len() > 0 {
                assert(captures.deep_view()[0] == captures[0]@);
            }
        }
        if captures.len() > 0 && match_anchor(captures).is_at_or_before(&trigger_point) {
            insert_captures(&mut props, matches, i, trigger_point);
        }
        i += 1;
    }
    proof {
        assert(all.take(i as int) =~= all);
    }
    props
}

/// The kinds of node that hold a tag with its attributes.
pub open spec fn is_container_kind(kind: Seq<char>) -> bool {
    kind == "element"@ || kind == "fragment"@
}

/// The nearest of the node and its ancestors that is an element or a
/// fragment.
pub open spec fn enclosing_container(node: Node<'_>) -> Option<Node<'_>>
    decreases depth_of(node),
{
    if is_container_kind(kind_of(node)) {
        Some(node)
    } else {
        match parent_of(node) {
            Some(parent) => if depth_of(parent) < depth_of(node) {
                enclosing_container(parent)
            } else {
                None
            },
            None => None,
        }
    }
}

/// Walks from the node towards the root until it meets an element or a
/// fragment.
pub fn find_element_referent_to_current_node<'a>(node: Node<'a>) -> (found: Option<Node<'a>>)
    ensures
        found == enclosing_container(node),
    decreases depth_of(node),
{
    let kind = node_kind(node);
    if same_text(kind.as_str(), "element") || same_text(kind.as_str(), "fragment") {
        return Some(node);
    }
    match node_parent(node) {
        Some(parent) => find_element_referent_to_current_node(parent),
        None => None,
    }
}

/// The matches of a markup pattern within `node`. There are none where the
/// node is not of a markup tree, where `source` ends before the node does,
/// or where the markup grammar refuses the pattern.
pub open spec fn markup_matches(pattern: HTMLQuery, node: Node<'_>, source: Seq<char>) -> Option<
    Seq<Seq<CaptureView>>,
> {
    if grammar_of(node) == Some(LangType::Template) && end_byte_of(node) <= bytes_of(
        source,
    ).len() {
        match compiled(LangType::Template, pattern.pattern()) {
            Some(query) => Some(matches_of(query, node, source)),
            None => None,
        }
    } else {
        None
    }
}

/// The table of the matches of a markup pattern within `node` that count
/// for the cursor; empty where there are no matches.
pub open spec fn props_at(
    pattern: HTMLQuery,
    node: Node<'_>,
    source: Seq<char>,
    point: Point,
) -> Map<Seq<char>, CaptureDetailsView> {
    match markup_matches(pattern, node, source) {
        Some(matches) => fold_captures(matches, point),
        None => Map::empty(),
    }
}

/// Runs a markup pattern on `node` and folds the matches that count for the
/// cursor into a table.
pub fn query_props(node: Node<'_>, source: &str, trigger_point: Point, query: HTMLQuery) -> (props:
    Props)
    ensures
        props@ == props_at(query, node, source@, trigger_point),
{
    if !node_parsed_as(node, LangType::Template) || node_end_byte(node) > source.as_bytes().len() {
        return Props::new();
    }
    match compile_query(LangType::Template, query.text()) {
        Some(compiled_query) => {
            let matches = matches_in(&compiled_query, node, source);
            props_from_captures(&matches, trigger_point)
        },
        None => Props::new(),
    }
}

/// The position that the two tables give: what the captures of the
/// attribute-name pattern give, and where that is nothing, what the captures
/// of the attribute-value pattern give.
pub open spec fn resolve(
    names: Map<Seq<char>, CaptureDetailsView>,
    values: Map<Seq<char>, CaptureDetailsView>,
    point: Point,
    mode: QueryType,
) -> Option<PositionView> {
    if resolve_name(names, point, mode) is Some {
        resolve_name(names, point, mode)
    } else {
        resolve_value(values, point, mode)
    }
}

/// Hovering inside the value of a complete attribute gives the attribute's
/// name and the value's text, by the tables.
///
/// The cursor is at or behind the end of the name and before the end of the
/// attribute, whose name, text and value are in the table. The law holds
/// where the tables give nothing else to go by: nothing from the
/// attribute-name pattern, no open quote or empty value, no `=` in error.
pub proof fn lemma_hover_inside_value_by_tables(
    names: Map<Seq<char>, CaptureDetailsView>,
    values: Map<Seq<char>, CaptureDetailsView>,
    point: Point,
)
    requires
        resolve_name(names, point, QueryType::Hover) is None,
        values.contains_key("attr_name"@),
        values.contains_key("non_empty_attribute"@),
        values.contains_key("attr_value"@),
        values["attr_name"@].end_position.at_or_before(point),
        point.before(values["non_empty_attribute"@].end_position),
        !values.contains_key("open_quote_error"@),
        !values.contains_key("empty_attribute"@),
        !(values.contains_key("error_char"@) && values["error_char"@].value == "="@),
    ensures
        resolve(names, values, point, QueryType::Hover) == Some(
            PositionView::AttributeValue {
                name: values["attr_name"@].value,
                value: values["attr_value"@].value,
            },
        ),
{
}

/// Whether the label with the details comes from a kept capture of one of
/// the matches `some` that count.
pub open spec fn comes_from(
    matches: Seq<Seq<CaptureView>>,
    some: Seq<Seq<CaptureView>>,
    point: Point,
    label: Seq<char>,
    details: CaptureDetailsView,
) -> bool {
    exists|i: int, j: int|
        0 <= i < some.len() && 0 <= j < some[i].len() && counts(some[i], point) && (
        #[trigger] some[i][j]).name == label && kept(matches, some[i][0], some[i][j], point)
            && details_of(some[i][j]) == details
}

/// What the table of one match holds under a label was there before, or
/// comes from a kept capture of the match.
proof fn lemma_with_captures_source(
    table: Map<Seq<char>, CaptureDetailsView>,
    matches: Seq<Seq<CaptureView>>,
    first: CaptureView,
    captures: Seq<CaptureView>,
    point: Point,
    label: Seq<char>,
)
    requires
        with_captures(table, matches, first, captures, point).contains_key(label),
    ensures
        ({
            let after = with_captures(table, matches, first, captures, point);
            ||| table.contains_key(label) && after[label] == table[label]
            ||| exists|j: int|
                0 <= j < captures.len() && (#[trigger] captures[j]).name == label && kept(
                    matches,
                    first,
                    captures[j],
                    point,
                ) && details_of(captures[j]) == after[label]
        }),
    decreases captures.len(),
{
    if captures.len() > 0 {
        let last = captures.last();
        let earlier = with_captures(table, matches, first, captures.drop_last(), point);
        if kept(matches, first, last, point) && last.name == label {
            assert(captures[captures.len() - 1] == last);
        } else {
            lemma_with_captures_source(table, matches, first, captures.drop_last(), point, label);
            if !(table.contains_key(label) && earlier[label] == table[label]) {
                let j = choose|j: int|
                    0 <= j < captures.drop_last().len() && (#[trigger] captures.drop_last()[j]).name
                        == label && kept(matches, first, captures.drop_last()[j], point)
                        && details_of(captures.drop_last()[j]) == earlier[label];
                assert(captures[j] == captures.drop_last()[j]);
            }
        }
    }
}

/// What the table holds under a label comes from a kept capture of a match
/// that counts.
pub proof fn lemma_fold_source(
    matches: Seq<Seq<CaptureView>>,
    some: Seq<Seq<CaptureView>>,
    point: Point,
    label: Seq<char>,
)
    requires
        fold_some(matches, some, point).contains_key(label),
    ensures
        comes_from(matches, some, point, label, fold_some(matches, some, point)[label]),
    decreases some.len(),
{
    let table = fold_some(matches, some, point);
    let earlier = fold_some(matches, some.drop_last(), point);
    let last = some.last();
    if counts(last, point) {
        lemma_with_captures_source(earlier, matches, last[0], last, point, label);
        if earlier.contains_key(label) && table[label] == earlier[label] {
            lemma_fold_source(matches, some.drop_last(), point, label);
            let (i, j) = choose|i: int, j: int|
                0 <= i < some.drop_last().len() && 0 <= j < some.drop_last()[i].len() && counts(
                    some.drop_last()[i],
                    point,
                ) && (#[trigger] some.drop_last()[i][j]).name == label && kept(
                    matches,
                    some.drop_last()[i][0],
                    some.drop_last()[i][j],
                    point,
                ) && details_of(some.drop_last()[i][j]) == earlier[label];
            assert(some[i] == some.drop_last()[i]);
            assert(some[i][j].name == label);
        } else {
            let j = choose|j: int|
                0 <= j < last.len() && (#[trigger] last[j]).name == label && kept(
                    matches,
                    last[0],
                    last[j],
                    point,
                ) && details_of(last[j]) == table[label];
            assert(some[some.len() - 1] == last);
            assert(some[some.len() - 1][j].name == label);
        }
    } else {
        lemma_fold_source(matches, some.drop_last(), point, label);
        let (i, j) = choose|i: int, j: int|
            0 <= i < some.drop_last().len() && 0 <= j < some.drop_last()[i].len() && counts(
                some.drop_last()[i],
                point,
            ) && (#[trigger] some.drop_last()[i][j]).name == label && kept(
                matches,
                some.drop_last()[i][0],
                some.drop_last()[i][j],
                point,
            ) && details_of(some.drop_last()[i][j]) == earlier[label];
        assert(some[i] == some.drop_last()[i]);
        assert(some[i][j].name == label);
    }
}

/// Whether every `=` in error among the matches is left out for the cursor:
/// it stands behind the cursor, and outside the attribute or tag of its
/// match or behind an attribute name that is not finished at the cursor.
pub open spec fn equal_errors_left_out(matches: Seq<Seq<CaptureView>>, point: Point) -> bool {
    forall|i: int, j: int|
        0 <= i < matches.len() && 0 <= j < matches[i].len() && (#[trigger] matches[i][j]).name
            == "error_char"@ && matches[i][j].text == "="@ ==> !kept(
            matches,
            matches[i][0],
            matches[i][j],
            point,
        )
}

/// Hovering inside the value of a complete attribute gives the attribute's
/// name and the value's text.
///
/// The cursor is at or behind the end of the name and before the end of the
/// attribute, whose name, text and value are in the table of the value
/// pattern's matches. An `=` in error that is left out for the cursor, as
/// one that follows a later attribute, does not matter. The law holds where
/// nothing else is to go by: nothing from the attribute-name pattern, and no
/// open quote or empty value in the table.
pub proof fn lemma_hover_inside_value(
    names: Map<Seq<char>, CaptureDetailsView>,
    matches: Seq<Seq<CaptureView>>,
    point: Point,
)
    requires
        resolve_name(names, point, QueryType::Hover) is None,
        fold_captures(matches, point).contains_key("attr_name"@),
        fold_captures(matches, point).contains_key("non_empty_attribute"@),
        fold_captures(matches, point).contains_key("attr_value"@),
        fold_captures(matches, point)["attr_name"@].end_position.at_or_before(point),
        point.before(fold_captures(matches, point)["non_empty_attribute"@].end_position),
        !fold_captures(matches, point).contains_key("open_quote_error"@),
        !fold_captures(matches, point).contains_key("empty_attribute"@),
        equal_errors_left_out(matches, point),
    ensures
        resolve(names, fold_captures(matches, point), point, QueryType::Hover) == Some(
            PositionView::AttributeValue {
                name: fold_captures(matches, point)["attr_name"@].value,
                value: fold_captures(matches, point)["attr_value"@].value,
            },
        ),
{
    let values = fold_captures(matches, point);
    assert(!(values.contains_key("error_char"@) && values["error_char"@].value == "="@)) by {
        if values.contains_key("error_char"@) && values["error_char"@].value == "="@ {
            lemma_fold_source(matches, matches, point, "error_char"@);
            let (i, j) = choose|i: int, j: int|
                0 <= i < matches.len() && 0 <= j < matches[i].len() && counts(matches[i], point)
                    && (#[trigger] matches[i][j]).name == "error_char"@ && kept(
                    matches,
                    matches[i][0],
                    matches[i][j],
                    point,
                ) && details_of(matches[i][j]) == values["error_char"@];
            assert(matches[i][j].text == "="@);
        }
    }
    lemma_hover_inside_value_by_tables(names, values, point);
}

/// When the attribute-value pattern gives nothing: no attribute name was
/// captured; or, the cursor not hovering on the name, an open quote or empty
/// value was captured and completion finds the cursor at or behind the end
/// of the quoted value; or neither was captured, and the error character is
/// `=` or the filled attribute ends at or before the cursor.
pub open spec fn value_gives_nothing(
    table: Map<Seq<char>, CaptureDetailsView>,
    point: Point,
    mode: QueryType,
) -> bool {
    if !table.contains_key("attr_name"@) {
        true
    } else if mode == QueryType::Hover && point.before(table["attr_name"@].end_position) {
        false
    } else if table.contains_key("open_quote_error"@) || table.contains_key("empty_attribute"@) {
        mode == QueryType::Completion && table.contains_key("quoted_attr_value"@)
            && table["quoted_attr_value"@].end_position.at_or_before(point)
    } else {
        (table.contains_key("error_char"@) && table["error_char"@].value == "="@) || (
        table.contains_key("non_empty_attribute"@)
            && table["non_empty_attribute"@].end_position.at_or_before(point))
    }
}

/// The attribute-value pattern gives nothing in just those cases.
pub proof fn lemma_value_gives_nothing(
    table: Map<Seq<char>, CaptureDetailsView>,
    point: Point,
    mode: QueryType,
)
    ensures
        resolve_value(table, point, mode) is None <==> value_gives_nothing(table, point, mode),
{
}

/// Completion gives nothing within a tag whose attribute name is followed
/// by an `=` in error: the attribute-name pattern gives nothing once the
/// match of the tag with the `=` counts and while the cursor is not behind
/// the tag, and the attribute-value pattern gives nothing in the cases of
/// `value_gives_nothing`.
pub proof fn lemma_completion_before_value(
    names: Map<Seq<char>, CaptureDetailsView>,
    values: Map<Seq<char>, CaptureDetailsView>,
    point: Point,
)
    requires
        names.contains_key("attr_name"@),
        names.contains_key("unfinished_tag"@),
        names.contains_key("equal_error"@),
        !names["unfinished_tag"@].end_position.before(point),
        value_gives_nothing(values, point, QueryType::Completion),
    ensures
        resolve_name(names, point, QueryType::Completion) is None,
        resolve(names, values, point, QueryType::Completion) is None,
{
}

/// A filled attribute counts with its value once the cursor has passed its
/// name, so that the value's text is in the table also where the cursor
/// stands before the value, on the `=` or the quote.
pub proof fn lemma_value_text_counts(
    earlier: Seq<Seq<CaptureView>>,
    attribute: CaptureView,
    name: CaptureView,
    value: CaptureView,
    point: Point,
)
    requires
        attribute.name == "non_empty_attribute"@,
        name.name == "attr_name"@,
        value.name == "attr_value"@,
        attribute.start.at_or_before(point),
        name.start.at_or_before(point),
        within(value, attribute),
        !open_name_before(earlier.push(seq![attribute, name, value]), point, value.start),
    ensures
        ({
            let table = fold_captures(earlier.push(seq![attribute, name, value]), point);
            &&& table.contains_key("attr_value"@)
            &&& table["attr_value"@].value == value.text
            &&& table.contains_key("attr_name"@)
            &&& table["attr_name"@].value == name.text
            &&& table.contains_key("non_empty_attribute"@)
            &&& table["non_empty_attribute"@].end_position == attribute.end
        }),
{
    reveal_strlit("non_empty_attribute");
    reveal_strlit("attr_value");
    reveal_strlit("attr_name");
    assert("attr_name"@.len() == 9 && "attr_value"@.len() == 10 && "non_empty_attribute"@.len()
        == 19);
    let last = seq![attribute, name, value];
    let matches = earlier.push(last);
    assert(matches.drop_last() =~= earlier);
    assert(matches.last() == last);
    assert(last.drop_first() =~= seq![name, value]);
    assert(last[0].name != "attr_name"@);
    assert(name_capture(seq![name, value]) == Some(name));
    assert(name_capture(last) == Some(name));
    assert(counts(last, point));
    let table = fold_some(matches, earlier, point);
    let first = with_captures(table, matches, attribute, seq![attribute], point);
    let second = with_captures(table, matches, attribute, seq![attribute, name], point);
    assert(seq![attribute].drop_last() =~= Seq::<CaptureView>::empty());
    assert(seq![attribute, name].drop_last() =~= seq![attribute]);
    assert(last.drop_last() =~= seq![attribute, name]);
    assert(with_captures(table, matches, attribute, Seq::<CaptureView>::empty(), point) == table);
    assert(seq![attribute].last() == attribute);
    assert(seq![attribute, name].last() == name);
    assert(last.last() == value);
    assert(first == table.insert(attribute.name, details_of(attribute)));
    assert(second == first.insert(name.name, details_of(name)));
    assert(with_captures(table, matches, attribute, last, point) == second.insert(
        value.name,
        details_of(value),
    ));
}

/// The `=` in error of an unfinished tag counts once the cursor has passed
/// every attribute name that begins before it, so that the `=` is in the
/// table also where the cursor stands before it.
pub proof fn lemma_equal_error_counts(
    earlier: Seq<Seq<CaptureView>>,
    tag: CaptureView,
    error: CaptureView,
    point: Point,
)
    requires
        tag.name == "unfinished_tag"@,
        error.name == "equal_error"@,
        tag.start.at_or_before(point),
        within(error, tag),
        !open_name_before(earlier.push(seq![tag, error]), point, error.start),
    ensures
        ({
            let table = fold_captures(earlier.push(seq![tag, error]), point);
            &&& table.contains_key("equal_error"@)
            &&& table.contains_key("unfinished_tag"@)
            &&& table["unfinished_tag"@].end_position == tag.end
            &&& fold_some(earlier.push(seq![tag, error]), earlier, point).contains_key(
                "attr_name"@,
            ) ==> table.contains_key("attr_name"@)
        }),
{
    reveal_strlit("unfinished_tag");
    reveal_strlit("equal_error");
    reveal_strlit("attr_name");
    let last = seq![tag, error];
    let matches = earlier.push(last);
    assert(matches.drop_last() =~= earlier);
    assert(matches.last() == last);
    assert(last.drop_first() =~= seq![error]);
    assert(seq![error].drop_first() =~= Seq::<CaptureView>::empty());
    assert("attr_name"@.len() == 9 && "equal_error"@.len() == 11 && "unfinished_tag"@.len()
        == 14);
    assert(seq![error][0].name != "attr_name"@);
    assert(name_capture(Seq::<CaptureView>::empty()) is None);
    assert(name_capture(seq![error]) is None);
    assert(last[0].name != "attr_name"@);
    assert(name_capture(last) is None);
    assert(counts(last, point));
    assert(last.drop_last() =~= seq![tag]);
    assert(seq![tag].drop_last() =~= Seq::<CaptureView>::empty());
    let table = fold_some(matches, earlier, point);
    assert(with_captures(table, matches, tag, Seq::<CaptureView>::empty(), point) == table);
    assert(seq![tag].last() == tag);
    assert(last.last() == error);
    assert(with_captures(table, matches, tag, seq![tag], point) == table.insert(
        tag.name,
        details_of(tag),
    ));
    assert(with_captures(table, matches, tag, last, point) == with_captures(
        table,
        matches,
        tag,
        seq![tag],
        point,
    ).insert(error.name, details_of(error)));
}

/// Completion gives nothing between an attribute name and the `=` in error
/// behind it: once the cursor has passed every attribute name that begins
/// before the `=`, and while it is not behind the tag, the `=` of the
/// unfinished tag is in the table of the attribute-name pattern and silences
/// the name; nothing is given where the attribute-value pattern gives
/// nothing.
pub proof fn lemma_completion_before_equal(
    earlier: Seq<Seq<CaptureView>>,
    tag: CaptureView,
    error: CaptureView,
    values: Map<Seq<char>, CaptureDetailsView>,
    point: Point,
)
    requires
        tag.name == "unfinished_tag"@,
        error.name == "equal_error"@,
        tag.start.at_or_before(point),
        !tag.end.before(point),
        within(error, tag),
        !open_name_before(earlier.push(seq![tag, error]), point, error.start),
        value_gives_nothing(values, point, QueryType::Completion),
    ensures
        resolve(
            fold_captures(earlier.push(seq![tag, error]), point),
            values,
            point,
            QueryType::Completion,
        ) is None,
{
    lemma_equal_error_counts(earlier, tag, error, point);
    let names = fold_captures(earlier.push(seq![tag, error]), point);
    if names.contains_key("attr_name"@) {
        lemma_completion_before_value(names, values, point);
    }
}

/// An `=` in error that follows a later attribute is left out: one that
/// stands behind the cursor and outside the first capture of its match does
/// not enter the table.
pub proof fn lemma_error_behind_is_left_out(
    matches: Seq<Seq<CaptureView>>,
    first: CaptureView,
    error: CaptureView,
    point: Point,
)
    requires
        point.before(error.start),
        !within(error, first),
    ensures
        !kept(matches, first, error, point),
{
}

/// Decides the position from the captures of the two patterns.
pub fn position_from_captures(
    name_captures: &Vec<Vec<Capture>>,
    value_captures: &Vec<Vec<Capture>>,
    trigger_point: Point,
    query_type: QueryType,
) -> (found: Option<Position>)
    ensures
        found.deep_view() == resolve(
            fold_captures(name_captures.deep_view(), trigger_point),
            fold_captures(value_captures.deep_view(), trigger_point),
            trigger_point,
            query_type,
        ),
{
    let names = props_from_captures(name_captures, trigger_point);
    let name = name_position(&names, trigger_point, query_type);
    if name.is_some() {
        return name;
    }
    let values = props_from_captures(value_captures, trigger_point);
    value_position(&values, trigger_point, query_type)
}

/// The position within `element`: that which the captures of the two
/// patterns give.
pub open spec fn position_in(
    element: Node<'_>,
    source: Seq<char>,
    point: Point,
    mode: QueryType,
) -> Option<PositionView> {
    resolve(
        props_at(HTMLQuery::Name, element, source, point),
        props_at(HTMLQuery::Value, element, source, point),
        point,
        mode,
    )
}

/// The position of `point` in the tree under `root`: that within the
/// nearest element or fragment around the smallest node that spans the
/// point.
pub open spec fn position_at(
    root: Node<'_>,
    source: Seq<char>,
    point: Point,
    mode: QueryType,
) -> Option<PositionView> {
    match descendant_at(root, point) {
        Some(closest) => match enclosing_container(closest) {
            Some(element) => position_in(element, source, point, mode),
            None => None,
        },
        None => None,
    }
}

fn query_name(
    element: Node<'_>,
    source: &str,
    trigger_point: Point,
    query_type: QueryType,
) -> (found: Option<Position>)
    ensures
        found.deep_view() == resolve_name(
            props_at(HTMLQuery::Name, element, source@, trigger_point),
            trigger_point,
            query_type,
        ),
{
    let props = query_props(element, source, trigger_point, HTMLQuery::Name);
    name_position(&props, trigger_point, query_type)
}

fn query_value(
    element: Node<'_>,
    source: &str,
    trigger_point: Point,
    query_type: QueryType,
) -> (found: Option<Position>)
    ensures
        found.deep_view() == resolve_value(
            props_at(HTMLQuery::Value, element, source@, trigger_point),
            trigger_point,
            query_type,
        ),
{
    let props = query_props(element, source, trigger_point, HTMLQuery::Value);
    value_position(&props, trigger_point, query_type)
}

/// Resolves the cursor at `trigger_point` in the markup tree under `root`,
/// whose text is `source`.
pub fn query_position(
    root: Node<'_>,
    source: &str,
    trigger_point: Point,
    query_type: QueryType,
) -> (found: Option<Position>)
    ensures
        found.deep_view() == position_at(root, source@, trigger_point, query_type),
{
    let closest_node = match smallest_node_at(root, trigger_point) {
        Some(node) => node,
        None => { return None; },
    };
    let element = match find_element_referent_to_current_node(closest_node) {
        Some(node) => node,
        None => { return None; },
    };
    let name = query_name(element, source, trigger_point, query_type);
    if name.is_some() {
        return name;
    }
    query_value(element, source, trigger_point, query_type)
}

/// The position of the cursor in a document that is held as markup: that
/// in the tree that the markup parser makes of the document's text.
pub open spec fn position_in_document(
    texts: Map<Seq<char>, Seq<char>>,
    uri: Seq<char>,
    cursor: TextPosition,
    mode: QueryType,
) -> Option<PositionView> {
    if texts.contains_key(uri) {
        match parsed(LangType::Template, texts[uri]) {
            Some(tree) => position_at(
                root_of(tree),
                texts[uri],
                Point { row: cursor.line as usize, column: cursor.character as usize },
                mode,
            ),
            None => None,
        }
    } else {
        None
    }
}

/// Resolves the editor's cursor in the document of the URI, parsed as
/// markup.
pub fn get_position_from_lsp_completion(
    text_params: TextPosition,
    text: &DashMap<String, Rope>,
    uri: String,
    query_type: QueryType,
) -> (found: Option<Position>)
    ensures
        found.deep_view() == position_in_document(texts_of(*text), uri@, text_params, query_type),
{
    let text = match document_text(text, &uri) {
        Some(text) => text,
        None => { return None; },
    };
    let mut parser = new_parser(LangType::Template);
    let tree = match parse_text(&mut parser, text.as_str()) {
        Some(tree) => tree,
        None => { return None; },
    };
    let root_node = tree_root(&tree);
    let trigger_point = Point::new(text_params.line as usize, text_params.character as usize);
    query_position(root_node, text.as_str(), trigger_point, query_type)
}

} // verus!
