//! What the server answers once the cursor is resolved: the entries of the
//! knowledge base to complete with, and the description to show on hover.

use vstd::prelude::*;
use vstd::string::StrSliceExecFns;
use vstd::string::StringExecFns;
use crate::position::{Position, PositionView};
use crate::text::{chars_of, find_in, same_text, split, split_from, stands_at};

verus! {

/// An entry of the knowledge base: an attribute or a value with its
/// description.
#[derive(Debug, PartialEq, Eq)]
pub struct HxCompletion {
    pub name: String,
    pub desc: String,
}

pub struct HxCompletionView {
    pub name: Seq<char>,
    pub desc: Seq<char>,
}

impl View for HxCompletion {
    type V = HxCompletionView;

    open spec fn view(&self) -> HxCompletionView {
        HxCompletionView { name: self.name@, desc: self.desc@ }
    }
}

impl DeepView for HxCompletion {
    type V = HxCompletionView;

    open spec fn deep_view(&self) -> HxCompletionView {
        self@
    }
}

impl Clone for HxCompletion {
    fn clone(&self) -> (copy: Self)
        ensures
            copy@ == self@,
    {
        HxCompletion { name: self.name.clone(), desc: self.desc.clone() }
    }
}

/// The values of one attribute.
#[derive(Debug)]
pub struct AttributeValues {
    pub attribute: String,
    pub values: Vec<HxCompletion>,
}

pub struct AttributeValuesView {
    pub attribute: Seq<char>,
    pub values: Seq<HxCompletionView>,
}

impl View for AttributeValues {
    type V = AttributeValuesView;

    open spec fn view(&self) -> AttributeValuesView {
        AttributeValuesView { attribute: self.attribute@, values: self.values.deep_view() }
    }
}

impl DeepView for AttributeValues {
    type V = AttributeValuesView;

    open spec fn deep_view(&self) -> AttributeValuesView {
        self@
    }
}

/// Why the editor asks for completions.
#[derive(Clone, Copy, Debug, PartialEq, Eq)]
pub enum CompletionTrigger {
    Invoked,
    TriggerCharacter,
    Incomplete,
}

/// Whether a request for completions is answered: one that the user
/// invoked or a trigger character set off, and any request of an editor
/// that never says why it asks.
pub fn can_complete(trigger: Option<CompletionTrigger>, is_helix: bool) -> (answered: bool)
    ensures
        answered == (trigger == Some(CompletionTrigger::Invoked) || trigger == Some(
            CompletionTrigger::TriggerCharacter,
        ) || is_helix),
{
    match trigger {
        Some(CompletionTrigger::Invoked) => true,
        Some(CompletionTrigger::TriggerCharacter) => true,
        _ => is_helix,
    }
}

/// Whether the client is the editor that never says why it asks for
/// completions.
pub fn is_helix(client_name: &str) -> (helix: bool)
    ensures
        helix == (client_name@ == "helix"@),
{
    same_text(client_name, "helix")
}

/// What starts the name of an htmx attribute.
pub open spec fn prefix() -> Seq<char> {
    seq!['h', 'x', '-']
}

/// All pieces in a row.
pub open spec fn joined(pieces: Seq<Seq<char>>) -> Seq<char>
    decreases pieces.len(),
{
    if pieces.len() == 0 {
        Seq::empty()
    } else {
        pieces[0] + joined(pieces.drop_first())
    }
}

/// The name without any `hx-` in it.
pub open spec fn bare_name(name: Seq<char>) -> Seq<char> {
    joined(split(name, prefix()))
}

/// The first entry with the name.
pub open spec fn entry_named(entries: Seq<HxCompletionView>, name: Seq<char>) -> Option<
    HxCompletionView,
>
    decreases entries.len(),
{
    if entries.len() == 0 {
        None
    } else if entries[0].name == name {
        Some(entries[0])
    } else {
        entry_named(entries.drop_first(), name)
    }
}

/// The values of the first attribute with the name.
pub open spec fn values_of(attributes: Seq<AttributeValuesView>, name: Seq<char>) -> Option<
    Seq<HxCompletionView>,
>
    decreases attributes.len(),
{
    if attributes.len() == 0 {
        None
    } else if attributes[0].attribute == name {
        Some(attributes[0].values)
    } else {
        values_of(attributes.drop_first(), name)
    }
}

/// The name that stands for a fresh attribute: the cursor is behind an
/// unfinished tag, and any attribute may be proposed.
pub open spec fn fresh_name() -> Seq<char> {
    seq!['-', '-']
}

/// The entries to complete with: all attributes on an attribute name that
/// starts with `hx-` and where a fresh attribute is asked for, and the
/// values of the attribute inside a value.
pub open spec fn completions_at(
    position: Option<PositionView>,
    hx_tags: Seq<HxCompletionView>,
    hx_attribute_values: Seq<AttributeValuesView>,
) -> Option<Seq<HxCompletionView>> {
    match position {
        Some(PositionView::AttributeName(name)) => if name == fresh_name() || (name.len() >= 3
            && name.take(3) == prefix()) {
            Some(hx_tags)
        } else {
            None
        },
        Some(PositionView::AttributeValue { name, value }) => values_of(hx_attribute_values, name),
        None => None,
    }
}

/// The description to show: that of the attribute whose name is the bare
/// name under the cursor, or that of the value under the cursor among the
/// values of its attribute.
pub open spec fn description_at(
    position: Option<PositionView>,
    hx_tags: Seq<HxCompletionView>,
    hx_attribute_values: Seq<AttributeValuesView>,
) -> Option<Seq<char>> {
    match position {
        Some(PositionView::AttributeName(name)) => match entry_named(hx_tags, bare_name(name)) {
            Some(entry) => Some(entry.desc),
            None => None,
        },
        Some(PositionView::AttributeValue { name, value }) => match values_of(
            hx_attribute_values,
            name,
        ) {
            Some(values) => match entry_named(values, value) {
                Some(entry) => Some(entry.desc),
                None => None,
            },
            None => None,
        },
        None => None,
    }
}

/// Copies the entries.
pub fn copy_entries(entries: &Vec<HxCompletion>) -> (copy: Vec<HxCompletion>)
    ensures
        copy.deep_view() == entries.deep_view(),
{
    let mut copy: Vec<HxCompletion> = Vec::new();
    let mut i: usize = 0;
    while i < entries.len()
        invariant
            i <= entries.len(),
            copy.len() == i,
            forall|k: int| 0 <= k < i ==> copy[k]@ == entries[k]@,
        decreases entries.len() - i,
    {
        copy.push(entries[i].clone());
        i += 1;
    }
    copy
}

/// Finds the first entry with the name.
pub fn find_entry<'a>(entries: &'a Vec<HxCompletion>, name: &str) -> (found: Option<
    &'a HxCompletion,
>)
    ensures
        found.deep_view() == entry_named(entries.deep_view(), name@),
{
    let ghost all = entries.deep_view();
    let mut i: usize = 0;
    proof {
        assert(all.skip(0) =~= all);
    }
    while i < entries.len()
        invariant
            i <= entries.len(),
            all == entries.deep_view(),
            entry_named(all, name@) == entry_named(all.skip(i as int), name@),
        decreases entries.len() - i,
    {
        proof {
            assert(all.skip(i as int).drop_first() =~= all.skip(i + 1));
        }
        if same_text(entries[i].name.as_str(), name) {
            return Some(&entries[i]);
        }
        i += 1;
    }
    None
}

/// Finds the values of the first attribute with the name.
pub fn find_values<'a>(attributes: &'a Vec<AttributeValues>, name: &str) -> (found: Option<
    &'a Vec<HxCompletion>,
>)
    ensures
        found.deep_view() == values_of(attributes.deep_view(), name@),
{
    let ghost all = attributes.deep_view();
    let mut i: usize = 0;
    proof {
        assert(all.skip(0) =~= all);
    }
    while i < attributes.len()
        invariant
            i <= attributes.len(),
            all == attributes.deep_view(),
            values_of(all, name@) == values_of(all.skip(i as int), name@),
        decreases attributes.len() - i,
    {
        proof {
            assert(all.skip(i as int).drop_first() =~= all.skip(i + 1));
        }
        if same_text(attributes[i].attribute.as_str(), name) {
            return Some(&attributes[i].values);
        }
        i += 1;
    }
    None
}

/// The pieces of the name from `from` on, in a row behind `bare`.
fn append_pieces(name: &str, text: &Vec<char>, pattern: &Vec<char>, from: usize, bare: &mut String)
    requires
        text@ == name@,
        from <= text.len(),
        pattern@.len() > 0,
    ensures
        final(bare)@ == old(bare)@ + joined(split_from(text@, pattern@, from as int)),
    decreases text.len() - from,
{
    let next = find_in(text, pattern, from);
    let to = match next {
        Some(at) => at,
        None => text.len(),
    };
    let ghost pieces = split_from(text@, pattern@, from as int);
    bare.append(name.substring_char(from, to));
    match next {
        Some(at) => {
            proof {
                assert(pieces.drop_first() =~= split_from(text@, pattern@, at + pattern@.len()));
            }
            append_pieces(name, text, pattern, at + pattern.len(), bare);
        },
        None => {
            proof {
                assert(joined(pieces.drop_first()) =~= Seq::<char>::empty());
            }
        },
    }
}

/// Takes every `hx-` out of the name.
pub fn strip_prefix(name: &str) -> (bare: String)
    ensures
        bare@ == bare_name(name@),
{
    let text = chars_of(name);
    let mut pattern: Vec<char> = Vec::new();
    pattern.push('h');
    pattern.push('x');
    pattern.push('-');
    proof {
        assert(pattern@ =~= prefix());
    }
    let mut bare = String::new();
    append_pieces(name, &text, &pattern, 0, &mut bare);
    bare
}

/// Whether the name starts with `hx-`.
pub fn has_prefix(name: &str) -> (found: bool)
    ensures
        found == (name@.len() >= 3 && name@.take(3) == prefix()),
{
    let text = chars_of(name);
    let mut pattern: Vec<char> = Vec::new();
    pattern.push('h');
    pattern.push('x');
    pattern.push('-');
    proof {
        assert(pattern@ =~= prefix());
    }
    stands_at(&text, &pattern, 0)
}

/// The entries to complete with at the position.
pub fn completion_items(
    position: &Option<Position>,
    hx_tags: &Vec<HxCompletion>,
    hx_attribute_values: &Vec<AttributeValues>,
) -> (items: Option<Vec<HxCompletion>>)
    ensures
        items.deep_view() == completions_at(
            position.deep_view(),
            hx_tags.deep_view(),
            hx_attribute_values.deep_view(),
        ),
{
    match position {
        Some(Position::AttributeName(name)) => {
            proof {
                reveal_strlit("--");
                assert("--"@ =~= fresh_name());
            }
            if same_text(name.as_str(), "--") || has_prefix(name.as_str()) {
                Some(copy_entries(hx_tags))
            } else {
                None
            }
        },
        Some(Position::AttributeValue { name, value }) => {
            match find_values(hx_attribute_values, name.as_str()) {
                Some(values) => Some(copy_entries(values)),
                None => None,
            }
        },
        None => None,
    }
}

/// The description to show at the position.
pub fn hover_description(
    position: &Option<Position>,
    hx_tags: &Vec<HxCompletion>,
    hx_attribute_values: &Vec<AttributeValues>,
) -> (description: Option<String>)
    ensures
        description.deep_view() == description_at(
            position.deep_view(),
            hx_tags.deep_view(),
            hx_attribute_values.deep_view(),
        ),
{
    match position {
        Some(Position::AttributeName(name)) => {
            let bare = strip_prefix(name.as_str());
            match find_entry(hx_tags, bare.as_str()) {
                Some(entry) => Some(entry.desc.clone()),
                None => None,
            }
        },
        Some(Position::AttributeValue { name, value }) => {
            match find_values(hx_attribute_values, name.as_str()) {
                Some(values) => match find_entry(values, value.as_str()) {
                    Some(entry) => Some(entry.desc.clone()),
                    None => None,
                },
                None => None,
            }
        },
        None => None,
    }
}

} // verus!
