//! The tags that the comments of a source file declare.

use vstd::prelude::*;
use tree_sitter::{Node, Query};
use crate::htmx_tags::{get_tag, tag_in_line, Tag, TagView};
use crate::init_hx::LangType;
use crate::position::{Capture, CaptureView};
use crate::queries::{HX_JS_TAGS, HX_RUST_TAGS};
use crate::syntax::{
    compile_query, compiled, end_byte_of, grammar_for, grammar_of, matches_in, matches_of,
    node_end_byte, node_parsed_as,
};
use crate::text::bytes_of;

verus! {

/// The kinds of source that declare tags.
#[derive(Clone, Copy, Debug, PartialEq, Eq)]
pub enum HtmxQuery {
    JavaScript,
    Backend,
}

impl HtmxQuery {
    /// The kind of source for a classification. Templates declare no tags.
    pub open spec fn of(lang_type: LangType) -> Option<HtmxQuery> {
        match lang_type {
            LangType::Template => None,
            LangType::JavaScript => Some(HtmxQuery::JavaScript),
            LangType::Backend => Some(HtmxQuery::Backend),
        }
    }

    /// The kind of source for a classification, or an error for templates.
    pub fn try_from(lang_type: LangType) -> (kind: Result<HtmxQuery, ()>)
        ensures
            match kind {
                Ok(found) => HtmxQuery::of(lang_type) == Some(found),
                Err(_) => HtmxQuery::of(lang_type) is None,
            },
    {
        match lang_type {
            LangType::Template => Err(()),
            LangType::JavaScript => Ok(HtmxQuery::JavaScript),
            LangType::Backend => Ok(HtmxQuery::Backend),
        }
    }

    /// The classification of the sources of this kind.
    pub open spec fn grammar(self) -> LangType {
        match self {
            HtmxQuery::JavaScript => LangType::JavaScript,
            HtmxQuery::Backend => LangType::Backend,
        }
    }

    /// The pattern that finds the comments of this kind of source.
    pub open spec fn pattern(self) -> Seq<char> {
        match self {
            HtmxQuery::JavaScript => HX_JS_TAGS@,
            HtmxQuery::Backend => HX_RUST_TAGS@,
        }
    }
}

/// The compiled comment patterns.
pub struct Queries {
    javascript: Query,
    backend: Query,
}

impl Queries {
    #[verifier::type_invariant]
    spec fn compiled_from_patterns(self) -> bool {
        &&& compiled(LangType::JavaScript, HX_JS_TAGS@) == Some(self.javascript)
        &&& compiled(LangType::Backend, HX_RUST_TAGS@) == Some(self.backend)
        &&& grammar_for(self.javascript) == LangType::JavaScript
        &&& grammar_for(self.backend) == LangType::Backend
    }

    /// Compiles the comment patterns; `None` where a grammar refuses its
    /// pattern.
    pub fn new() -> (queries: Option<Queries>)
        ensures
            queries is Some <==> compiled(LangType::JavaScript, HX_JS_TAGS@) is Some && compiled(
                LangType::Backend,
                HX_RUST_TAGS@,
            ) is Some,
    {
        let javascript = match compile_query(LangType::JavaScript, HX_JS_TAGS) {
            Some(query) => query,
            None => { return None; },
        };
        let backend = match compile_query(LangType::Backend, HX_RUST_TAGS) {
            Some(query) => query,
            None => { return None; },
        };
        Some(Queries { javascript, backend })
    }

    /// The compiled pattern for a kind of source.
    pub fn get(&self, kind: HtmxQuery) -> (query: &Query)
        ensures
            Some(*query) == compiled(kind.grammar(), kind.pattern()),
            grammar_for(*query) == kind.grammar(),
    {
        proof {
            use_type_invariant(self);
        }
        match kind {
            HtmxQuery::JavaScript => &self.javascript,
            HtmxQuery::Backend => &self.backend,
        }
    }
}

/// The tag that a captured comment declares: the tag of its text, in the
/// comment's line and counted from the comment's column. None where the
/// columns cannot be counted.
pub open spec fn tag_of_capture(capture: CaptureView) -> Option<TagView> {
    match tag_in_line(capture.text) {
        Some(tag) => if tag.end + capture.start.column <= usize::MAX {
            Some(
                TagView {
                    name: tag.name,
                    start: (tag.start + capture.start.column) as usize,
                    end: (tag.end + capture.start.column) as usize,
                    file: tag.file,
                    line: capture.start.row,
                },
            )
        } else {
            None
        },
        None => None,
    }
}

/// The tags that the captures declare, in the captures' order.
pub open spec fn tags_of_captures(captures: Seq<CaptureView>) -> Seq<TagView>
    decreases captures.len(),
{
    if captures.len() == 0 {
        Seq::empty()
    } else {
        let earlier = tags_of_captures(captures.drop_last());
        match tag_of_capture(captures.last()) {
            Some(tag) => earlier.push(tag),
            None => earlier,
        }
    }
}

/// The tags that the captures of the matches declare, match by match.
pub open spec fn tags_of_matches(matches: Seq<Seq<CaptureView>>) -> Seq<TagView>
    decreases matches.len(),
{
    if matches.len() == 0 {
        Seq::empty()
    } else {
        tags_of_matches(matches.drop_last()) + tags_of_captures(matches.last())
    }
}

/// Adds the tags that captured comments declare to `tags`.
pub fn push_tags(captures: &Vec<Capture>, tags: &mut Vec<Tag>)
    ensures
        final(tags).deep_view() == old(tags).deep_view() + tags_of_captures(captures.deep_view()),
{
    let ghost all = captures.deep_view();
    let ghost before = tags.deep_view();
    let mut i: usize = 0;
    proof {
        assert(all.take(0) =~= Seq::<CaptureView>::empty());
        assert(before + Seq::<TagView>::empty() =~= before);
    }
    while i < captures.len()
        invariant
            i <= captures.len(),
            all == captures.deep_view(),
            tags.deep_view() == before + tags_of_captures(all.take(i as int)),
        decreases captures.len() - i,
    {
        let capture = &captures[i];
        let ghost held = tags.deep_view();
        proof {
            assert(all.take(i + 1).drop_last() =~= all.take(i as int));
            assert(all.take(i + 1).last() == capture@);
        }
        if let Some(mut tag) = get_tag(capture.text.as_str()) {
            if tag.end <= usize::MAX - capture.start.column {
                tag.start = tag.start + capture.start.column;
                tag.end = tag.end + capture.start.column;
                tag.line = capture.start.row;
                let ghost shifted = tag@;
                tags.push(tag);
                proof {
                    assert(tags.deep_view() =~= held.push(shifted));
                    assert(held.push(shifted) =~= before + tags_of_captures(
                        all.take(i as int),
                    ).push(shifted));
                }
            }
        }
        i += 1;
    }
    proof {
        assert(all.take(i as int) =~= all);
    }
}

/// Collects the tags that the captured comments of the matches declare.
pub fn tags_from_captures(matches: &Vec<Vec<Capture>>) -> (tags: Vec<Tag>)
    ensures
        tags.deep_view() == tags_of_matches(matches.deep_view()),
{
    let ghost all = matches.deep_view();
    let mut tags: Vec<Tag> = Vec::new();
    let mut i: usize = 0;
    proof {
        assert(all.take(0) =~= Seq::<Seq<CaptureView>>::empty());
        assert(tags.deep_view() =~= Seq::<TagView>::empty());
    }
    while i < matches.len()
        invariant
            i <= matches.len(),
            all == matches.deep_view(),
            tags.deep_view() == tags_of_matches(all.take(i as int)),
        decreases matches.len() - i,
    {
        proof {
            assert(all.take(i + 1).drop_last() =~= all.take(i as int));
            assert(all.take(i + 1).last() == matches[i as int].deep_view());
        }
        push_tags(&matches[i], &mut tags);
        i += 1;
    }
    proof {
        assert(all.take(i as int) =~= all);
    }
    tags
}

/// The tags that the comments within `node` declare, where `node` is of a
/// tree of the kind's grammar and `source` reaches to its end; none
/// otherwise.
pub open spec fn tags_within(kind: HtmxQuery, node: Node<'_>, source: Seq<char>) -> Seq<TagView> {
    if grammar_of(node) == Some(kind.grammar()) && end_byte_of(node) <= bytes_of(source).len() {
        match compiled(kind.grammar(), kind.pattern()) {
            Some(query) => tags_of_matches(matches_of(query, node, source)),
            None => Seq::empty(),
        }
    } else {
        Seq::empty()
    }
}

/// Finds the tags that the comments within `element` declare.
pub fn query_tag(element: Node<'_>, source: &str, queries: &Queries, kind: HtmxQuery) -> (tags: Vec<
    Tag,
>)
    ensures
        tags.deep_view() == tags_within(kind, element, source@),
{
    let grammar = match kind {
        HtmxQuery::JavaScript => LangType::JavaScript,
        HtmxQuery::Backend => LangType::Backend,
    };
    let query = queries.get(kind);
    if !node_parsed_as(element, grammar) || node_end_byte(element) > source.as_bytes().len() {
        let tags: Vec<Tag> = Vec::new();
        return tags;
    }
    let matches = matches_in(query, element, source);
    tags_from_captures(&matches)
}

} // verus!
