//! Tags: the `hx@` markers of backend comments, and the tokens of an
//! attribute value that refer to them.

use vstd::prelude::*;
use vstd::string::StrSliceExecFns;
use crate::position::{Point, PositionDefinition};
use crate::text::{
    byte_offsets, bytes_of, chars_of, find, find_from, find_in, lemma_bytes_concat,
    lemma_bytes_of_prefix, lemma_find_from, occurs_at, space_between, split, split_from,
};

verus! {

/// A tag with its span in a line and the file that declares it.
///
/// `start` and `end` are the byte columns of the first and the last byte of
/// the tag.
#[derive(Debug)]
pub struct Tag {
    pub name: String,
    pub start: usize,
    pub end: usize,
    pub file: usize,
    pub line: usize,
}

pub struct TagView {
    pub name: Seq<char>,
    pub start: usize,
    pub end: usize,
    pub file: usize,
    pub line: usize,
}

impl View for Tag {
    type V = TagView;

    open spec fn view(&self) -> TagView {
        TagView {
            name: self.name@,
            start: self.start,
            end: self.end,
            file: self.file,
            line: self.line,
        }
    }
}

impl DeepView for Tag {
    type V = TagView;

    open spec fn deep_view(&self) -> TagView {
        self@
    }
}

impl Clone for Tag {
    fn clone(&self) -> (copy: Self)
        ensures
            copy@ == self@,
    {
        Tag {
            name: self.name.clone(),
            start: self.start,
            end: self.end,
            file: self.file,
            line: self.line,
        }
    }
}

impl Tag {
    pub fn set_file(&mut self, index: usize)
        ensures
            final(self)@ == (TagView { file: index, ..old(self)@ }),
    {
        self.file = index;
    }

    pub fn set_line(&mut self, line: usize)
        ensures
            final(self)@ == (TagView { line, ..old(self)@ }),
    {
        self.line = line;
    }
}

/// What marks a tag.
pub open spec fn marker() -> Seq<char> {
    seq!['h', 'x', '@']
}

/// What parts tokens.
pub open spec fn space() -> Seq<char> {
    seq![' ']
}

/// Where the piece behind the marker at `at` ends: at the next marker, or
/// at the end of the line.
pub open spec fn piece_end(line: Seq<char>, at: int) -> int {
    match find_from(line, marker(), at + 3) {
        Some(next) => next,
        None => line.len() as int,
    }
}

/// Whether a tag stands at `at`: the marker stands there, and the piece
/// behind it, the identifier, holds no space.
pub open spec fn tag_at(line: Seq<char>, at: int) -> bool {
    occurs_at(line, marker(), at) && !line.subrange(at + 3, piece_end(line, at)).contains(' ')
}

/// The first index at or after `from` at which a tag stands.
pub open spec fn first_tag(line: Seq<char>, from: int) -> Option<int>
    decreases line.len() - from,
{
    if from < 0 || from + 3 > line.len() {
        None
    } else if tag_at(line, from) {
        Some(from)
    } else {
        first_tag(line, from + 1)
    }
}

/// The tag of a line: the first marker `hx@` with an identifier without a
/// space behind it. The identifier runs to the next marker or to the end of
/// the line. The tag's name is the marker with the identifier, its columns
/// are the byte offsets of the name's first and last byte. What stands
/// before the first marker is no part of any tag.
pub open spec fn tag_in_line(line: Seq<char>) -> Option<TagView> {
    match first_tag(line, 0) {
        Some(at) => {
            let name = line.subrange(at, piece_end(line, at));
            let start = bytes_of(line.take(at)).len();
            Some(
                TagView {
                    name,
                    start: start as usize,
                    end: (start + bytes_of(name).len() - 1) as usize,
                    file: 0,
                    line: 0,
                },
            )
        },
        None => None,
    }
}

/// No tag stands where no marker stands.
proof fn lemma_no_tag_before(line: Seq<char>, from: int, at: int)
    requires
        0 <= from <= at,
        at + 3 <= line.len(),
        forall|j: int| from <= j < at ==> !occurs_at(line, marker(), j),
    ensures
        first_tag(line, from) == first_tag(line, at),
    decreases at - from,
{
    if from < at {
        lemma_no_tag_before(line, from + 1, at);
    }
}

/// No tag stands behind the last marker.
proof fn lemma_no_tag_behind(line: Seq<char>, from: int)
    requires
        0 <= from,
        forall|j: int| from <= j ==> !occurs_at(line, marker(), j),
    ensures
        first_tag(line, from) is None,
    decreases line.len() - from,
{
    if from + 3 <= line.len() {
        lemma_no_tag_behind(line, from + 1);
    }
}

/// Finds the first tag at or after `from`: where it stands and where its
/// identifier ends.
fn find_tag(text: &Vec<char>, pattern: &Vec<char>, from: usize) -> (found: Option<(usize, usize)>)
    requires
        pattern@ == marker(),
    ensures
        match found {
            Some((at, end)) => {
                &&& first_tag(text@, from as int) == Some(at as int)
                &&& occurs_at(text@, marker(), at as int)
                &&& end == piece_end(text@, at as int)
                &&& at + 3 <= end <= text.len()
            },
            None => first_tag(text@, from as int) is None,
        },
    decreases text.len() - from,
{
    proof {
        lemma_find_from(text@, marker(), from as int);
    }
    let at = match find_in(text, pattern, from) {
        Some(at) => at,
        None => {
            proof {
                lemma_no_tag_behind(text@, from as int);
            }
            return None;
        },
    };
    proof {
        lemma_no_tag_before(text@, from as int, at as int);
        lemma_find_from(text@, marker(), at + 3);
    }
    let end = match find_in(text, pattern, at + 3) {
        Some(next) => next,
        None => text.len(),
    };
    if !space_between(text, at + 3, end) {
        return Some((at, end));
    }
    find_tag(text, pattern, at + 1)
}

/// Finds the tag of a line.
pub fn get_tag(line: &str) -> (found: Option<Tag>)
    ensures
        found.deep_view() == tag_in_line(line@),
        match found {
            Some(tag) => tag.start + 2 <= tag.end,
            None => true,
        },
{
    let chars = chars_of(line);
    let offsets = byte_offsets(line, &chars);
    let mut pattern: Vec<char> = Vec::new();
    pattern.push('h');
    pattern.push('x');
    pattern.push('@');
    proof {
        assert(pattern@ =~= marker());
    }
    let (at, end) = match find_tag(&chars, &pattern, 0) {
        Some(span) => span,
        None => { return None; },
    };
    proof {
        let name = line@.subrange(at as int, end as int);
        lemma_bytes_of_prefix(line@, at as int, end as int);
        lemma_bytes_of_prefix(name, 0, 3);
        assert(name.take(0) =~= Seq::<char>::empty());
        assert(line@.subrange(at as int, at + 3) == marker());
        assert(name.subrange(0, 3) =~= line@.subrange(at as int, at + 3));
        lemma_marker_bytes();
    }
    let name = line.substring_char(at, end).to_owned();
    Some(Tag { name, start: offsets[at], end: offsets[end] - 1, file: 0, line: 0 })
}

/// The marker takes three bytes.
proof fn lemma_marker_bytes()
    ensures
        bytes_of(marker()).len() == 3,
{
    vstd::utf8::is_ascii_chars_encode_utf8(marker());
}

/// Whether the cursor column lies within the tag.
pub open spec fn covers(tag: TagView, column: usize) -> bool {
    tag.start <= column <= tag.end
}

/// The tag of a line, if the cursor is on it.
pub fn in_tag(line: &str, point: Point) -> (found: Option<Tag>)
    ensures
        found.deep_view() == match tag_in_line(line@) {
            Some(tag) => if covers(tag, point.column) {
                Some(tag)
            } else {
                None
            },
            None => None,
        },
{
    if let Some(tag) = get_tag(line) {
        if point.column >= tag.start && point.column <= tag.end {
            return Some(tag);
        }
    }
    None
}

/// Whether the columns of the tokens can be counted, the first token
/// starting at column `start`: no token ends before column 0, and the column
/// behind each token's space is a machine integer.
spec fn columns_fit(pieces: Seq<Seq<char>>, start: int) -> bool
    decreases pieces.len(),
{
    if pieces.len() == 0 {
        true
    } else {
        let width = bytes_of(pieces[0]).len();
        start + width >= 1 && start + width + 1 <= usize::MAX && columns_fit(
            pieces.drop_first(),
            start + width + 1,
        )
    }
}

/// A space takes one byte.
proof fn lemma_space_bytes()
    ensures
        bytes_of(space()).len() == 1,
{
    vstd::utf8::is_ascii_chars_encode_utf8(space());
}

/// The columns of the tokens of `text` from `from` on can be counted just
/// when the first token does not end before column 0 and the column behind
/// the text is a machine integer.
proof fn lemma_columns_fit(text: Seq<char>, from: int, start: int)
    requires
        0 <= from <= text.len(),
        0 <= start,
    ensures
        columns_fit(split_from(text, space(), from), start) <==> start + bytes_of(
            split_from(text, space(), from)[0],
        ).len() >= 1 && start + bytes_of(text.subrange(from, text.len() as int)).len() + 1
            <= usize::MAX,
    decreases text.len() - from,
{
    let pieces = split_from(text, space(), from);
    let rest = text.subrange(from, text.len() as int);
    lemma_find_from(text, space(), from);
    match find_from(text, space(), from) {
        Some(at) => {
            let tail = text.subrange(at + 1, text.len() as int);
            assert(pieces.drop_first() =~= split_from(text, space(), at + 1));
            assert(rest =~= pieces[0] + space() + tail);
            lemma_bytes_concat(pieces[0] + space(), tail);
            lemma_bytes_concat(pieces[0], space());
            lemma_space_bytes();
            let width = bytes_of(pieces[0]).len();
            assert(bytes_of(rest).len() == width + 1 + bytes_of(tail).len());
            lemma_columns_fit(text, at + 1, start + width + 1);
            assert(columns_fit(pieces, start) == (start + width >= 1 && start + width + 1
                <= usize::MAX && columns_fit(pieces.drop_first(), start + width + 1)));
        },
        None => {
            assert(pieces.drop_first() =~= Seq::<Seq<char>>::empty());
            assert(rest == pieces[0]);
            assert(columns_fit(pieces.drop_first(), start + bytes_of(pieces[0]).len() + 1));
        },
    }
}

/// The tokens as tags, the first starting at column `start`, each with the
/// columns of its first and last byte, and one column between two tokens.
pub open spec fn tags_of_pieces(pieces: Seq<Seq<char>>, start: int, line: usize) -> Seq<TagView>
    decreases pieces.len(),
{
    if pieces.len() == 0 {
        Seq::empty()
    } else {
        let width = bytes_of(pieces[0]).len();
        seq![
            TagView {
                name: pieces[0],
                start: start as usize,
                end: (start + width - 1) as usize,
                file: 0,
                line,
            },
        ] + tags_of_pieces(pieces.drop_first(), start + width + 1, line)
    }
}

/// The tags that an attribute value names: its tokens between single
/// spaces. There are none where the value starts with a space or holds two
/// spaces in a row, and none where the columns cannot be counted: where an
/// empty value starts at column 0, so that its one empty token would end
/// before it, or where the column behind the value is no machine integer.
pub open spec fn tags_in_value(value: Seq<char>, start_char: usize, line: usize) -> Option<
    Seq<TagView>,
> {
    if (value.len() > 0 && value[0] == ' ') || find(value, space() + space()) is Some {
        None
    } else if (value.len() == 0 && start_char == 0) || start_char + bytes_of(value).len() + 1
        > usize::MAX {
        None
    } else {
        Some(tags_of_pieces(split(value, space()), start_char as int, line))
    }
}

/// Adds the tokens of `text` from index `from` on to `tags`, and says
/// whether their columns fit.
fn push_tokens(
    value: &str,
    text: &Vec<char>,
    offsets: &Vec<usize>,
    pattern: &Vec<char>,
    from: usize,
    start: usize,
    line: usize,
    tags: &mut Vec<Tag>,
) -> (fit: bool)
    requires
        text@ == value@,
        from <= text.len(),
        pattern@ == space(),
        offsets.len() == text.len() + 1,
        forall|i: int| 0 <= i <= text.len() ==> offsets[i] == bytes_of(text@.take(i)).len(),
    ensures
        fit == columns_fit(split_from(text@, pattern@, from as int), start as int),
        fit ==> final(tags).deep_view() == old(tags).deep_view() + tags_of_pieces(
            split_from(text@, pattern@, from as int),
            start as int,
            line,
        ),
    decreases text.len() - from,
{
    let next = find_in(text, pattern, from);
    let to = match next {
        Some(at) => at,
        None => text.len(),
    };
    proof {
        lemma_bytes_of_prefix(text@, from as int, to as int);
    }
    let width = offsets[to] - offsets[from];
    let ghost pieces = split_from(text@, pattern@, from as int);
    if width > usize::MAX - start || start + width == 0 || start + width == usize::MAX {
        return false;
    }
    let ghost first = TagView {
        name: pieces[0],
        start,
        end: (start + width - 1) as usize,
        file: 0,
        line,
    };
    let name = value.substring_char(from, to).to_owned();
    tags.push(Tag { name, start, end: start + width - 1, file: 0, line });
    proof {
        assert(tags_of_pieces(pieces, start as int, line) == seq![first] + tags_of_pieces(
            pieces.drop_first(),
            start + width + 1,
            line,
        ));
    }
    match next {
        Some(at) => {
            proof {
                assert(pieces.drop_first() =~= split_from(text@, pattern@, at + 1));
            }
            push_tokens(value, text, offsets, pattern, at + 1, start + width + 1, line, tags)
        },
        None => {
            proof {
                assert(columns_fit(pieces.drop_first(), start + width + 1));
            }
            true
        },
    }
}

/// The first token of a value is empty just when the value is empty or
/// starts with a space.
proof fn lemma_first_token(value: Seq<char>)
    ensures
        bytes_of(split(value, space())[0]).len() == 0 <==> value.len() == 0 || value[0] == ' ',
{
    let first = split(value, space())[0];
    lemma_find_from(value, space(), 0);
    if first.len() > 0 {
        assert(first[0] == value[0]);
        lemma_bytes_of_prefix(first, 0, 1);
        assert(first.subrange(0, 1) =~= seq![first[0]]);
        vstd::utf8::encode_utf8_first_scalar(seq![first[0]]);
        if first[0] == ' ' {
            assert(value.subrange(0, 1) =~= space());
        }
    } else {
        if value.len() > 0 {
            assert(value.subrange(0, 1) == space());
            assert(value.subrange(0, 1)[0] == ' ');
        }
    }
}

/// Splits an attribute value into the tags that it names.
pub fn get_tags(value: &str, start_char: usize, line: usize) -> (found: Option<Vec<Tag>>)
    ensures
        found.deep_view() == tags_in_value(value@, start_char, line),
{
    let chars = chars_of(value);
    let mut pattern: Vec<char> = Vec::new();
    pattern.push(' ');
    pattern.push(' ');
    proof {
        assert(pattern@ =~= space() + space());
    }
    if (chars.len() > 0 && chars[0] == ' ') || find_in(&chars, &pattern, 0).is_some() {
        return None;
    }
    pattern.pop();
    proof {
        assert(pattern@ =~= space());
    }
    let offsets = byte_offsets(value, &chars);
    let mut tags: Vec<Tag> = Vec::new();
    proof {
        lemma_columns_fit(value@, 0, start_char as int);
        lemma_first_token(value@);
        assert(value@.subrange(0, value@.len() as int) =~= value@);
    }
    if push_tokens(value, &chars, &offsets, &pattern, 0, start_char, line, &mut tags) {
        Some(tags)
    } else {
        None
    }
}

/// The first of the tags that the cursor column lies within.
pub open spec fn first_covering(tags: Seq<TagView>, column: usize) -> Option<TagView>
    decreases tags.len(),
{
    if tags.len() == 0 {
        None
    } else if covers(tags[0], column) {
        Some(tags[0])
    } else {
        first_covering(tags.drop_first(), column)
    }
}

/// The tag of an attribute value that the cursor is on.
pub fn in_tags(value: &str, definition: PositionDefinition) -> (found: Option<Tag>)
    ensures
        found.deep_view() == match tags_in_value(value@, definition.start, definition.line) {
            Some(tags) => first_covering(tags, definition.point.column),
            None => None,
        },
{
    if let Some(tags) = get_tags(value, definition.start, definition.line) {
        let ghost all = tags.deep_view();
        let mut i: usize = 0;
        proof {
            assert(all.skip(0) =~= all);
        }
        while i < tags.len()
            invariant
                i <= tags.len(),
                all == tags.deep_view(),
                tags_in_value(value@, definition.start, definition.line) == Some(all),
                first_covering(all, definition.point.column) == first_covering(
                    all.skip(i as int),
                    definition.point.column,
                ),
            decreases tags.len() - i,
        {
            let tag = &tags[i];
            proof {
                assert(all.skip(i as int).drop_first() =~= all.skip(i + 1));
            }
            if definition.point.column >= tag.start && definition.point.column <= tag.end {
                return Some(tag.clone());
            }
            i += 1;
        }
    }
    None
}

} // verus!
