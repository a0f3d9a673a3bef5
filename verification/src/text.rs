//! Searching and splitting text, character by character, with the byte
//! offsets that columns are counted in.

use vstd::prelude::*;
use vstd::utf8::*;

verus! {

/// The UTF-8 bytes of `s`.
pub open spec fn bytes_of(s: Seq<char>) -> Seq<u8> {
    encode_utf8(s)
}

/// Two texts with the same UTF-8 bytes are the same text.
pub proof fn lemma_bytes_determine_text(a: Seq<char>, b: Seq<char>)
    requires
        bytes_of(a) == bytes_of(b),
    ensures
        a == b,
{
    encode_utf8_decode_utf8(a);
    encode_utf8_decode_utf8(b);
}

/// The bytes of two texts in a row are the bytes of the first, then those
/// of the second.
pub proof fn lemma_bytes_concat(a: Seq<char>, b: Seq<char>)
    ensures
        bytes_of(a + b) == bytes_of(a) + bytes_of(b),
    decreases a.len(),
{
    if a.len() == 0 {
    } else {
        lemma_bytes_concat(a.drop_first(), b);
        assert((a + b).drop_first() =~= a.drop_first() + b);
    }
}

/// The bytes of a text are at least as many as those of its beginning.
pub proof fn lemma_bytes_of_prefix(s: Seq<char>, i: int, j: int)
    requires
        0 <= i <= j <= s.len(),
    ensures
        bytes_of(s.take(j)).len() == bytes_of(s.take(i)).len() + bytes_of(s.subrange(i, j)).len(),
        bytes_of(s.take(j)).len() <= bytes_of(s).len(),
{
    assert(s.take(j) =~= s.take(i) + s.subrange(i, j));
    lemma_bytes_concat(s.take(i), s.subrange(i, j));
    assert(s =~= s.take(j) + s.skip(j));
    lemma_bytes_concat(s.take(j), s.skip(j));
}

/// Whether two string slices hold the same text.
pub fn same_text(a: &str, b: &str) -> (same: bool)
    ensures
        same == (a@ == b@),
{
    let x = a.as_bytes();
    let y = b.as_bytes();
    if x.len() != y.len() {
        return false;
    }
    let mut i: usize = 0;
    while i < x.len()
        invariant
            i <= x.len(),
            x.len() == y.len(),
            x@ == bytes_of(a@),
            y@ == bytes_of(b@),
            forall|k: int| 0 <= k < i ==> x@[k] == y@[k],
        decreases x.len() - i,
    {
        if x[i] != y[i] {
            return false;
        }
        i += 1;
    }
    proof {
        assert(x@ =~= y@);
        lemma_bytes_determine_text(a@, b@);
    }
    true
}

/// The characters of the text.
pub fn chars_of(s: &str) -> (chars: Vec<char>)
    ensures
        chars@ == s@,
{
    let mut chars: Vec<char> = Vec::new();
    for c in it: s.chars()
        invariant
            chars@ == it.seq().take(it.index() as int),
            it.seq() == s@,
    {
        chars.push(c);
    }
    chars
}

/// The number of bytes that encode the character.
pub fn utf8_width(c: char) -> (width: usize)
    ensures
        width == bytes_of(seq![c]).len(),
        1 <= width <= 4,
{
    proof {
        char_is_scalar(c);
        reveal_with_fuel(encode_utf8, 2);
    }
    let v = c as u32;
    if v <= 0x7F {
        1
    } else if v <= 0x7FF {
        2
    } else if v <= 0xFFFF {
        3
    } else {
        4
    }
}

/// For each index into the characters of the text, the number of bytes
/// before it.
pub fn byte_offsets(text: &str, chars: &Vec<char>) -> (offsets: Vec<usize>)
    requires
        chars@ == text@,
    ensures
        offsets.len() == chars.len() + 1,
        forall|i: int| 0 <= i <= chars.len() ==> offsets[i] == bytes_of(chars@.take(i)).len(),
{
    let total = text.as_bytes().len();
    let mut offsets: Vec<usize> = Vec::new();
    offsets.push(0);
    let mut i: usize = 0;
    let mut at: usize = 0;
    while i < chars.len()
        invariant
            i <= chars.len(),
            offsets.len() == i + 1,
            at == bytes_of(chars@.take(i as int)).len(),
            bytes_of(chars@).len() == total,
            forall|k: int| 0 <= k <= i ==> offsets[k] == bytes_of(chars@.take(k)).len(),
        decreases chars.len() - i,
    {
        let width = utf8_width(chars[i]);
        proof {
            lemma_bytes_of_prefix(chars@, i as int, i + 1);
            assert(chars@.subrange(i as int, i + 1) =~= seq![chars@[i as int]]);
        }
        at = at + width;
        offsets.push(at);
        i += 1;
    }
    offsets
}

/// Whether `pattern` stands in `text` at index `at`.
pub open spec fn occurs_at(text: Seq<char>, pattern: Seq<char>, at: int) -> bool {
    0 <= at && at + pattern.len() <= text.len() && text.subrange(at, at + pattern.len())
        == pattern
}

/// The first index at or after `from` at which `pattern` stands in `text`.
pub open spec fn find_from(text: Seq<char>, pattern: Seq<char>, from: int) -> Option<int>
    decreases text.len() + 1 - from,
{
    if from < 0 || from + pattern.len() > text.len() {
        None
    } else if occurs_at(text, pattern, from) {
        Some(from)
    } else {
        find_from(text, pattern, from + 1)
    }
}

/// The first index at which `pattern` stands in `text`.
pub open spec fn find(text: Seq<char>, pattern: Seq<char>) -> Option<int> {
    find_from(text, pattern, 0)
}

/// What `find_from` finds is the first occurrence at or after `from`, and
/// it finds one where there is one.
pub proof fn lemma_find_from(text: Seq<char>, pattern: Seq<char>, from: int)
    requires
        0 <= from,
    ensures
        match find_from(text, pattern, from) {
            Some(at) => from <= at && occurs_at(text, pattern, at) && forall|j: int|
                from <= j < at ==> !occurs_at(text, pattern, j),
            None => forall|j: int| from <= j ==> !occurs_at(text, pattern, j),
        },
    decreases text.len() + 1 - from,
{
    if from + pattern.len() > text.len() {
    } else if occurs_at(text, pattern, from) {
    } else {
        lemma_find_from(text, pattern, from + 1);
    }
}

/// Whether `pattern` stands in `text` at index `at`.
pub fn stands_at(text: &Vec<char>, pattern: &Vec<char>, at: usize) -> (found: bool)
    ensures
        found == occurs_at(text@, pattern@, at as int),
{
    if pattern.len() > text.len() || at > text.len() - pattern.len() {
        return false;
    }
    let mut k: usize = 0;
    while k < pattern.len()
        invariant
            k <= pattern.len(),
            at + pattern.len() <= text.len(),
            forall|j: int| 0 <= j < k ==> text@[at + j] == pattern@[j],
        decreases pattern.len() - k,
    {
        if text[at + k] != pattern[k] {
            proof {
                let part = text@.subrange(at as int, at + pattern.len());
                assert(part[k as int] != pattern@[k as int]);
            }
            return false;
        }
        k += 1;
    }
    proof {
        assert(text@.subrange(at as int, at + pattern.len()) =~= pattern@);
    }
    true
}

/// Finds the first occurrence of `pattern` in `text` at or after `from`.
pub fn find_in(text: &Vec<char>, pattern: &Vec<char>, from: usize) -> (found: Option<usize>)
    ensures
        match found {
            Some(at) => find_from(text@, pattern@, from as int) == Some(at as int) && from <= at
                && at + pattern.len() <= text.len(),
            None => find_from(text@, pattern@, from as int) is None,
        },
{
    if pattern.len() > text.len() {
        return None;
    }
    let last = text.len() - pattern.len();
    let mut i: usize = from;
    while i <= last
        invariant
            from <= i,
            last + pattern.len() == text.len(),
            find_from(text@, pattern@, from as int) == find_from(text@, pattern@, i as int),
        decreases last + 1 - i,
    {
        if stands_at(text, pattern, i) {
            return Some(i);
        }
        if i == last {
            proof {
                assert(find_from(text@, pattern@, i + 1) is None);
            }
            return None;
        }
        i += 1;
    }
    None
}

/// The pieces of `text` from index `from` on that lie between the
/// occurrences of `pattern`, found one after the other from the left.
pub open spec fn split_from(text: Seq<char>, pattern: Seq<char>, from: int) -> Seq<Seq<char>>
    decreases text.len() - from,
{
    match find_from(text, pattern, from) {
        Some(at) => if pattern.len() > 0 && from <= at && at + pattern.len() <= text.len() {
            seq![text.subrange(from, at)] + split_from(text, pattern, at + pattern.len())
        } else {
            seq![text.subrange(from, text.len() as int)]
        },
        None => seq![text.subrange(from, text.len() as int)],
    }
}

/// The pieces of `text` between the occurrences of `pattern`.
pub open spec fn split(text: Seq<char>, pattern: Seq<char>) -> Seq<Seq<char>> {
    split_from(text, pattern, 0)
}

/// Whether a space stands among the characters from `from` up to `to`.
pub fn space_between(text: &Vec<char>, from: usize, to: usize) -> (found: bool)
    requires
        from <= to <= text.len(),
    ensures
        found == text@.subrange(from as int, to as int).contains(' '),
{
    let ghost part = text@.subrange(from as int, to as int);
    let mut i: usize = from;
    while i < to
        invariant
            from <= i <= to <= text.len(),
            part == text@.subrange(from as int, to as int),
            forall|k: int| 0 <= k < i - from ==> part[k] != ' ',
        decreases to - i,
    {
        if text[i] == ' ' {
            proof {
                assert(part[i - from] == ' ');
            }
            return true;
        }
        i += 1;
    }
    false
}

/// Whether the character is white space: a blank, a tab, a line or page
/// break, or one of the other separators that Unicode counts as white
/// space.
pub open spec fn is_whitespace(c: char) -> bool {
    let code = c as u32;
    ||| 0x09 <= code <= 0x0D
    ||| code == 0x20
    ||| code == 0x85
    ||| code == 0xA0
    ||| code == 0x1680
    ||| 0x2000 <= code <= 0x200A
    ||| code == 0x2028
    ||| code == 0x2029
    ||| code == 0x202F
    ||| code == 0x205F
    ||| code == 0x3000
}

/// Whether the text holds white space.
pub open spec fn holds_whitespace(text: Seq<char>) -> bool {
    exists|i: int| 0 <= i < text.len() && is_whitespace(#[trigger] text[i])
}

/// Whether the character is white space.
pub fn is_blank(c: char) -> (blank: bool)
    ensures
        blank == is_whitespace(c),
{
    let code = c as u32;
    (0x09 <= code && code <= 0x0D) || code == 0x20 || code == 0x85 || code == 0xA0 || code
        == 0x1680 || (0x2000 <= code && code <= 0x200A) || code == 0x2028 || code == 0x2029
        || code == 0x202F || code == 0x205F || code == 0x3000
}

/// Whether the text holds white space.
pub fn has_whitespace(s: &str) -> (found: bool)
    ensures
        found == holds_whitespace(s@),
{
    let chars = chars_of(s);
    let mut i: usize = 0;
    while i < chars.len()
        invariant
            i <= chars.len(),
            chars@ == s@,
            forall|k: int| 0 <= k < i ==> !is_whitespace(#[trigger] chars@[k]),
        decreases chars.len() - i,
    {
        if is_blank(chars[i]) {
            return true;
        }
        i += 1;
    }
    false
}

} // verus!
