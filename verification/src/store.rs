//! The concurrent maps of dashmap that hold the project's state, as far as
//! the library reads and fills them.
//!
//! A map stays opaque; what it holds has a name, and the contracts below
//! say over that name what each call does. None of these contracts is
//! proved. The library owns its maps, so a call that changes one takes it
//! by exclusive reference.

use vstd::prelude::*;
use dashmap::DashMap;
use ropey::Rope;
use tree_sitter::Tree;
use crate::htmx_tags::{Tag, TagView};
use crate::init_hx::LangType;

verus! {

/// `dashmap::DashMap`: a concurrent map.
#[verifier::external_type_specification]
#[verifier::external_body]
#[verifier::reject_recursive_types(K)]
#[verifier::reject_recursive_types(V)]
#[verifier::reject_recursive_types(S)]
pub struct ExDashMap<K, V, S>(DashMap<K, V, S>);

/// `ropey::Rope`: the text of a document.
#[verifier::external_type_specification]
#[verifier::external_body]
pub struct ExRope(Rope);

/// The file identifiers that the map holds, by URI.
pub uninterp spec fn ids_of(map: DashMap<String, usize>) -> Map<Seq<char>, usize>;

/// The tags that the map holds, by key.
pub uninterp spec fn tags_of(map: DashMap<String, Tag>) -> Map<Seq<char>, TagView>;

/// The syntax trees that the map holds with their classifications, by file
/// identifier.
pub uninterp spec fn trees_of(map: DashMap<usize, (Tree, LangType)>) -> Map<
    usize,
    (Tree, LangType),
>;

/// The texts of the documents that the map holds, by URI.
pub uninterp spec fn texts_of(map: DashMap<String, Rope>) -> Map<Seq<char>, Seq<char>>;

/// Calls `DashMap::new`: the new map is empty.
#[verifier::external_body]
pub(crate) fn ids_new() -> (map: DashMap<String, usize>)
    ensures
        ids_of(map) =~= Map::empty(),
{
    DashMap::new()
}

/// Calls `DashMap::clear`: the map is empty afterwards.
#[verifier::external_body]
pub(crate) fn ids_clear(map: &mut DashMap<String, usize>)
    ensures
        ids_of(*final(map)) =~= Map::empty(),
{
    map.clear()
}

/// Calls `DashMap::get` and copies the value out.
#[verifier::external_body]
pub(crate) fn ids_get(map: &DashMap<String, usize>, key: &String) -> (value: Option<usize>)
    ensures
        value == if ids_of(*map).contains_key(key@) {
            Some(ids_of(*map)[key@])
        } else {
            None
        },
{
    map.get(key).map(|entry| *entry)
}

/// Calls `DashMap::insert`: the key holds the value afterwards, the other
/// keys what they held.
#[verifier::external_body]
pub(crate) fn ids_insert(map: &mut DashMap<String, usize>, key: String, value: usize)
    ensures
        ids_of(*final(map)) == ids_of(*old(map)).insert(key@, value),
{
    map.insert(key, value);
}

/// Walks `DashMap::iter` and hands out each entry once, in the order of
/// the walk, of which nothing is said.
#[verifier::external_body]
pub(crate) fn ids_entries(map: &DashMap<String, usize>) -> (entries: Vec<(String, usize)>)
    ensures
        forall|i: int|
            0 <= i < entries.len() ==> ids_of(*map).contains_pair(
                (#[trigger] entries[i]).0@,
                entries[i].1,
            ),
        forall|key: Seq<char>| #[trigger]
            ids_of(*map).contains_key(key) ==> exists|i: int|
                0 <= i < entries.len() && (#[trigger] entries[i]).0@ == key,
        forall|i: int, j: int|
            0 <= i < j < entries.len() ==> (#[trigger] entries[i]).0@ != (#[trigger] entries[j]).0@,
{
    map.iter().map(|entry| (entry.key().clone(), *entry.value())).collect()
}

/// Calls `DashMap::new`: the new map is empty.
#[verifier::external_body]
pub(crate) fn tags_new() -> (map: DashMap<String, Tag>)
    ensures
        tags_of(map) =~= Map::empty(),
{
    DashMap::new()
}

/// Calls `DashMap::clear`: the map is empty afterwards.
#[verifier::external_body]
pub(crate) fn tags_clear(map: &mut DashMap<String, Tag>)
    ensures
        tags_of(*final(map)) =~= Map::empty(),
{
    map.clear()
}

/// Calls `DashMap::contains_key`.
#[verifier::external_body]
pub(crate) fn tags_contains_key(map: &DashMap<String, Tag>, key: &String) -> (found: bool)
    ensures
        found == tags_of(*map).contains_key(key@),
{
    map.contains_key(key)
}

/// Calls `DashMap::get` and copies the tag out.
#[verifier::external_body]
pub(crate) fn tags_get(map: &DashMap<String, Tag>, key: &String) -> (tag: Option<Tag>)
    ensures
        tag.deep_view() == if tags_of(*map).contains_key(key@) {
            Some(tags_of(*map)[key@])
        } else {
            None
        },
{
    map.get(key).map(|entry| entry.value().clone())
}

/// Calls `DashMap::insert`: the key holds the tag afterwards, the other
/// keys what they held.
#[verifier::external_body]
pub(crate) fn tags_insert(map: &mut DashMap<String, Tag>, key: String, tag: Tag)
    ensures
        tags_of(*final(map)) == tags_of(*old(map)).insert(key@, tag@),
{
    map.insert(key, tag);
}

/// Calls `DashMap::remove`: the key holds nothing afterwards, the other
/// keys what they held.
#[verifier::external_body]
pub(crate) fn tags_remove(map: &mut DashMap<String, Tag>, key: &String)
    ensures
        tags_of(*final(map)) == tags_of(*old(map)).remove(key@),
{
    map.remove(key);
}

/// Walks `DashMap::iter` and hands out each key once with the file of its
/// tag, in the order of the walk, of which nothing is said.
#[verifier::external_body]
pub(crate) fn tags_files(map: &DashMap<String, Tag>) -> (entries: Vec<(String, usize)>)
    ensures
        forall|i: int|
            0 <= i < entries.len() ==> tags_of(*map).contains_key((#[trigger] entries[i]).0@)
                && tags_of(*map)[entries[i].0@].file == entries[i].1,
        forall|key: Seq<char>| #[trigger]
            tags_of(*map).contains_key(key) ==> exists|i: int|
                0 <= i < entries.len() && (#[trigger] entries[i]).0@ == key,
{
    map.iter().map(|entry| (entry.key().clone(), entry.value().file)).collect()
}

/// Calls `DashMap::new`: the new map is empty.
#[verifier::external_body]
pub(crate) fn trees_new() -> (map: DashMap<usize, (Tree, LangType)>)
    ensures
        trees_of(map) =~= Map::empty(),
{
    DashMap::new()
}

/// Calls `DashMap::clear`: the map is empty afterwards.
#[verifier::external_body]
pub(crate) fn trees_clear(map: &mut DashMap<usize, (Tree, LangType)>)
    ensures
        trees_of(*final(map)) =~= Map::empty(),
{
    map.clear()
}

/// Calls `DashMap::get` and copies the tree and its classification out.
#[verifier::external_body]
pub(crate) fn trees_get(map: &DashMap<usize, (Tree, LangType)>, index: usize) -> (entry: Option<
    (Tree, LangType),
>)
    ensures
        entry == if trees_of(*map).contains_key(index) {
            Some(trees_of(*map)[index])
        } else {
            None
        },
{
    map.get(&index).map(|entry| entry.value().clone())
}

/// Calls `DashMap::insert`: the identifier holds the tree afterwards, the
/// other identifiers what they held.
#[verifier::external_body]
pub(crate) fn trees_insert(
    map: &mut DashMap<usize, (Tree, LangType)>,
    index: usize,
    tree: Tree,
    lang_type: LangType,
)
    ensures
        trees_of(*final(map)) == trees_of(*old(map)).insert(index, (tree, lang_type)),
{
    map.insert(index, (tree, lang_type));
}

/// Calls `DashMap::get` and writes the rope out as a string.
#[verifier::external_body]
pub(crate) fn document_text(map: &DashMap<String, Rope>, uri: &String) -> (text: Option<String>)
    ensures
        text.deep_view() == if texts_of(*map).contains_key(uri@) {
            Some(texts_of(*map)[uri@])
        } else {
            None
        },
{
    map.get(uri).map(|entry| entry.value().to_string())
}

/// Makes a rope of the text with `Rope::from_str` and calls
/// `DashMap::insert`: the URI holds the text afterwards, the other URIs
/// what they held.
#[verifier::external_body]
pub(crate) fn texts_insert(map: &mut DashMap<String, Rope>, uri: String, text: &str)
    ensures
        texts_of(*final(map)) == texts_of(*old(map)).insert(uri@, text@),
{
    map.insert(uri, Rope::from_str(text));
}

} // verus!
