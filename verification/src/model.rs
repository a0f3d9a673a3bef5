//! The files of a project as the contracts see them, the steps that change
//! them, and what holds of those steps.

use vstd::prelude::*;
use tree_sitter::Tree;
use crate::config::{extension_of, HtmxConfig};
use crate::diagnostics::{
    distinct_uris, filed, lemma_filed_distinct, warning_at, FileWarningsView, TagLocationView,
};
use crate::htmx_tags::{first_covering, tags_in_value, TagView};
use crate::init_hx::LangType;
use crate::position::PositionDefinition;
use crate::query_helper::{tags_within, HtmxQuery};
use crate::syntax::{parsed, root_of};

verus! {

/// What a project's files are to the contracts: the next identifier to
/// give out, the identifiers by URI, the trees with their classifications
/// by identifier, and the tags by name.
pub struct FilesView {
    pub next: usize,
    pub ids: Map<Seq<char>, usize>,
    pub trees: Map<usize, (Tree, LangType)>,
    pub tags: Map<Seq<char>, TagView>,
}

impl FilesView {
    /// No files, and the first identifier to give out.
    pub open spec fn new() -> FilesView {
        FilesView { next: 0, ids: Map::empty(), trees: Map::empty(), tags: Map::empty() }
    }

    /// No two URIs share an identifier, every identifier given out lies
    /// below the next one, and every tag is held under its own name.
    pub open spec fn wf(self) -> bool {
        &&& forall|a: Seq<char>, b: Seq<char>|
            self.ids.contains_key(a) && self.ids.contains_key(b) && self.ids[a] == self.ids[b]
                ==> a == b
        &&& forall|a: Seq<char>| self.ids.contains_key(a) ==> self.ids[a] < self.next
        &&& forall|name: Seq<char>| self.tags.contains_key(name) ==> self.tags[name].name == name
    }

    /// Registering a URI: a URI that is registered, or one that comes when
    /// the identifiers have run out, changes nothing and gets nothing; any
    /// other gets the next identifier.
    pub open spec fn register(self, uri: Seq<char>) -> (FilesView, Option<usize>) {
        if self.ids.contains_key(uri) || self.next == usize::MAX {
            (self, None)
        } else {
            (
                FilesView {
                    next: (self.next + 1) as usize,
                    ids: self.ids.insert(uri, self.next),
                    ..self
                },
                Some(self.next),
            )
        }
    }

    /// The identifier of a URI.
    pub open spec fn index_of(self, uri: Seq<char>) -> Option<usize> {
        if self.ids.contains_key(uri) {
            Some(self.ids[uri])
        } else {
            None
        }
    }

    /// Whether the URI is registered under the identifier.
    pub open spec fn names(self, uri: Seq<char>, index: usize) -> bool {
        self.ids.contains_key(uri) && self.ids[uri] == index
    }

    /// The URI of an identifier.
    pub open spec fn uri_of(self, index: usize) -> Option<Seq<char>> {
        if exists|uri: Seq<char>| self.names(uri, index) {
            Some(choose|uri: Seq<char>| self.names(uri, index))
        } else {
            None
        }
    }

    /// Dropping the tags that a file declares.
    pub open spec fn without_file(self, file: usize) -> FilesView {
        FilesView {
            tags: Map::new(
                |name: Seq<char>| self.tags.contains_key(name) && self.tags[name].file != file,
                |name: Seq<char>| self.tags[name],
            ),
            ..self
        }
    }

    /// Adding a tag: a tag whose name is taken changes nothing and comes
    /// back; any other is held under its name.
    pub open spec fn with_tag(self, tag: TagView) -> (FilesView, Result<(), TagView>) {
        if self.tags.contains_key(tag.name) {
            (self, Err(tag))
        } else {
            (FilesView { tags: self.tags.insert(tag.name, tag), ..self }, Ok(()))
        }
    }

    /// The tag of a name.
    pub open spec fn tag_named(self, name: Seq<char>) -> Option<TagView> {
        if self.tags.contains_key(name) {
            Some(self.tags[name])
        } else {
            None
        }
    }

    /// Adding the tags of a file one after the other: each is given the file
    /// and added; those whose names are taken are handed back in order.
    pub open spec fn with_tags(self, file: usize, tags: Seq<TagView>) -> (FilesView, Seq<TagView>)
        decreases tags.len(),
    {
        if tags.len() == 0 {
            (self, Seq::empty())
        } else {
            let tag = TagView { file, ..tags[0] };
            let rest = self.with_tag(tag).0.with_tags(file, tags.drop_first());
            if self.tags.contains_key(tag.name) {
                (rest.0, seq![tag] + rest.1)
            } else {
                rest
            }
        }
    }

    /// Replacing the tags of a file: what it declared is dropped, what it
    /// declares now is added, and the tags whose names other files hold, or
    /// an earlier tag of this file, are handed back.
    pub open spec fn reconciled(self, file: usize, tags: Seq<TagView>) -> (
        FilesView,
        Seq<TagView>,
    ) {
        self.without_file(file).with_tags(file, tags)
    }

    /// Parsing a file's text: a file with a tree keeps its classification,
    /// a file without one takes the classification given, and the new tree
    /// replaces the old one. Nothing changes where there is no
    /// classification, or where the parser gives no tree.
    pub open spec fn with_tree(
        self,
        index: usize,
        lang_type: Option<LangType>,
        text: Seq<char>,
    ) -> FilesView {
        let classification = if self.trees.contains_key(index) {
            Some(self.trees[index].1)
        } else {
            lang_type
        };
        match classification {
            Some(lang) => match parsed(lang, text) {
                Some(tree) => FilesView { trees: self.trees.insert(index, (tree, lang)), ..self },
                None => self,
            },
            None => self,
        }
    }

    /// What saving a file reads its tags from: the file's identifier, the
    /// classification of its extension that is no template, and its text.
    pub open spec fn saving(
        self,
        uri: Seq<char>,
        config: Option<HtmxConfig>,
        texts: Map<Seq<char>, Seq<char>>,
    ) -> Option<(usize, LangType, Seq<char>)> {
        match (self.index_of(uri), config, extension_of(uri)) {
            (Some(file), Some(config), Some(extension)) => match config.classify(extension) {
                Some(types) => match types.source() {
                    Some(lang_type) => if texts.contains_key(uri) {
                        Some((file, lang_type, texts[uri]))
                    } else {
                        None
                    },
                    None => None,
                },
                None => None,
            },
            _ => None,
        }
    }

    /// Saving a file: its tags are replaced by those that the comments of
    /// its tree declare in its text. Nothing changes where there is nothing
    /// to read the tags from.
    pub open spec fn saved(
        self,
        uri: Seq<char>,
        config: Option<HtmxConfig>,
        texts: Map<Seq<char>, Seq<char>>,
    ) -> (FilesView, Seq<TagView>) {
        match self.saving(uri, config, texts) {
            Some((file, lang_type, text)) => self.retagged(file, lang_type, text),
            None => (self, Seq::empty()),
        }
    }

    /// The tree of a file with its classification.
    pub open spec fn tree_of(self, index: usize) -> Option<(Tree, LangType)> {
        if self.trees.contains_key(index) {
            Some(self.trees[index])
        } else {
            None
        }
    }

    /// Replacing the tags of a file by those that the comments of its tree
    /// declare in `text`. A template keeps its tags, and so does a file
    /// without a tree.
    pub open spec fn retagged(self, index: usize, lang_type: LangType, text: Seq<char>) -> (
        FilesView,
        Seq<TagView>,
    ) {
        match HtmxQuery::of(lang_type) {
            Some(kind) => if self.trees.contains_key(index) {
                self.reconciled(index, tags_within(kind, root_of(self.trees[index].0), text))
            } else {
                (self, Seq::empty())
            },
            None => (self, Seq::empty()),
        }
    }

    /// The warnings with one more for each tag, filed under the URI of the
    /// tag's file. A tag of an unknown file gives none.
    pub open spec fn published(self, groups: Seq<FileWarningsView>, tags: Seq<TagView>) -> Seq<
        FileWarningsView,
    >
        decreases tags.len(),
    {
        if tags.len() == 0 {
            groups
        } else {
            let first = match self.uri_of(tags[0].file) {
                Some(uri) => filed(groups, uri, warning_at(tags[0])),
                None => groups,
            };
            self.published(first, tags.drop_first())
        }
    }

    /// Where the tag under the cursor is declared: the token of the value
    /// that the cursor is on names a tag, and the tag's file has a URI.
    pub open spec fn definition_of(
        self,
        definition: Option<PositionDefinition>,
        value: Seq<char>,
    ) -> Option<TagLocationView> {
        match definition {
            Some(cursor) => match tags_in_value(value, cursor.start, cursor.line) {
                Some(tokens) => match first_covering(tokens, cursor.point.column) {
                    Some(token) => match self.tag_named(token.name) {
                        Some(tag) => match self.uri_of(tag.file) {
                            Some(uri) => Some(
                                TagLocationView {
                                    uri,
                                    line: tag.line,
                                    start: tag.start,
                                    end: tag.end,
                                },
                            ),
                            None => None,
                        },
                        None => None,
                    },
                    None => None,
                },
                None => None,
            },
            None => None,
        }
    }

    /// An edit of a file: its text is parsed, and its tags are replaced by
    /// those that the new tree's comments declare.
    pub open spec fn edited(
        self,
        index: usize,
        classification: Option<LangType>,
        lang_type: LangType,
        text: Seq<char>,
    ) -> (FilesView, Seq<TagView>) {
        self.with_tree(index, classification, text).retagged(index, lang_type, text)
    }

    /// An edit of the document of a URI: the text of a registered file is
    /// parsed, and the file's tags are replaced by those that the comments
    /// of the new tree declare, read under the tree's classification: a
    /// backend source and a script declare tags, a template declares none.
    /// The tags whose names are taken are handed back. Nothing changes for a
    /// URI that is not registered, and nothing is read for a file without a
    /// tree.
    pub open spec fn changed(self, uri: Seq<char>, text: Seq<char>) -> (FilesView, Seq<TagView>) {
        match self.index_of(uri) {
            Some(file) => {
                let parsed = self.with_tree(file, None, text);
                match parsed.tree_of(file) {
                    Some(held) => parsed.retagged(file, held.1, text),
                    None => (parsed, Seq::empty()),
                }
            },
            None => (self, Seq::empty()),
        }
    }

    /// Forgetting every file, tree and tag. Identifiers are not given out
    /// again.
    pub open spec fn cleared(self) -> FilesView {
        FilesView { next: self.next, ids: Map::empty(), trees: Map::empty(), tags: Map::empty() }
    }
}

/// Registering a URI twice gives an identifier at most the first time, and
/// the URI has the same identifier after either call. The first time gives
/// one unless the URI was registered before or the identifiers have run
/// out.
pub proof fn lemma_register_twice(files: FilesView, uri: Seq<char>)
    ensures
        ({
            let (once, first) = files.register(uri);
            let (twice, second) = once.register(uri);
            &&& second is None
            &&& twice == once
            &&& twice.index_of(uri) == once.index_of(uri)
            &&& first is Some <==> !files.ids.contains_key(uri) && files.next < usize::MAX
            &&& first is Some ==> once.index_of(uri) == first
        }),
{
}

/// The URI of the identifier that registering gave is the URI that was
/// registered.
pub proof fn lemma_register_reverse_lookup(files: FilesView, uri: Seq<char>)
    requires
        files.wf(),
    ensures
        files.register(uri).0.wf(),
        match files.register(uri).1 {
            Some(index) => files.register(uri).0.uri_of(index) == Some(uri),
            None => true,
        },
{
    if let Some(index) = files.register(uri).1 {
        let after = files.register(uri).0;
        assert(after.names(uri, index));
        let found = choose|other: Seq<char>| after.names(other, index);
        if found != uri {
            assert(files.ids.contains_key(found));
        }
        assert forall|a: Seq<char>, b: Seq<char>|
            after.ids.contains_key(a) && after.ids.contains_key(b) && after.ids[a]
                == after.ids[b] implies a == b by {
            if a != uri {
                assert(files.ids.contains_key(a));
            }
            if b != uri {
                assert(files.ids.contains_key(b));
            }
        }
        assert forall|a: Seq<char>| after.ids.contains_key(a) implies after.ids[a]
            < after.next by {
            if a != uri {
                assert(files.ids.contains_key(a));
            }
        }
    }
}

/// Every step keeps well-formed files well formed.
pub proof fn lemma_steps_keep_wf(
    files: FilesView,
    uri: Seq<char>,
    index: usize,
    tag: TagView,
    tags: Seq<TagView>,
    classification: Option<LangType>,
    lang_type: LangType,
    text: Seq<char>,
)
    requires
        files.wf(),
    ensures
        FilesView::new().wf(),
        files.cleared().wf(),
        files.register(uri).0.wf(),
        files.without_file(index).wf(),
        files.with_tag(tag).0.wf(),
        files.with_tags(index, tags).0.wf(),
        files.reconciled(index, tags).0.wf(),
        files.with_tree(index, classification, text).wf(),
        files.retagged(index, lang_type, text).0.wf(),
        files.edited(index, classification, lang_type, text).0.wf(),
{
    lemma_register_reverse_lookup(files, uri);
    lemma_with_tags_keep_wf(files, index, tags);
    lemma_with_tags_keep_wf(files.without_file(index), index, tags);
    let parsed_once = files.with_tree(index, classification, text);
    if let Some(kind) = HtmxQuery::of(lang_type) {
        if files.trees.contains_key(index) {
            let found = tags_within(kind, root_of(files.trees[index].0), text);
            lemma_with_tags_keep_wf(files.without_file(index), index, found);
        }
        if parsed_once.trees.contains_key(index) {
            let found = tags_within(kind, root_of(parsed_once.trees[index].0), text);
            lemma_with_tags_keep_wf(parsed_once.without_file(index), index, found);
        }
    }
}

/// Adding the tags of a file keeps well-formed files well formed.
proof fn lemma_with_tags_keep_wf(files: FilesView, file: usize, tags: Seq<TagView>)
    requires
        files.wf(),
    ensures
        files.with_tags(file, tags).0.wf(),
    decreases tags.len(),
{
    if tags.len() > 0 {
        let tag = TagView { file, ..tags[0] };
        lemma_with_tags_keep_wf(files.with_tag(tag).0, file, tags.drop_first());
    }
}

/// Of two tags with one name that no tag holds yet, the first that is
/// added succeeds and the second comes back, whichever comes first; and
/// once the tags of the first one's file are dropped, the second succeeds.
pub proof fn lemma_same_name_twice(files: FilesView, first: TagView, second: TagView)
    requires
        first.name == second.name,
        !files.tags.contains_key(first.name),
    ensures
        ({
            let (once, added) = files.with_tag(first);
            let (twice, refused) = once.with_tag(second);
            &&& added is Ok
            &&& refused == Err::<(), TagView>(second)
            &&& twice == once
            &&& twice.without_file(first.file).with_tag(second).1 is Ok
        }),
{
}

/// What adding the tags of a file leaves of the tags that were there, and
/// what it adds.
proof fn lemma_with_tags_extends(files: FilesView, file: usize, tags: Seq<TagView>)
    ensures
        ({
            let after = files.with_tags(file, tags).0;
            &&& after.next == files.next
            &&& after.ids == files.ids
            &&& after.trees == files.trees
            &&& forall|name: Seq<char>| #[trigger]
                files.tags.contains_key(name) ==> after.tags.contains_key(name)
                    && after.tags[name] == files.tags[name]
            &&& forall|name: Seq<char>| #[trigger]
                after.tags.contains_key(name) && !files.tags.contains_key(name)
                    ==> after.tags[name].file == file
        }),
    decreases tags.len(),
{
    if tags.len() > 0 {
        let tag = TagView { file, ..tags[0] };
        let next = files.with_tag(tag).0;
        lemma_with_tags_extends(next, file, tags.drop_first());
        let after = files.with_tags(file, tags).0;
        assert(after == next.with_tags(file, tags.drop_first()).0);
        assert forall|name: Seq<char>| #[trigger]
            files.tags.contains_key(name) implies after.tags.contains_key(name) && after.tags[name]
            == files.tags[name] by {
            assert(next.tags.contains_key(name));
        }
        assert forall|name: Seq<char>| #[trigger]
            after.tags.contains_key(name) && !files.tags.contains_key(
                name,
            ) implies after.tags[name].file == file by {
            if next.tags.contains_key(name) {
                assert(name == tag.name);
            }
        }
    }
}

/// Replacing the tags of a file twice by the same tags gives what
/// replacing them once gives: the same files, and the same tags handed
/// back.
pub proof fn lemma_reconcile_again(files: FilesView, file: usize, tags: Seq<TagView>)
    ensures
        files.reconciled(file, tags).0.reconciled(file, tags) == files.reconciled(file, tags),
{
    let cleared = files.without_file(file);
    let once = cleared.with_tags(file, tags).0;
    lemma_with_tags_extends(cleared, file, tags);
    assert(once.without_file(file).tags =~= cleared.tags) by {
        assert forall|name: Seq<char>|
            once.without_file(file).tags.contains_key(
                name,
            ) implies cleared.tags.contains_key(name) by {
            if !cleared.tags.contains_key(name) {
                assert(once.tags.contains_key(name));
            }
        }
        assert forall|name: Seq<char>| cleared.tags.contains_key(name) implies once.without_file(
            file,
        ).tags.contains_key(name) by {
            assert(once.tags.contains_key(name));
        }
    }
    assert(once.without_file(file) == cleared);
}

/// Parsing the same text of a file twice gives what parsing it once gives.
pub proof fn lemma_parse_again(
    files: FilesView,
    index: usize,
    classification: Option<LangType>,
    text: Seq<char>,
)
    ensures
        files.with_tree(index, classification, text).with_tree(index, classification, text)
            == files.with_tree(index, classification, text),
{
    let once = files.with_tree(index, classification, text);
    assert(once.with_tree(index, classification, text).trees =~= once.trees);
}

/// An edit with the same text twice gives what the edit gives once: the
/// same trees, the same tags, and the same tags handed back.
pub proof fn lemma_edit_again(
    files: FilesView,
    index: usize,
    classification: Option<LangType>,
    lang_type: LangType,
    text: Seq<char>,
)
    ensures
        files.edited(index, classification, lang_type, text).0.edited(
            index,
            classification,
            lang_type,
            text,
        ) == files.edited(index, classification, lang_type, text),
{
    let parsed_once = files.with_tree(index, classification, text);
    let once = parsed_once.retagged(index, lang_type, text);
    lemma_parse_again(files, index, classification, text);
    match HtmxQuery::of(lang_type) {
        Some(kind) => {
            if parsed_once.trees.contains_key(index) {
                let tags = tags_within(kind, root_of(parsed_once.trees[index].0), text);
                lemma_with_tags_extends(parsed_once.without_file(index), index, tags);
                lemma_reconcile_again(parsed_once, index, tags);
                assert(once.0.trees == parsed_once.trees);
                assert(once.0.with_tree(index, classification, text).trees =~= once.0.trees);
                assert(once.0.with_tree(index, classification, text) == once.0);
            } else {
                assert(once.0 == parsed_once);
            }
        },
        None => {
            assert(once.0 == parsed_once);
        },
    }
}

/// Whether the tags have names of their own: no two share a name, and no
/// tag of the files has one of the names.
pub open spec fn names_free(files: FilesView, tags: Seq<TagView>) -> bool {
    &&& forall|i: int, j: int| 0 <= i < j < tags.len() ==> tags[i].name != tags[j].name
    &&& forall|i: int| 0 <= i < tags.len() ==> !files.tags.contains_key(#[trigger] tags[i].name)
}

/// Adding tags with names of their own hands nothing back, holds each of
/// them under its name with the file, and leaves the other tags as they
/// were.
pub proof fn lemma_with_tags_free(files: FilesView, file: usize, tags: Seq<TagView>)
    requires
        names_free(files, tags),
    ensures
        ({
            let after = files.with_tags(file, tags);
            &&& after.1 == Seq::<TagView>::empty()
            &&& forall|i: int|
                0 <= i < tags.len() ==> after.0.tags.contains_key(#[trigger] tags[i].name)
                    && after.0.tags[tags[i].name] == (TagView { file, ..tags[i] })
            &&& forall|name: Seq<char>| #[trigger]
                files.tags.contains_key(name) ==> after.0.tags.contains_key(name)
                    && after.0.tags[name] == files.tags[name]
            &&& forall|name: Seq<char>| #[trigger]
                after.0.tags.contains_key(name) ==> files.tags.contains_key(name) || exists|
                    i: int,
                | 0 <= i < tags.len() && #[trigger] tags[i].name == name
        }),
    decreases tags.len(),
{
    if tags.len() > 0 {
        let tag = TagView { file, ..tags[0] };
        let next = files.with_tag(tag).0;
        let rest = tags.drop_first();
        assert(!files.tags.contains_key(tags[0].name));
        assert forall|i: int| 0 <= i < rest.len() implies !next.tags.contains_key(
            #[trigger] rest[i].name,
        ) by {
            assert(rest[i] == tags[i + 1]);
            assert(!files.tags.contains_key(tags[i + 1].name));
        }
        assert forall|i: int, j: int| 0 <= i < j < rest.len() implies rest[i].name
            != rest[j].name by {
            assert(rest[i] == tags[i + 1] && rest[j] == tags[j + 1]);
        }
        lemma_with_tags_free(next, file, rest);
        let after = files.with_tags(file, tags);
        assert(after == next.with_tags(file, rest));
        assert forall|i: int| 0 <= i < tags.len() implies after.0.tags.contains_key(
            #[trigger] tags[i].name,
        ) && after.0.tags[tags[i].name] == (TagView { file, ..tags[i] }) by {
            if i > 0 {
                assert(tags[i] == rest[i - 1]);
            } else {
                assert(next.tags.contains_key(tag.name));
            }
        }
        assert forall|name: Seq<char>| #[trigger]
            files.tags.contains_key(name) implies after.0.tags.contains_key(name)
            && after.0.tags[name] == files.tags[name] by {
            assert(next.tags.contains_key(name));
        }
        assert forall|name: Seq<char>| #[trigger]
            after.0.tags.contains_key(name) implies files.tags.contains_key(name) || exists|
            i: int,
        | 0 <= i < tags.len() && #[trigger] tags[i].name == name by {
            if next.tags.contains_key(name) {
                if !files.tags.contains_key(name) {
                    assert(tags[0].name == name);
                }
            } else {
                let i = choose|i: int| 0 <= i < rest.len() && #[trigger] rest[i].name == name;
                assert(tags[i + 1].name == name);
            }
        }
    }
}

/// Replacing a file's tags by tags with names of their own, names that no
/// other file holds, hands nothing back: the file's earlier tags cause no
/// conflict. Afterwards the file's tags are those tags, and the tags of the
/// other files are as they were.
pub proof fn lemma_reconcile_free(files: FilesView, file: usize, tags: Seq<TagView>)
    requires
        names_free(files.without_file(file), tags),
    ensures
        ({
            let after = files.reconciled(file, tags);
            &&& after.1 == Seq::<TagView>::empty()
            &&& forall|i: int|
                0 <= i < tags.len() ==> after.0.tags.contains_key(#[trigger] tags[i].name)
                    && after.0.tags[tags[i].name] == (TagView { file, ..tags[i] })
            &&& forall|name: Seq<char>| #[trigger]
                files.tags.contains_key(name) && files.tags[name].file != file
                    ==> after.0.tags.contains_key(name) && after.0.tags[name] == files.tags[name]
            &&& forall|name: Seq<char>| #[trigger]
                after.0.tags.contains_key(name) ==> (files.tags.contains_key(name)
                    && files.tags[name].file != file) || exists|i: int|
                    0 <= i < tags.len() && #[trigger] tags[i].name == name
        }),
{
    lemma_with_tags_free(files.without_file(file), file, tags);
    let cleared = files.without_file(file);
    let after = files.reconciled(file, tags);
    assert forall|name: Seq<char>| #[trigger]
        files.tags.contains_key(name) && files.tags[name].file
            != file implies after.0.tags.contains_key(name) && after.0.tags[name]
        == files.tags[name] by {
        assert(cleared.tags.contains_key(name));
    }
    assert forall|name: Seq<char>| #[trigger]
        after.0.tags.contains_key(name) implies (files.tags.contains_key(name)
        && files.tags[name].file != file) || exists|i: int|
        0 <= i < tags.len() && #[trigger] tags[i].name == name by {
        assert(cleared.tags.contains_key(name) ==> files.tags.contains_key(name)
            && files.tags[name].file != file);
    }
}

/// Reading a file's tags twice from the same text gives what reading them
/// once gives: the same files, and the same tags handed back.
pub proof fn lemma_retag_again(
    files: FilesView,
    index: usize,
    lang_type: LangType,
    text: Seq<char>,
)
    ensures
        files.retagged(index, lang_type, text).0.retagged(index, lang_type, text)
            == files.retagged(index, lang_type, text),
{
    lemma_retagged_keeps(files, index, lang_type, text);
    if let Some(kind) = HtmxQuery::of(lang_type) {
        if files.trees.contains_key(index) {
            lemma_reconcile_again(
                files,
                index,
                tags_within(kind, root_of(files.trees[index].0), text),
            );
        }
    }
}

/// Filing the warnings of tags never gives a URI a second place.
pub proof fn lemma_published_distinct(
    files: FilesView,
    groups: Seq<FileWarningsView>,
    tags: Seq<TagView>,
)
    requires
        distinct_uris(groups),
    ensures
        distinct_uris(files.published(groups, tags)),
    decreases tags.len(),
{
    if tags.len() > 0 {
        match files.uri_of(tags[0].file) {
            Some(uri) => {
                lemma_filed_distinct(groups, uri, warning_at(tags[0]));
                lemma_published_distinct(
                    files,
                    filed(groups, uri, warning_at(tags[0])),
                    tags.drop_first(),
                );
            },
            None => {
                lemma_published_distinct(files, groups, tags.drop_first());
            },
        }
    }
}

/// The same edit twice gives what the edit gives once: the same trees, the
/// same tags, and the same tags handed back, so that the second edit finds
/// no conflict that the first did not.
pub proof fn lemma_change_again(files: FilesView, uri: Seq<char>, text: Seq<char>)
    ensures
        files.changed(uri, text).0.changed(uri, text) == files.changed(uri, text),
{
    if let Some(file) = files.index_of(uri) {
        let parsed = files.with_tree(file, None, text);
        if let Some(held) = parsed.tree_of(file) {
            let once = files.edited(file, None, held.1, text);
            lemma_edit_again(files, file, None, held.1, text);
            lemma_retagged_keeps(parsed, file, held.1, text);
            assert(once.0.with_tree(file, None, text).trees =~= once.0.trees);
            assert(once.0.with_tree(file, None, text) == once.0);
        } else {
            assert(parsed.with_tree(file, None, text) == parsed);
        }
    }
}

/// Reading a file's tags again changes neither the identifiers nor the
/// trees.
proof fn lemma_retagged_keeps(files: FilesView, index: usize, lang_type: LangType, text: Seq<char>)
    ensures
        files.retagged(index, lang_type, text).0.ids == files.ids,
        files.retagged(index, lang_type, text).0.trees == files.trees,
        files.retagged(index, lang_type, text).0.next == files.next,
{
    if let Some(kind) = HtmxQuery::of(lang_type) {
        if files.trees.contains_key(index) {
            let found = tags_within(kind, root_of(files.trees[index].0), text);
            lemma_with_tags_extends(files.without_file(index), index, found);
        }
    }
}

} // verus!
