//! The files of a project: their identifiers, their syntax trees and the
//! tags they declare.

use vstd::prelude::*;
use dashmap::DashMap;
use ropey::Rope;
use tree_sitter::{Parser, Query, Tree};
use crate::config::HtmxConfig;
use crate::diagnostics::{distinct_uris, file_warning, FileWarnings, TagLocation, TagWarning};
use crate::htmx_tags::{in_tags, Tag, TagView};
use crate::init_hx::LangType;
use crate::model::{lemma_published_distinct, FilesView};
use crate::position::PositionDefinition;
use crate::queries::{HX_NAME, HX_VALUE, QUICK_QUERY};
use crate::query_helper::{query_tag, HtmxQuery, Queries};
use crate::store::{
    document_text, ids_clear, ids_entries, ids_get, ids_insert, ids_new, ids_of, tags_clear,
    tags_contains_key, tags_files, tags_get, tags_insert, tags_new, tags_of, tags_remove,
    texts_of, trees_clear, trees_get, trees_insert, trees_new, trees_of,
};
use crate::syntax::{compile_query, compiled, grammar_in, new_parser, parse_text, parsed, tree_root};

verus! {

/// A syntax tree of a backend source.
#[derive(Debug)]
pub struct BackendTreeSitter {
    pub tree: Tree,
}

/// The markup patterns.
#[derive(Clone, Copy, Debug, PartialEq, Eq)]
pub enum HTMLQuery {
    Lsp,
    Name,
    Value,
}

impl HTMLQuery {
    /// The text of the pattern.
    pub open spec fn pattern(self) -> Seq<char> {
        match self {
            HTMLQuery::Lsp => QUICK_QUERY@,
            HTMLQuery::Name => HX_NAME@,
            HTMLQuery::Value => HX_VALUE@,
        }
    }

    /// The text of the pattern.
    pub fn text(&self) -> (text: &'static str)
        ensures
            text@ == self.pattern(),
    {
        match self {
            HTMLQuery::Lsp => QUICK_QUERY,
            HTMLQuery::Name => HX_NAME,
            HTMLQuery::Value => HX_VALUE,
        }
    }
}

/// The compiled markup patterns.
pub struct HTMLQueries {
    lsp: Query,
    name: Query,
    value: Query,
}

impl HTMLQueries {
    #[verifier::type_invariant]
    spec fn compiled_from_patterns(self) -> bool {
        &&& compiled(LangType::Template, QUICK_QUERY@) == Some(self.lsp)
        &&& compiled(LangType::Template, HX_NAME@) == Some(self.name)
        &&& compiled(LangType::Template, HX_VALUE@) == Some(self.value)
    }

    /// Compiles the markup patterns; `None` where the markup grammar
    /// refuses one of them.
    pub fn new() -> (queries: Option<HTMLQueries>)
        ensures
            queries is Some <==> forall|query: HTMLQuery| #[trigger]
                compiled(LangType::Template, query.pattern()) is Some,
    {
        let lsp = match compile_query(LangType::Template, QUICK_QUERY) {
            Some(query) => query,
            None => {
                proof {
                    assert(compiled(LangType::Template, HTMLQuery::Lsp.pattern()) is None);
                }
                return None;
            },
        };
        let name = match compile_query(LangType::Template, HX_NAME) {
            Some(query) => query,
            None => {
                proof {
                    assert(compiled(LangType::Template, HTMLQuery::Name.pattern()) is None);
                }
                return None;
            },
        };
        let value = match compile_query(LangType::Template, HX_VALUE) {
            Some(query) => query,
            None => {
                proof {
                    assert(compiled(LangType::Template, HTMLQuery::Value.pattern()) is None);
                }
                return None;
            },
        };
        Some(HTMLQueries { lsp, name, value })
    }

    /// The compiled pattern.
    pub fn get(&self, query: HTMLQuery) -> (compiled_query: &Query)
        ensures
            Some(*compiled_query) == compiled(LangType::Template, query.pattern()),
    {
        proof {
            use_type_invariant(self);
        }
        match query {
            HTMLQuery::Lsp => &self.lsp,
            HTMLQuery::Name => &self.name,
            HTMLQuery::Value => &self.value,
        }
    }
}

/// Copies the tags.
pub fn copy_tags(tags: &Vec<Tag>) -> (copy: Vec<Tag>)
    ensures
        copy.deep_view() == tags.deep_view(),
{
    let mut copy: Vec<Tag> = Vec::new();
    let mut i: usize = 0;
    while i < tags.len()
        invariant
            i <= tags.len(),
            copy.len() == i,
            forall|k: int| 0 <= k < i ==> copy[k]@ == tags[k]@,
        decreases tags.len() - i,
    {
        copy.push(tags[i].clone());
        i += 1;
    }
    copy
}

/// One parser for each classification.
pub struct Parsers {
    html: Parser,
    javascript: Parser,
    backend: Parser,
}

impl Parsers {
    /// Each parser has the grammar of its classification.
    pub closed spec fn inv(&self) -> bool {
        &&& grammar_in(self.html) == LangType::Template
        &&& grammar_in(self.javascript) == LangType::JavaScript
        &&& grammar_in(self.backend) == LangType::Backend
    }

    /// Parses the text with the parser of the classification. An earlier
    /// tree is not used: every parse starts afresh.
    pub fn parse(&mut self, lang_type: LangType, text: &str, _old_tree: Option<&Tree>) -> (tree:
        Option<Tree>)
        requires
            old(self).inv(),
        ensures
            final(self).inv(),
            tree == parsed(lang_type, text@),
    {
        match lang_type {
            LangType::Template => parse_text(&mut self.html, text),
            LangType::JavaScript => parse_text(&mut self.javascript, text),
            LangType::Backend => parse_text(&mut self.backend, text),
        }
    }
}

impl Default for Parsers {
    fn default() -> (parsers: Self)
        ensures
            parsers.inv(),
    {
        Parsers {
            html: new_parser(LangType::Template),
            javascript: new_parser(LangType::JavaScript),
            backend: new_parser(LangType::Backend),
        }
    }
}

impl Clone for Parsers {
    /// Parsers are not copied: the copy is a fresh set.
    fn clone(&self) -> (parsers: Self)
        ensures
            parsers.inv(),
    {
        Parsers::default()
    }
}

/// The files of a project.
pub struct LspFiles {
    current: usize,
    indexes: DashMap<String, usize>,
    trees: DashMap<usize, (Tree, LangType)>,
    parsers: Parsers,
    tags: DashMap<String, Tag>,
}

impl View for LspFiles {
    type V = FilesView;

    closed spec fn view(&self) -> FilesView {
        FilesView {
            next: self.current,
            ids: ids_of(self.indexes),
            trees: trees_of(self.trees),
            tags: tags_of(self.tags),
        }
    }
}

impl Default for LspFiles {
    fn default() -> (files: Self)
        ensures
            files.inv(),
            files@ == FilesView::new(),
    {
        LspFiles {
            current: 0,
            indexes: ids_new(),
            trees: trees_new(),
            parsers: Parsers::default(),
            tags: tags_new(),
        }
    }
}

impl LspFiles {
    /// The files are well formed, and each parser has the grammar of its
    /// classification.
    pub closed spec fn inv(&self) -> bool {
        self@.wf() && self.parsers.inv()
    }

    /// Well-formed files have a well-formed view.
    pub proof fn lemma_inv_wf(&self)
        requires
            self.inv(),
        ensures
            self@.wf(),
    {
    }

    /// Forgets every file, tree and tag.
    pub fn reset(&mut self)
        requires
            old(self).inv(),
        ensures
            final(self).inv(),
            final(self)@ == old(self)@.cleared(),
    {
        ids_clear(&mut self.indexes);
        trees_clear(&mut self.trees);
        tags_clear(&mut self.tags);
    }

    /// Drops the tags that the file declares.
    pub fn delete_tags_by_index(&mut self, index: usize)
        requires
            old(self).inv(),
        ensures
            final(self).inv(),
            final(self)@ == old(self)@.without_file(index),
    {
        let ghost before = self@;
        let entries = tags_files(&self.tags);
        let mut i: usize = 0;
        while i < entries.len()
            invariant
                i <= entries.len(),
                self.parsers.inv(),
                before.wf(),
                self@.next == before.next,
                self@.ids == before.ids,
                self@.trees == before.trees,
                forall|j: int|
                    0 <= j < entries.len() ==> before.tags.contains_key((#[trigger] entries[j]).0@)
                        && before.tags[entries[j].0@].file == entries[j].1,
                forall|name: Seq<char>| #[trigger]
                    self@.tags.contains_key(name) ==> before.tags.contains_key(name)
                        && self@.tags[name] == before.tags[name],
                forall|name: Seq<char>|
                    before.tags.contains_key(name) && before.tags[name].file != index
                        ==> #[trigger] self@.tags.contains_key(name),
                forall|j: int|
                    0 <= j < i && (#[trigger] entries[j]).1 == index ==> !self@.tags.contains_key(
                        entries[j].0@,
                    ),
            decreases entries.len() - i,
        {
            if entries[i].1 == index {
                let ghost kept = self@.tags;
                tags_remove(&mut self.tags, &entries[i].0);
                proof {
                    let gone = entries[i as int].0@;
                    assert(self@.tags == kept.remove(gone));
                    assert forall|name: Seq<char>| #[trigger]
                        self@.tags.contains_key(name) implies before.tags.contains_key(name)
                        && self@.tags[name] == before.tags[name] by {
                        assert(kept.contains_key(name));
                    }
                    assert forall|name: Seq<char>|
                        before.tags.contains_key(name) && before.tags[name].file
                            != index implies #[trigger] self@.tags.contains_key(name) by {
                        assert(kept.contains_key(name));
                        assert(name != gone);
                    }
                }
            }
            i += 1;
        }
        proof {
            assert(self@.tags =~= before.without_file(index).tags);
        }
    }

    /// Adds a tag under its name, or hands it back where the name is taken.
    pub fn add_tag(&mut self, tag: Tag) -> (added: Result<(), Tag>)
        requires
            old(self).inv(),
        ensures
            final(self).inv(),
            final(self)@ == old(self)@.with_tag(tag@).0,
            match added {
                Ok(_) => old(self)@.with_tag(tag@).1 is Ok,
                Err(refused) => old(self)@.with_tag(tag@).1 == Err::<(), TagView>(refused@),
            },
    {
        if tags_contains_key(&self.tags, &tag.name) {
            Err(tag)
        } else {
            tags_insert(&mut self.tags, tag.name.clone(), tag);
            Ok(())
        }
    }

    /// The tag of a name.
    pub fn get_tag(&self, key: &String) -> (tag: Option<Tag>)
        ensures
            tag.deep_view() == self@.tag_named(key@),
    {
        tags_get(&self.tags, key)
    }

    /// Adds the tags to the file's, and the tags whose names are taken to
    /// `diags`.
    pub fn add_tags(&mut self, index: usize, tags: &Vec<Tag>, diags: &mut Vec<Tag>)
        requires
            old(self).inv(),
        ensures
            final(self).inv(),
            final(self)@ == old(self)@.with_tags(index, tags.deep_view()).0,
            final(diags).deep_view() == old(diags).deep_view() + old(self)@.with_tags(
                index,
                tags.deep_view(),
            ).1,
    {
        let ghost before = self@;
        let ghost all = tags.deep_view();
        let ghost reported = diags.deep_view();
        let mut i: usize = 0;
        proof {
            assert(all.skip(0) =~= all);
        }
        while i < tags.len()
            invariant
                i <= tags.len(),
                self.inv(),
                all == tags.deep_view(),
                before.with_tags(index, all).0 == self@.with_tags(index, all.skip(i as int)).0,
                reported + before.with_tags(index, all).1 == diags.deep_view() + self@.with_tags(
                    index,
                    all.skip(i as int),
                ).1,
            decreases tags.len() - i,
        {
            let mut tag = tags[i].clone();
            tag.set_file(index);
            proof {
                assert(all.skip(i as int).drop_first() =~= all.skip(i + 1));
            }
            if let Err(refused) = self.add_tag(tag) {
                diags.push(refused);
            }
            i += 1;
        }
    }

    /// Parses the text of a file and keeps the tree. A file with a tree
    /// keeps its classification; a file without one needs `lang_type`.
    pub fn add_tree(&mut self, index: usize, lang_type: Option<LangType>, text: &str)
        requires
            old(self).inv(),
        ensures
            final(self).inv(),
            final(self)@ == old(self)@.with_tree(index, lang_type, text@),
    {
        let ghost before = self@;
        let classification = match trees_get(&self.trees, index) {
            Some(entry) => Some(entry.1),
            None => lang_type,
        };
        if let Some(lang) = classification {
            if let Some(tree) = self.parsers.parse(lang, text, None) {
                trees_insert(&mut self.trees, index, tree, lang);
            }
        }
        proof {
            assert(self@.ids == before.ids);
            assert(self@.tags == before.tags);
        }
    }

    /// The tree of a file with its classification.
    pub fn get_tree(&self, index: usize) -> (entry: Option<(Tree, LangType)>)
        ensures
            entry == self@.tree_of(index),
    {
        trees_get(&self.trees, index)
    }

    /// Takes the new text of the document of a URI: parses it and reads
    /// the file's tags again. Hands back the tags whose names are taken.
    pub fn on_change(&mut self, uri: &String, text: &str, queries: &Queries) -> (conflicts: Vec<
        Tag,
    >)
        requires
            old(self).inv(),
        ensures
            final(self).inv(),
            final(self)@ == old(self)@.changed(uri@, text@).0,
            conflicts.deep_view() == old(self)@.changed(uri@, text@).1,
    {
        let mut conflicts: Vec<Tag> = Vec::new();
        proof {
            assert(conflicts.deep_view() =~= Seq::<TagView>::empty());
        }
        let file = match self.get_index(uri) {
            Some(file) => file,
            None => { return conflicts; },
        };
        self.add_tree(file, None, text);
        if let Some(held) = self.get_tree(file) {
            let ghost parsed = self@;
            let _ = self.add_tags_from_file(file, held.1, text, false, queries, &mut conflicts);
            proof {
                let found = parsed.retagged(file, held.1, text@).1;
                assert(Seq::<TagView>::empty() + found =~= found);
            }
        }
        conflicts
    }

    /// Replaces the tags of a file by those that the comments of its tree
    /// declare in `text`, and adds the tags whose names are taken to
    /// `diags`. Templates declare no tags.
    pub fn add_tags_from_file(
        &mut self,
        index: usize,
        lang_type: LangType,
        text: &str,
        _overwrite: bool,
        queries: &Queries,
        diags: &mut Vec<Tag>,
    ) -> (done: Result<(), ()>)
        requires
            old(self).inv(),
        ensures
            final(self).inv(),
            done is Err <==> HtmxQuery::of(lang_type) is None,
            final(self)@ == old(self)@.retagged(index, lang_type, text@).0,
            final(diags).deep_view() == old(diags).deep_view() + old(self)@.retagged(
                index,
                lang_type,
                text@,
            ).1,
    {
        let kind = match HtmxQuery::try_from(lang_type) {
            Ok(kind) => kind,
            Err(_) => {
                return Err(());
            },
        };
        if let Some(old_tree) = trees_get(&self.trees, index) {
            let tags = query_tag(tree_root(&old_tree.0), text, queries, kind);
            self.delete_tags_by_index(index);
            self.add_tags(index, &tags, diags);
        } else {
        }
        Ok(())
    }

    /// Files a warning for each tag under the URI of the tag's file. No
    /// URI gets a second place.
    pub fn publish_tag_diagnostics(&self, diagnostics: Vec<Tag>, hm: &mut Vec<FileWarnings>)
        requires
            self.inv(),
        ensures
            final(hm).deep_view() == self@.published(old(hm).deep_view(), diagnostics.deep_view()),
            distinct_uris(old(hm).deep_view()) ==> distinct_uris(final(hm).deep_view()),
    {
        proof {
            if distinct_uris(hm.deep_view()) {
                lemma_published_distinct(self@, hm.deep_view(), diagnostics.deep_view());
            }
        }
        let ghost all = diagnostics.deep_view();
        let ghost before = hm.deep_view();
        let mut i: usize = 0;
        proof {
            assert(all.skip(0) =~= all);
        }
        while i < diagnostics.len()
            invariant
                i <= diagnostics.len(),
                self.inv(),
                all == diagnostics.deep_view(),
                self@.published(before, all) == self@.published(hm.deep_view(), all.skip(i as int)),
            decreases diagnostics.len() - i,
        {
            let diag = &diagnostics[i];
            proof {
                assert(all.skip(i as int).drop_first() =~= all.skip(i + 1));
            }
            if let Some(uri) = self.get_uri(diag.file) {
                let warning = TagWarning { line: diag.line, start: diag.start, end: diag.end };
                file_warning(hm, uri, warning);
            }
            i += 1;
        }
    }

    /// Finds where the tag under the cursor is declared and writes it to
    /// `def`. The result says nothing.
    pub fn goto_definition_response(
        &self,
        definition: Option<PositionDefinition>,
        value: &str,
        def: &mut Option<TagLocation>,
    ) -> (nothing: Option<()>)
        requires
            self.inv(),
        ensures
            nothing is None,
            final(def).deep_view() == match self@.definition_of(definition, value@) {
                Some(location) => Some(location),
                None => old(def).deep_view(),
            },
    {
        let cursor = match definition {
            Some(cursor) => cursor,
            None => { return None; },
        };
        let token = match in_tags(value, cursor) {
            Some(token) => token,
            None => { return None; },
        };
        let tag = match self.get_tag(&token.name) {
            Some(tag) => tag,
            None => { return None; },
        };
        let uri = match self.get_uri(tag.file) {
            Some(uri) => uri,
            None => { return None; },
        };
        *def = Some(TagLocation { uri, line: tag.line, start: tag.start, end: tag.end });
        None
    }

    /// Reads the tags of a saved file again. Gives all the tags that were
    /// handed back so far; nothing for a file that is not registered, without
    /// settings, for a template or a file of no known kind, and for a file
    /// whose text is not held.
    pub fn saved(
        &mut self,
        uri: &String,
        diagnostics: &mut Vec<Tag>,
        config: &Option<HtmxConfig>,
        document_map: &DashMap<String, Rope>,
        queries: &Queries,
    ) -> (reported: Option<Vec<Tag>>)
        requires
            old(self).inv(),
        ensures
            final(self).inv(),
            final(self)@ == old(self)@.saved(uri@, *config, texts_of(*document_map)).0,
            final(diagnostics).deep_view() == old(diagnostics).deep_view() + old(self)@.saved(
                uri@,
                *config,
                texts_of(*document_map),
            ).1,
            reported.deep_view() == if old(self)@.saving(uri@, *config, texts_of(*document_map))
                is Some {
                Some(final(diagnostics).deep_view())
            } else {
                None
            },
    {
        let file = match self.get_index(uri) {
            Some(file) => file,
            None => { return None; },
        };
        let config = match config {
            Some(config) => config,
            None => { return None; },
        };
        let types = match config.file_ext(uri.as_str()) {
            Some(types) => types,
            None => { return None; },
        };
        let lang_type = match types.source_type() {
            Some(lang_type) => lang_type,
            None => { return None; },
        };
        let content = match document_text(document_map, uri) {
            Some(content) => content,
            None => { return None; },
        };
        let text = content.as_str();
        let _ = self.add_tags_from_file(file, lang_type, text, false, queries, diagnostics);
        Some(copy_tags(diagnostics))
    }

    /// Registers a URI and gives it the next identifier.
    pub fn add_file(&mut self, key: String) -> (index: Option<usize>)
        requires
            old(self).inv(),
        ensures
            final(self).inv(),
            (final(self)@, index) == old(self)@.register(key@),
    {
        if self.get_index(&key).is_none() && self.current < usize::MAX {
            let ghost before = self@;
            let ghost uri = key@;
            let index = self.current;
            self.current = index + 1;
            ids_insert(&mut self.indexes, key, index);
            proof {
                let after = self@;
                assert forall|a: Seq<char>, b: Seq<char>|
                    after.ids.contains_key(a) && after.ids.contains_key(b) && after.ids[a]
                        == after.ids[b] implies a == b by {
                    if a != uri {
                    }
                    if b != uri {
                    }
                }
                assert forall|a: Seq<char>| after.ids.contains_key(a) implies after.ids[a]
                    < after.next by {
                    if a != uri {
                    }
                }
                assert(after.tags == before.tags);
            }
            return Some(index);
        }
        None
    }

    /// The identifier of a URI.
    pub fn get_index(&self, key: &String) -> (index: Option<usize>)
        ensures
            index == self@.index_of(key@),
    {
        ids_get(&self.indexes, key)
    }

    /// The URI of an identifier.
    pub fn get_uri(&self, index: usize) -> (uri: Option<String>)
        requires
            self.inv(),
        ensures
            uri.deep_view() == self@.uri_of(index),
    {
        let entries = ids_entries(&self.indexes);
        let mut i: usize = 0;
        while i < entries.len()
            invariant
                i <= entries.len(),
                self@.wf(),
                forall|j: int|
                    0 <= j < entries.len() ==> self@.ids.contains_pair(
                        (#[trigger] entries[j]).0@,
                        entries[j].1,
                    ),
                forall|j: int| 0 <= j < i ==> (#[trigger] entries[j]).1 != index,
            decreases entries.len() - i,
        {
            if entries[i].1 == index {
                let uri = entries[i].0.clone();
                proof {
                    assert(self@.names(uri@, index));
                }
                return Some(uri);
            }
            i += 1;
        }
        proof {
            assert forall|uri: Seq<char>| !self@.names(uri, index) by {
                if self@.ids.contains_key(uri) {
                    let j = choose|j: int|
                        0 <= j < entries.len() && (#[trigger] entries[j]).0@ == uri;
                    assert(entries[j].1 != index);
                }
            }
        }
        None
    }
}

} // verus!
