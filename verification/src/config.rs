//! What a project says of itself: its backend language, its template
//! extension and the directories to index.

use vstd::prelude::*;
use vstd::string::StringExecFns;
use dashmap::DashMap;
use ropey::Rope;
use std::path::Path;
use crate::htmx_tags::{Tag, TagView};
use crate::htmx_tree_sitter::LspFiles;
use crate::init_hx::{LangType, LangTypes};
use crate::model::FilesView;
use crate::query_helper::Queries;
use crate::store::{texts_insert, texts_of};
use crate::text::{has_whitespace, holds_whitespace, same_text};

verus! {

/// The extension of the file name at the end of the path, as
/// `Path::extension` gives it for the path that `Path::new` makes of the
/// text.
pub uninterp spec fn extension_of(path: Seq<char>) -> Option<Seq<char>>;

/// Calls `Path::new` on the text and `Path::extension` on the path, and
/// hands the extension out as text.
#[verifier::external_body]
pub(crate) fn path_extension(path: &str) -> (extension: Option<String>)
    ensures
        extension.deep_view() == extension_of(path@),
{
    Path::new(path).extension()?.to_str().map(|e| e.to_owned())
}

/// The settings of an htmx project.
#[derive(Debug, Default)]
pub struct HtmxConfig {
    /// Backend language of the project.
    pub lang: String,
    /// File extension of the templates, one for the whole project.
    pub template_ext: String,
    /// Directories of templates.
    pub templates: Vec<String>,
    /// Directories of JavaScript and TypeScript sources.
    pub js_tags: Vec<String>,
    /// Directories of backend sources.
    pub backend_tags: Vec<String>,
    /// Set once the settings were read from the client.
    pub is_valid: bool,
}

/// The file extension of a supported backend language.
pub open spec fn backend_extension(lang: Seq<char>) -> Option<Seq<char>> {
    if lang == "rust"@ {
        Some("rs"@)
    } else if lang == "python"@ {
        Some("py"@)
    } else if lang == "go"@ {
        Some("go"@)
    } else {
        None
    }
}

/// Why a project's settings cannot be used.
#[derive(Clone, Copy, Debug, PartialEq, Eq)]
pub enum ConfigError {
    /// There are no settings.
    Missing,
    /// The template extension is empty or holds white space.
    TemplateExtension,
    /// The backend language is not one of `python`, `rust` and `go`.
    UnsupportedLanguage,
}

impl HtmxConfig {
    /// The classification of a file by its extension: scripts first, then
    /// the backend, which also counts as a template where the two
    /// extensions are the same, then the templates.
    pub open spec fn classify(&self, extension: Seq<char>) -> Option<LangTypes> {
        if extension == "js"@ || extension == "ts"@ {
            Some(LangTypes::One(LangType::JavaScript))
        } else if backend_extension(self.lang@) == Some(extension) {
            if self.template_ext@ == extension {
                Some(LangTypes::Two((LangType::Backend, LangType::Template)))
            } else {
                Some(LangTypes::One(LangType::Backend))
            }
        } else if extension == self.template_ext@ {
            Some(LangTypes::One(LangType::Template))
        } else {
            None
        }
    }

    /// Classifies a file extension.
    pub fn classify_extension(&self, extension: &str) -> (types: Option<LangTypes>)
        ensures
            types == self.classify(extension@),
    {
        if same_text(extension, "js") || same_text(extension, "ts") {
            Some(LangTypes::One(LangType::JavaScript))
        } else if self.is_backend(extension) {
            if same_text(self.template_ext.as_str(), extension) {
                Some(LangTypes::two((LangType::Backend, LangType::Template)))
            } else {
                Some(LangTypes::one(LangType::Backend))
            }
        } else if same_text(extension, self.template_ext.as_str()) {
            Some(LangTypes::one(LangType::Template))
        } else {
            None
        }
    }

    /// Classifies a file by the extension of its path.
    pub fn file_ext(&self, path: &str) -> (types: Option<LangTypes>)
        ensures
            types == match extension_of(path@) {
                Some(extension) => self.classify(extension),
                None => None,
            },
    {
        match path_extension(path) {
            Some(extension) => self.classify_extension(extension.as_str()),
            None => None,
        }
    }

    /// Whether `ext` is the file extension of the project's backend
    /// language.
    pub fn is_backend(&self, ext: &str) -> (backend: bool)
        ensures
            backend == (backend_extension(self.lang@) == Some(ext@)),
    {
        if same_text(self.lang.as_str(), "rust") {
            same_text(ext, "rs")
        } else if same_text(self.lang.as_str(), "python") {
            same_text(ext, "py")
        } else if same_text(self.lang.as_str(), "go") {
            same_text(ext, "go")
        } else {
            false
        }
    }

    /// Whether the backend language is one of `python`, `rust` and `go`.
    pub fn is_supported_backend(&self) -> (supported: bool)
        ensures
            supported == (backend_extension(self.lang@) is Some),
    {
        same_text(self.lang.as_str(), "python") || same_text(self.lang.as_str(), "rust")
            || same_text(self.lang.as_str(), "go")
    }

    /// Whether a pass over the files of a classification takes the file.
    pub fn takes(&self, path: &str, lang_type: LangType) -> (taken: bool)
        ensures
            taken == match extension_of(path@) {
                Some(extension) => match self.classify(extension) {
                    Some(types) => types.includes(lang_type),
                    None => false,
                },
                None => false,
            },
    {
        match self.file_ext(path) {
            Some(types) => types.is_lang(lang_type),
            None => false,
        }
    }

    /// Whether a pass over the files of a classification indexes what it
    /// met: a file whose path is text and that the pass takes.
    pub open spec fn wanted(
        &self,
        is_file: bool,
        path: Option<Seq<char>>,
        lang_type: LangType,
    ) -> bool {
        is_file && match path {
            Some(path) => match extension_of(path) {
                Some(extension) => match self.classify(extension) {
                    Some(types) => types.includes(lang_type),
                    None => false,
                },
                None => false,
            },
            None => false,
        }
    }

    /// Whether a pass indexes what it met.
    pub fn wants(&self, is_file: bool, path: Option<&str>, lang_type: LangType) -> (wanted: bool)
        ensures
            wanted == self.wanted(is_file, path.deep_view(), lang_type),
    {
        match path {
            Some(path) => is_file && self.takes(path, lang_type),
            None => false,
        }
    }

    /// What is wrong with the settings, if anything: the first of a bad
    /// template extension and an unsupported backend language.
    pub open spec fn fault(&self) -> Option<ConfigError> {
        if self.template_ext@.len() == 0 || holds_whitespace(self.template_ext@) {
            Some(ConfigError::TemplateExtension)
        } else if backend_extension(self.lang@) is None {
            Some(ConfigError::UnsupportedLanguage)
        } else {
            None
        }
    }
}

/// Marks the settings that the client sent as read.
pub fn validate_config(config: Option<HtmxConfig>) -> (valid: Option<HtmxConfig>)
    ensures
        match (config, valid) {
            (Some(sent), Some(read)) => read == (HtmxConfig { is_valid: true, ..sent }),
            (None, None) => true,
            _ => false,
        },
{
    match config {
        Some(mut config) => {
            config.is_valid = true;
            Some(config)
        },
        None => None,
    }
}

/// Reads the settings before the project is indexed, and says what is
/// wrong with them.
pub fn read_config(config: Option<&HtmxConfig>) -> (checked: Result<(), ConfigError>)
    ensures
        checked == match config {
            None => Err::<(), ConfigError>(ConfigError::Missing),
            Some(config) => match config.fault() {
                Some(error) => Err(error),
                None => Ok(()),
            },
        },
{
    match config {
        None => Err(ConfigError::Missing),
        Some(config) => {
            if config.template_ext.as_str().is_empty() || has_whitespace(
                config.template_ext.as_str(),
            ) {
                Err(ConfigError::TemplateExtension)
            } else if !config.is_supported_backend() {
                Err(ConfigError::UnsupportedLanguage)
            } else {
                Ok(())
            }
        },
    }
}

impl ConfigError {
    /// What the user is told: for an unsupported language, with the
    /// language.
    pub open spec fn text(self, lang: Seq<char>) -> Seq<char> {
        match self {
            ConfigError::Missing => "Config is not found"@,
            ConfigError::TemplateExtension => "Template extension not found."@,
            ConfigError::UnsupportedLanguage => "Language "@ + lang + " is not supported."@,
        }
    }

    /// The message for the user.
    pub fn message(&self, lang: &str) -> (message: String)
        ensures
            message@ == self.text(lang@),
    {
        match self {
            ConfigError::Missing => "Config is not found".to_owned(),
            ConfigError::TemplateExtension => "Template extension not found.".to_owned(),
            ConfigError::UnsupportedLanguage => {
                let mut message = "Language ".to_owned();
                message.append(lang);
                message.append(" is not supported.");
                message
            },
        }
    }
}

/// The message for a directory that does not exist.
pub fn missing_path_message(directory: &str) -> (message: String)
    ensures
        message@ == "Template path: "@ + directory@ + " does not exist"@,
{
    let mut message = "Template path: ".to_owned();
    message.append(directory);
    message.append(" does not exist");
    message
}

/// The URI of a file by its absolute path.
pub fn file_uri(name: &str) -> (uri: String)
    ensures
        uri@ == "file://"@ + name@,
{
    let mut uri = "file://".to_owned();
    uri.append(name);
    uri
}

/// How one step of the walk over the project's directories ended.
#[derive(Clone, Copy, Debug, PartialEq, Eq)]
pub enum WalkOutcome {
    /// The file was registered, parsed and read for tags.
    Indexed,
    /// The file was registered before, or no identifier is left for it.
    Known,
    /// The file could not be read.
    Unreadable,
    /// A configured directory does not exist or cannot be walked.
    Missing,
    /// What was met is no file of this pass.
    Skipped,
}

/// Whether the walk goes on behind a step: what is skipped, known or
/// unreadable is passed over, and only a missing directory ends the walk.
pub fn walk_goes_on(outcome: WalkOutcome) -> (on: bool)
    ensures
        on == (outcome != WalkOutcome::Missing),
{
    match outcome {
        WalkOutcome::Missing => false,
        _ => true,
    }
}

/// What indexing a file does to the files: the file is registered, and
/// where that gave an identifier and the file could be read, its text is
/// parsed and its tags are read.
pub open spec fn indexed(
    files: FilesView,
    name: Seq<char>,
    content: Option<Seq<char>>,
    lang_type: LangType,
) -> (FilesView, Seq<TagView>) {
    let registered = files.register("file://"@ + name);
    match (registered.1, content) {
        (Some(file), Some(text)) => registered.0.edited(file, Some(lang_type), lang_type, text),
        _ => (registered.0, Seq::empty()),
    }
}

/// How indexing a file ends.
pub open spec fn index_outcome(
    files: FilesView,
    name: Seq<char>,
    content: Option<Seq<char>>,
) -> WalkOutcome {
    if files.register("file://"@ + name).1 is None {
        WalkOutcome::Known
    } else if content is None {
        WalkOutcome::Unreadable
    } else {
        WalkOutcome::Indexed
    }
}

/// Indexes a file of the project: registers its URI, holds its text, parses
/// it and reads its tags. `content` is the file's text, if it could be
/// read.
pub fn add_file(
    name: &str,
    content: Option<&str>,
    lsp_files: &mut LspFiles,
    lang_type: LangType,
    queries: &Queries,
    diags: &mut Vec<Tag>,
    document_map: &mut DashMap<String, Rope>,
) -> (outcome: WalkOutcome)
    requires
        old(lsp_files).inv(),
    ensures
        final(lsp_files).inv(),
        final(lsp_files)@ == indexed(old(lsp_files)@, name@, content.deep_view(), lang_type).0,
        final(diags).deep_view() == old(diags).deep_view() + indexed(
            old(lsp_files)@,
            name@,
            content.deep_view(),
            lang_type,
        ).1,
        outcome == index_outcome(old(lsp_files)@, name@, content.deep_view()),
        texts_of(*final(document_map)) == match content {
            Some(text) if outcome == WalkOutcome::Indexed => texts_of(*old(document_map)).insert(
                "file://"@ + name@,
                text@,
            ),
            _ => texts_of(*old(document_map)),
        },
{
    proof {
        assert(diags.deep_view() + Seq::<TagView>::empty() =~= diags.deep_view());
    }
    let file = match lsp_files.add_file(file_uri(name)) {
        Some(file) => file,
        None => { return WalkOutcome::Known; },
    };
    let content = match content {
        Some(content) => content,
        None => { return WalkOutcome::Unreadable; },
    };
    texts_insert(document_map, file_uri(name), content);
    lsp_files.add_tree(file, Some(lang_type), content);
    let _ = lsp_files.add_tags_from_file(file, lang_type, content, false, queries, diags);
    WalkOutcome::Indexed
}

/// How a step of the walk ends: what is not wanted is skipped, a file
/// without a name of its own is unreadable, and any other file is indexed.
pub open spec fn entry_outcome(
    files: FilesView,
    wanted: bool,
    name: Option<Seq<char>>,
    content: Option<Seq<char>>,
) -> WalkOutcome {
    if !wanted {
        WalkOutcome::Skipped
    } else {
        match name {
            Some(name) => index_outcome(files, name, content),
            None => WalkOutcome::Unreadable,
        }
    }
}

/// What a step of the walk does to the files.
pub open spec fn entered(
    files: FilesView,
    wanted: bool,
    name: Option<Seq<char>>,
    content: Option<Seq<char>>,
    lang_type: LangType,
) -> (FilesView, Seq<TagView>) {
    match name {
        Some(name) if wanted => indexed(files, name, content, lang_type),
        _ => (files, Seq::empty()),
    }
}

/// One step of the walk over a directory. `wanted` says whether the pass
/// indexes what it met; `name` is the file's absolute path, if it has one,
/// and `content` its text, if it could be read.
pub fn index_entry(
    wanted: bool,
    name: Option<&str>,
    content: Option<&str>,
    lsp_files: &mut LspFiles,
    lang_type: LangType,
    queries: &Queries,
    diags: &mut Vec<Tag>,
    document_map: &mut DashMap<String, Rope>,
) -> (outcome: WalkOutcome)
    requires
        old(lsp_files).inv(),
    ensures
        final(lsp_files).inv(),
        outcome == entry_outcome(old(lsp_files)@, wanted, name.deep_view(), content.deep_view()),
        final(lsp_files)@ == entered(
            old(lsp_files)@,
            wanted,
            name.deep_view(),
            content.deep_view(),
            lang_type,
        ).0,
        final(diags).deep_view() == old(diags).deep_view() + entered(
            old(lsp_files)@,
            wanted,
            name.deep_view(),
            content.deep_view(),
            lang_type,
        ).1,
        texts_of(*final(document_map)) == match (name, content) {
            (Some(name), Some(text)) if outcome == WalkOutcome::Indexed => texts_of(
                *old(document_map),
            ).insert("file://"@ + name@, text@),
            _ => texts_of(*old(document_map)),
        },
{
    proof {
        assert(diags.deep_view() + Seq::<TagView>::empty() =~= diags.deep_view());
    }
    if !wanted {
        return WalkOutcome::Skipped;
    }
    match name {
        Some(name) => add_file(name, content, lsp_files, lang_type, queries, diags, document_map),
        None => WalkOutcome::Unreadable,
    }
}

} // verus!
