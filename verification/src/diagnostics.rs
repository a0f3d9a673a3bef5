//! What the server reports about tags: warnings at the tags whose names
//! are taken, and the places where tags are declared.

use vstd::prelude::*;
use crate::htmx_tags::TagView;
use crate::text::same_text;

verus! {

/// The message of the warning at a tag whose name is taken.
pub const TAG_EXISTS: &'static str = "This tag already exist.";

/// The source that the warnings name.
pub const WARNING_SOURCE: &'static str = "htmx-lsp";

/// A warning at the span of a tag whose name is taken.
#[derive(Clone, Copy, Debug, PartialEq, Eq)]
pub struct TagWarning {
    pub line: usize,
    pub start: usize,
    pub end: usize,
}

/// The warnings of one file.
#[derive(Debug)]
pub struct FileWarnings {
    pub uri: String,
    pub warnings: Vec<TagWarning>,
}

pub struct FileWarningsView {
    pub uri: Seq<char>,
    pub warnings: Seq<TagWarning>,
}

impl View for FileWarnings {
    type V = FileWarningsView;

    open spec fn view(&self) -> FileWarningsView {
        FileWarningsView { uri: self.uri@, warnings: self.warnings@ }
    }
}

impl DeepView for FileWarnings {
    type V = FileWarningsView;

    open spec fn deep_view(&self) -> FileWarningsView {
        self@
    }
}

/// How grave a diagnostic is.
#[derive(Clone, Copy, Debug, PartialEq, Eq)]
pub enum Severity {
    Error,
    Warning,
    Information,
    Hint,
}

/// A warning as the editor shows it: its span, how grave it is, what it
/// says and who says it.
#[derive(Debug, PartialEq, Eq)]
pub struct TagDiagnostic {
    pub line: usize,
    pub start: usize,
    pub end: usize,
    pub severity: Severity,
    pub message: String,
    pub source: String,
}

pub struct TagDiagnosticView {
    pub line: usize,
    pub start: usize,
    pub end: usize,
    pub severity: Severity,
    pub message: Seq<char>,
    pub source: Seq<char>,
}

impl View for TagDiagnostic {
    type V = TagDiagnosticView;

    open spec fn view(&self) -> TagDiagnosticView {
        TagDiagnosticView {
            line: self.line,
            start: self.start,
            end: self.end,
            severity: self.severity,
            message: self.message@,
            source: self.source@,
        }
    }
}

/// What the editor shows for a tag whose name is taken: a warning at the
/// tag's span that says so and names this server.
pub open spec fn shown(warning: TagWarning) -> TagDiagnosticView {
    TagDiagnosticView {
        line: warning.line,
        start: warning.start,
        end: warning.end,
        severity: Severity::Warning,
        message: TAG_EXISTS@,
        source: WARNING_SOURCE@,
    }
}

/// Builds what the editor shows for a warning.
pub fn describe(warning: TagWarning) -> (diagnostic: TagDiagnostic)
    ensures
        diagnostic@ == shown(warning),
{
    TagDiagnostic {
        line: warning.line,
        start: warning.start,
        end: warning.end,
        severity: Severity::Warning,
        message: TAG_EXISTS.to_owned(),
        source: WARNING_SOURCE.to_owned(),
    }
}

/// Where a tag is declared.
#[derive(Debug, PartialEq, Eq)]
pub struct TagLocation {
    pub uri: String,
    pub line: usize,
    pub start: usize,
    pub end: usize,
}

pub struct TagLocationView {
    pub uri: Seq<char>,
    pub line: usize,
    pub start: usize,
    pub end: usize,
}

impl View for TagLocation {
    type V = TagLocationView;

    open spec fn view(&self) -> TagLocationView {
        TagLocationView { uri: self.uri@, line: self.line, start: self.start, end: self.end }
    }
}

impl DeepView for TagLocation {
    type V = TagLocationView;

    open spec fn deep_view(&self) -> TagLocationView {
        self@
    }
}

/// The warning at a tag's span.
pub open spec fn warning_at(tag: TagView) -> TagWarning {
    TagWarning { line: tag.line, start: tag.start, end: tag.end }
}

/// The warnings with one more for the file: behind the file's warnings
/// where it has some, and else as a new file's behind the others.
pub open spec fn filed(groups: Seq<FileWarningsView>, uri: Seq<char>, warning: TagWarning) -> Seq<
    FileWarningsView,
>
    decreases groups.len(),
{
    if groups.len() == 0 {
        seq![FileWarningsView { uri, warnings: seq![warning] }]
    } else if groups[0].uri == uri {
        seq![FileWarningsView { uri, warnings: groups[0].warnings.push(warning) }]
            + groups.drop_first()
    } else {
        seq![groups[0]] + filed(groups.drop_first(), uri, warning)
    }
}

/// Whether no URI has its warnings in two places.
pub open spec fn distinct_uris(groups: Seq<FileWarningsView>) -> bool {
    forall|i: int, j: int| 0 <= i < j < groups.len() ==> groups[i].uri != groups[j].uri
}

/// Filing a warning keeps the files in their places: the warning goes to
/// its file's place, or to a new place behind the others where the file had
/// none.
pub proof fn lemma_filed_places(groups: Seq<FileWarningsView>, uri: Seq<char>, warning: TagWarning)
    ensures
        ({
            let after = filed(groups, uri, warning);
            &&& groups.len() <= after.len() <= groups.len() + 1
            &&& forall|i: int| 0 <= i < groups.len() ==> after[i].uri == groups[i].uri
            &&& after.len() > groups.len() ==> after.last().uri == uri && forall|i: int|
                0 <= i < groups.len() ==> groups[i].uri != uri
        }),
    decreases groups.len(),
{
    if groups.len() > 0 && groups[0].uri != uri {
        let rest = groups.drop_first();
        lemma_filed_places(rest, uri, warning);
        let after = filed(groups, uri, warning);
        assert(after =~= seq![groups[0]] + filed(rest, uri, warning));
        assert forall|i: int| 0 <= i < groups.len() implies after[i].uri == groups[i].uri by {
            if i > 0 {
                assert(groups[i] == rest[i - 1]);
            }
        }
        if after.len() > groups.len() {
            assert forall|i: int| 0 <= i < groups.len() implies groups[i].uri != uri by {
                if i > 0 {
                    assert(groups[i] == rest[i - 1]);
                }
            }
        }
    }
}

/// Filing a warning never gives a URI a second place.
pub proof fn lemma_filed_distinct(
    groups: Seq<FileWarningsView>,
    uri: Seq<char>,
    warning: TagWarning,
)
    requires
        distinct_uris(groups),
    ensures
        distinct_uris(filed(groups, uri, warning)),
{
    lemma_filed_places(groups, uri, warning);
}

/// Adds a warning to those of the file. No URI gets a second place.
pub fn file_warning(groups: &mut Vec<FileWarnings>, uri: String, warning: TagWarning)
    ensures
        final(groups).deep_view() == filed(old(groups).deep_view(), uri@, warning),
        distinct_uris(old(groups).deep_view()) ==> distinct_uris(final(groups).deep_view()),
{
    proof {
        if distinct_uris(groups.deep_view()) {
            lemma_filed_distinct(groups.deep_view(), uri@, warning);
        }
    }
    let ghost before = groups.deep_view();
    let mut i: usize = 0;
    proof {
        assert(before.skip(0) =~= before);
    }
    while i < groups.len()
        invariant
            i <= groups.len(),
            groups.deep_view() == before,
            before == old(groups).deep_view(),
            distinct_uris(before) ==> distinct_uris(filed(before, uri@, warning)),
            filed(before, uri@, warning) == before.take(i as int) + filed(
                before.skip(i as int),
                uri@,
                warning,
            ),
        decreases groups.len() - i,
    {
        let ghost rest = before.skip(i as int);
        proof {
            assert(rest.drop_first() =~= before.skip(i + 1));
        }
        if same_text(groups[i].uri.as_str(), uri.as_str()) {
            groups[i].warnings.push(warning);
            proof {
                assert(groups.deep_view() =~= filed(before, uri@, warning));
            }
            return ;
        }
        i += 1;
    }
    let mut warnings: Vec<TagWarning> = Vec::new();
    warnings.push(warning);
    groups.push(FileWarnings { uri, warnings });
    proof {
        assert(groups.deep_view() =~= filed(before, uri@, warning));
    }
}

} // verus!
