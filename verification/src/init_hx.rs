//! The lexical domains of a project's files.

use vstd::prelude::*;

verus! {

/// The classification of a file: markup, script or backend source.
#[derive(Clone, Copy, Debug, PartialEq, Eq)]
pub enum LangType {
    Template,
    JavaScript,
    Backend,
}

impl LangType {
    pub fn is(&self, other: LangType) -> (same: bool)
        ensures
            same == (*self == other),
    {
        match (self, other) {
            (LangType::Template, LangType::Template) => true,
            (LangType::JavaScript, LangType::JavaScript) => true,
            (LangType::Backend, LangType::Backend) => true,
            _ => false,
        }
    }
}

impl From<usize> for LangType {
    /// The classification of the directories of a pass over the project:
    /// templates first, scripts second, backend sources after that.
    fn from(index: usize) -> (lang_type: LangType) {
        if index == 0 {
            LangType::Template
        } else if index == 1 {
            LangType::JavaScript
        } else {
            LangType::Backend
        }
    }
}

impl vstd::std_specs::convert::FromSpecImpl<usize> for LangType {
    open spec fn obeys_from_spec() -> bool {
        true
    }

    open spec fn from_spec(index: usize) -> LangType {
        if index == 0 {
            LangType::Template
        } else if index == 1 {
            LangType::JavaScript
        } else {
            LangType::Backend
        }
    }
}

/// One classification, or two where the backend and the templates share a
/// file extension.
#[derive(Clone, Copy, Debug, PartialEq, Eq)]
pub enum LangTypes {
    One(LangType),
    Two((LangType, LangType)),
}

impl LangTypes {
    pub fn one(lang_type: LangType) -> (types: LangTypes)
        ensures
            types == LangTypes::One(lang_type),
    {
        LangTypes::One(lang_type)
    }

    pub fn two(lang_types: (LangType, LangType)) -> (types: LangTypes)
        ensures
            types == LangTypes::Two(lang_types),
    {
        LangTypes::Two(lang_types)
    }

    /// The classification under which a file's tags are read: the first
    /// that is no template.
    pub open spec fn source(self) -> Option<LangType> {
        match self {
            LangTypes::One(only) => if only == LangType::Template {
                None
            } else {
                Some(only)
            },
            LangTypes::Two((first, second)) => if first != LangType::Template {
                Some(first)
            } else if second != LangType::Template {
                Some(second)
            } else {
                None
            },
        }
    }

    /// The first of the classifications that is no template.
    pub fn source_type(&self) -> (lang_type: Option<LangType>)
        ensures
            lang_type == self.source(),
    {
        match self {
            LangTypes::One(only) => if only.is(LangType::Template) {
                None
            } else {
                Some(*only)
            },
            LangTypes::Two((first, second)) => if !first.is(LangType::Template) {
                Some(*first)
            } else if !second.is(LangType::Template) {
                Some(*second)
            } else {
                None
            },
        }
    }

    pub open spec fn includes(self, lang_type: LangType) -> bool {
        match self {
            LangTypes::One(only) => only == lang_type,
            LangTypes::Two((first, second)) => first == lang_type || second == lang_type,
        }
    }

    /// Whether `lang_type` is among the classifications.
    pub fn is_lang(&self, lang_type: LangType) -> (found: bool)
        ensures
            found == self.includes(lang_type),
    {
        match self {
            LangTypes::One(only) => only.is(lang_type),
            LangTypes::Two((first, second)) => first.is(lang_type) || second.is(lang_type),
        }
    }
}

} // verus!
