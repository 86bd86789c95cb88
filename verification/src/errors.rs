//! The errors a bundle query can end in. Each carries the path it is about,
//! as a sequence of components, where one helps to diagnose the failure.

use vstd::prelude::*;

verus! {

/// Why a root search or an extraction failed.
#[derive(Debug)]
pub enum MgError {
    /// The supplied search path does not exist or is not a directory.
    NotADirectory { path: Vec<String> },
    /// The root-finding heuristic could not uniquely descend to a bundle root.
    AmbiguousOrMissingRoot,
    /// The root search descended through more wrapper directories than the
    /// fixed depth bound allows.
    DepthLimitExceeded,
    /// A file or directory could not be read. Never produced by the queries
    /// themselves, which work on an in-memory tree; a caller loading the real
    /// filesystem reports its read failures with this.
    ReadError { path: Vec<String> },
    /// A document file's block nesting or anchor count is over the guard
    /// bounds that keep the parser's recursion in check.
    NestingLimitExceeded { path: Vec<String> },
    /// A file's content is not a well-formed structured document.
    ParseError { path: Vec<String> },
    /// A file expected to hold exactly one document holds more or fewer.
    MultiDocumentFile { path: Vec<String> },
    /// A list-type document lacks a usable `items` array.
    UnexpectedShape { path: Vec<String> },
    /// Neither on-disk layout could be located for the requested resource
    /// type; `path` names the directory that was probed.
    ResourcesNotFound { path: Vec<String> },
}

impl MgError {
    /// A short description of the error kind.
    pub fn message(&self) -> (r: &'static str)
        ensures
            match self {
                MgError::NotADirectory { .. } => r@ == "Path is not a directory"@,
                MgError::AmbiguousOrMissingRoot => r@ == "Cannot determine root of must-gather"@,
                MgError::DepthLimitExceeded => r@ == "Exceeded depth limit while searching for root of must-gather"@,
                MgError::ReadError { .. } => r@ == "Failed to read path"@,
                MgError::NestingLimitExceeded { .. } => r@
                    == "Exceeds the supported yaml nesting and anchor bounds"@,
                MgError::ParseError { .. } => r@ == "Expected a well-formed yaml document"@,
                MgError::MultiDocumentFile { .. } => r@ == "Expected to contain only one yaml document"@,
                MgError::UnexpectedShape { .. } => r@ == "Does not look like a list type resource"@,
                MgError::ResourcesNotFound { .. } => r@ == "Can not find suitable manifests"@,
            },
    {
        match self {
            MgError::NotADirectory { .. } => "Path is not a directory",
            MgError::AmbiguousOrMissingRoot => "Cannot determine root of must-gather",
            MgError::DepthLimitExceeded => "Exceeded depth limit while searching for root of must-gather",
            MgError::ReadError { .. } => "Failed to read path",
            MgError::NestingLimitExceeded { .. } => "Exceeds the supported yaml nesting and anchor bounds",
            MgError::ParseError { .. } => "Expected a well-formed yaml document",
            MgError::MultiDocumentFile { .. } => "Expected to contain only one yaml document",
            MgError::UnexpectedShape { .. } => "Does not look like a list type resource",
            MgError::ResourcesNotFound { .. } => "Can not find suitable manifests",
        }
    }

    /// The path the error is about, where the error carries one.
    pub fn path(&self) -> (r: Option<&Vec<String>>)
        ensures
            match self {
                MgError::NotADirectory { path }
                | MgError::ReadError { path }
                | MgError::NestingLimitExceeded { path }
                | MgError::ParseError { path }
                | MgError::MultiDocumentFile { path }
                | MgError::UnexpectedShape { path }
                | MgError::ResourcesNotFound { path } => r == Some(path),
                MgError::AmbiguousOrMissingRoot | MgError::DepthLimitExceeded => r is None,
            },
    {
        match self {
            MgError::NotADirectory { path }
            | MgError::ReadError { path }
            | MgError::NestingLimitExceeded { path }
            | MgError::ParseError { path }
            | MgError::MultiDocumentFile { path }
            | MgError::UnexpectedShape { path }
            | MgError::ResourcesNotFound { path } => Some(path),
            MgError::AmbiguousOrMissingRoot | MgError::DepthLimitExceeded => None,
        }
    }
}

} // verus!
