//! Error types surfaced by the engine.

use vstd::prelude::*;

verus! {

/// Failures while resolving or caching a source.
#[derive(Debug)]
pub enum SourceError {
    SourceUnsupported(String),
    NoDefaultBranch,
    SourceNotFound(String),
    SourceInvalidPath(String),
    SourceInvalidEncoding(String),
    RemoteSourceError(String),
    OfflineAndNotCached(String),
    IoError(String),
    RequirementsError { path: String, cause: String },
}

/// Failures while rendering templates, paths, or file contents.
#[derive(Debug)]
pub enum RenderError {
    StringRenderError { string: String, message: String },
    PathRenderError { path: String, message: String },
    FileRenderError { path: String, message: String },
}

/// Failures while loading an archetype.
#[derive(Debug)]
pub enum ArchetypeError {
    ArchetypeInvalid,
    Source(SourceError),
    /// The source is a remote repository that a git driver must first
    /// materialize into the cache.
    RemoteSource { url: String, cache_path: String, gitref: Option<String> },
}

/// Failures of the layout provider.
#[derive(Debug)]
pub enum SystemError {
    GenericError(String),
}

/// The top-level error: any failure during a scaffolding run.
#[derive(Debug)]
pub enum ArchetectError {
    Archetype(ArchetypeError),
    Source(SourceError),
    Render(RenderError),
    System(SystemError),
    /// A variable could not be resolved without prompting while running
    /// headless.
    Headless(String),
    /// A `loop` action exhausted the caller-supplied iteration budget
    /// without executing a `break`.
    IterationLimit,
}

} // verus!
