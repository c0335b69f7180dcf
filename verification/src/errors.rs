use vstd::prelude::*;

verus! {

/// The steps of the resolution chain at which a failure can occur.
///
/// Every error produced while resolving a locator into a manifest is
/// tagged with the step that failed, so a caller can diagnose a failed
/// resolution without re-running it.
#[derive(Clone, Copy, Debug, PartialEq, Eq)]
pub enum ResolveStep {
    /// Fetching the page that names a title's player embed location.
    FetchSourcePage,
    /// Fetching the player page that carries the two hash tokens.
    FetchHashPage,
    /// The first external decode: hash tokens to the file-id page URL.
    DecodeFileIdUrl,
    /// Fetching the page that carries the encoded file id.
    FetchFilePage,
    /// The second external decode: encoded file id to the index URL.
    DecodeIndexUrl,
    /// Fetching the index document itself.
    FetchIndex,
}

/// Every failure the pipeline can report.
///
/// The variants are non-overlapping: a fetch that fails on the wire or
/// with a bad status is `Transport`; a fetched document missing an
/// expected field is `Extraction`; a failed external decode invocation
/// is `Decode`; a file-id marker that is absent or malformed is
/// `InvalidFileId`; and a segment download that returned a non-success
/// status is `ChunkDownload`, carrying that status.
#[derive(Clone, Copy, Debug, PartialEq, Eq)]
#[allow(inconsistent_fields)]
pub enum VidsrcError {
    /// A document fetch failed, either on the wire (`status` is `None`)
    /// or with a non-success HTTP status.
    Transport { step: ResolveStep, status: Option<u16> },
    /// An expected field or section was absent from a fetched document.
    Extraction { step: ResolveStep },
    /// An external decode invocation failed or reported an error.
    Decode { step: ResolveStep },
    /// The file-id marker was missing or malformed in the fetched page.
    InvalidFileId,
    /// A segment in a chunk returned a non-success HTTP status.
    ChunkDownload { status: u16 },
}

} // verus!
