//! A verified resolution and download pipeline for segmented media
//! artifacts.
//!
//! The library turns an opaque locator into one or more [`manifest::Manifest`]s
//! — each an ordered list of segment URLs — through a chain of dependent
//! lookups and two opaque decode transformations, then plans how a fixed
//! pool of workers downloads the segments and how the buffers they return
//! are reassembled, in the original order, into one contiguous artifact.
//!
//! All network fetches, external decode invocations, document field
//! extraction and file writes are performed by the caller; the library
//! supplies the decisions — which action to perform next, how to
//! partition the index, when to fail, when to skip, and how to put the
//! pieces back together — each with a verified contract.

pub mod artifact;
pub mod chunks;
pub mod download;
pub mod errors;
pub mod manifest;
pub mod progress;
pub mod resolver;
pub mod text;
