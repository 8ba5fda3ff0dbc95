//! The two recoverable error kinds of the core: a failed or malformed remote
//! fetch, and a uniform choice asked of an empty candidate set. Neither is
//! fatal; both are explicit states the caller can render.

use vstd::prelude::*;

verus! {

/// A fetch of the index or of a scenario body failed: the network failed,
/// the server answered with a non-success status, or the body did not match
/// the expected schema. The fetching layer maps its own failures into this
/// type before handing control back to the core.
#[derive(Debug, Clone, PartialEq, Eq)]
pub enum FetchError {
    Network(String),
    Status(u16),
    Schema(String),
}

/// A uniform choice was asked of an empty candidate set: a scenario with no
/// scenes, or a scene with no message templates. This marks malformed
/// catalog data and is surfaced as a distinct recoverable error instead of a
/// crash.
#[derive(Debug, Clone, PartialEq, Eq)]
pub struct EmptyChoiceError;

} // verus!
