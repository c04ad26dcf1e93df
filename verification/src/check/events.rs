use crate::repos::domains::{ChunkId, FiefId};
use vstd::prelude::*;

verus! {

/// How many checks of a fief in a row had failed before the one that is reported.
#[derive(Debug, Clone, Copy, PartialEq, Eq, Structural)]
pub struct RetryTimes(pub usize);

/// What a check lets the outside know.
#[derive(Debug, Clone, PartialEq, Eq)]
pub enum Event {
    /// The check of a fief failed.
    CheckFailed(FiefId, RetryTimes),
    /// Every chunk of a fief was checked and none has changed.
    CheckSuccess(FiefId),
    /// Every chunk of a fief was checked; the chunks listed have changed.
    DiffFound(FiefId, Vec<ChunkId>),
    /// A tile could not be fetched.
    NetworkError(String),
    /// A chunk has no reference image.
    ChunkRefMissing(FiefId, ChunkId),
    /// A chunk has no mask.
    ChunkMaskMissing(FiefId, ChunkId),
}

} // verus!
