pub mod bitmap;
pub mod config;
pub mod lock;
pub mod net;
pub mod png;

use vstd::prelude::*;

verus! {

/// Width, in pixels, of one tile of the canvas.
pub const WPLACE_CHUNK_WIDTH: usize = 1000;

/// Height, in pixels, of one tile of the canvas.
pub const WPLACE_CHUNK_HEIGHT: usize = 1000;

/// A tile coordinate, or a pixel coordinate inside one tile.
#[derive(PartialEq, Eq, Structural, PartialOrd, Ord, Debug, Clone, Copy, Hash)]
pub struct Position {
    pub x: usize,
    pub y: usize,
}

impl Position {
    pub fn new(x: usize, y: usize) -> (p: Self)
        ensures
            p == (Position { x, y }),
    {
        Self { x, y }
    }

    /// Strict lexicographic order: by `x` first, then by `y`.
    pub open spec fn precedes(self, other: Position) -> bool {
        self.x < other.x || (self.x == other.x && self.y < other.y)
    }
}

impl From<[usize; 2]> for Position {
    fn from(value: [usize; 2]) -> (p: Self) {
        Self { x: value[0], y: value[1] }
    }
}

impl vstd::std_specs::convert::FromSpecImpl<[usize; 2]> for Position {
    open spec fn obeys_from_spec() -> bool {
        true
    }

    open spec fn from_spec(value: [usize; 2]) -> Self {
        Position { x: value[0], y: value[1] }
    }
}

} // verus!
