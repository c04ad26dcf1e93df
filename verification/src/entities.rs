use vstd::prelude::*;

verus! {

/// A row of the table of users.
#[derive(Debug, Clone, PartialEq, Eq, Structural)]
pub struct User {
    pub id: i64,
    pub is_admin: bool,
}

/// A row of the table of fiefs. Times are seconds since the Unix epoch.
#[derive(Debug, Clone, PartialEq, Eq)]
pub struct Fief {
    pub id: i64,
    pub name: String,
    pub check_interval_min: i64,
    pub last_check: i64,
    pub skip_check_until: i64,
    pub should_check_now: bool,
}

/// A row of the table of members: one user in one fief, with what the user may do there.
#[derive(Debug, Clone, PartialEq, Eq, Structural)]
pub struct Member {
    pub fief_id: i64,
    pub user_id: i64,
    pub permissions: i64,
}

/// One user in one fief, with what the user may do there, as the table of members holds it.
#[derive(Debug, Clone, PartialEq, Eq, Structural)]
pub struct FiefMember {
    pub fief_id: i64,
    pub user_id: i64,
    pub permissions: i64,
}

/// The place of a chunk, as two columns of its row.
#[derive(Debug, Clone, PartialEq, Eq, Structural)]
pub struct Position {
    pub x: i64,
    pub y: i64,
}

/// A row of the table of chunks, without the columns that hold images.
#[derive(Debug, Clone, PartialEq, Eq)]
pub struct ChunkWithoutImgs {
    pub id: i64,
    pub name: String,
    pub fief_id: i64,
    pub position: Position,
    pub diff_count: i64,
}

} // verus!
