use crate::common::Position;
use vstd::prelude::*;
use vstd::string::StrSliceExecFns;

verus! {

/// The key of a chunk.
#[derive(PartialEq, Eq, Structural, PartialOrd, Ord, Debug, Clone, Copy, Hash)]
pub struct ChunkId(pub i64);

impl From<i64> for ChunkId {
    fn from(value: i64) -> (id: Self) {
        Self(value)
    }
}

impl vstd::std_specs::convert::FromSpecImpl<i64> for ChunkId {
    open spec fn obeys_from_spec() -> bool {
        true
    }

    open spec fn from_spec(value: i64) -> Self {
        ChunkId(value)
    }
}

/// A part of a fief: one tile, with a name that no other chunk of the fief has.
#[derive(PartialEq, Eq, Debug, Clone, Hash)]
pub struct Chunk {
    pub id: ChunkId,
    pub name: String,
    pub fief_id: FiefId,
    pub position: Position,
}

/// The key of a fief.
#[derive(PartialEq, Eq, Structural, PartialOrd, Ord, Debug, Clone, Copy, Hash)]
pub struct FiefId(pub i64);

impl From<i64> for FiefId {
    fn from(value: i64) -> (id: Self) {
        Self(value)
    }
}

impl vstd::std_specs::convert::FromSpecImpl<i64> for FiefId {
    open spec fn obeys_from_spec() -> bool {
        true
    }

    open spec fn from_spec(value: i64) -> Self {
        FiefId(value)
    }
}

/// A watched region. Times are seconds since the Unix epoch, the interval is in minutes.
#[derive(PartialEq, Eq, Debug, Clone, Hash)]
pub struct Fief {
    pub id: FiefId,
    pub name: String,
    pub check_interval_min: i64,
    pub last_check: i64,
    pub skip_check_until: i64,
}

/// The key of a user.
#[derive(PartialEq, Eq, Structural, PartialOrd, Ord, Debug, Clone, Copy, Hash)]
pub struct UserId(pub i64);

impl From<i64> for UserId {
    fn from(value: i64) -> (id: Self) {
        Self(value)
    }
}

impl vstd::std_specs::convert::FromSpecImpl<i64> for UserId {
    open spec fn obeys_from_spec() -> bool {
        true
    }

    open spec fn from_spec(value: i64) -> Self {
        UserId(value)
    }
}

#[derive(PartialEq, Eq, Structural, Debug, Clone, Hash)]
pub struct User {
    pub id: UserId,
    pub is_admin: bool,
}

/// The key of a stored event.
#[derive(PartialEq, Eq, Structural, PartialOrd, Ord, Debug, Clone, Copy, Hash)]
pub struct EventId(pub i64);

impl From<i64> for EventId {
    fn from(value: i64) -> (id: Self) {
        Self(value)
    }
}

impl vstd::std_specs::convert::FromSpecImpl<i64> for EventId {
    open spec fn obeys_from_spec() -> bool {
        true
    }

    open spec fn from_spec(value: i64) -> Self {
        EventId(value)
    }
}

#[derive(PartialEq, Eq, Structural, Debug, Clone, Hash)]
pub struct DiffFoundEvent {
    pub fief: FiefId,
    pub diff_count: usize,
}

/// Checks of a fief were switched off until `until`, in seconds since the Unix epoch.
#[derive(PartialEq, Eq, Structural, Debug, Clone, Hash)]
pub struct SkipCheckBeginEvent {
    pub fief: FiefId,
    pub who: UserId,
    pub until: i64,
}

#[derive(PartialEq, Eq, Structural, Debug, Clone, Hash)]
pub struct SkipCheckEndEvent {
    pub fief: FiefId,
    pub is_cancellation: bool,
}

#[derive(PartialEq, Eq, Debug, Clone, Hash)]
pub struct AppErrorEvent {
    pub description: String,
}

#[derive(PartialEq, Eq, Debug, Clone, Hash)]
pub struct CheckErrorEvent {
    pub description: String,
}

/// What is written down of the life of the monitor.
#[derive(PartialEq, Eq, Debug, Clone, Hash)]
pub enum EventKind {
    AppStart,
    AppStop,
    DiffFound(DiffFoundEvent),
    SkipCheckBegin(SkipCheckBeginEvent),
    SkipCheckEnd(SkipCheckEndEvent),
    AppError(AppErrorEvent),
    CheckError(CheckErrorEvent),
}

/// Of which kind a stored event is, without what it holds.
#[derive(PartialEq, Eq, Structural, Debug, Clone, Copy, Hash)]
pub enum RawKind {
    AppStart,
    AppStop,
    DiffFound,
    SkipCheckBegin,
    SkipCheckEnd,
    AppError,
    CheckError,
}

impl RawKind {
    /// The name under which events of this kind are stored.
    pub open spec fn spec_name(self) -> Seq<char> {
        match self {
            RawKind::AppStart => "APP_START"@,
            RawKind::AppStop => "APP_STOP"@,
            RawKind::DiffFound => "DIFF_FOUND"@,
            RawKind::SkipCheckBegin => "SKIP_CHECK_BEGIN"@,
            RawKind::SkipCheckEnd => "SKIP_CHECK_END"@,
            RawKind::AppError => "APP_ERROR"@,
            RawKind::CheckError => "CHECK_ERROR"@,
        }
    }

    pub fn name(self) -> (name: &'static str)
        ensures
            name@ == self.spec_name(),
    {
        match self {
            RawKind::AppStart => "APP_START",
            RawKind::AppStop => "APP_STOP",
            RawKind::DiffFound => "DIFF_FOUND",
            RawKind::SkipCheckBegin => "SKIP_CHECK_BEGIN",
            RawKind::SkipCheckEnd => "SKIP_CHECK_END",
            RawKind::AppError => "APP_ERROR",
            RawKind::CheckError => "CHECK_ERROR",
        }
    }

    /// The kind that is stored under `name`, where there is one.
    pub fn from_name(name: &str) -> (kind: Option<RawKind>)
        ensures
            match kind {
                Some(k) => name@ == k.spec_name(),
                None => forall|k: RawKind| name@ != #[trigger] k.spec_name(),
            },
    {
        if same_text(name, "APP_START") {
            Some(RawKind::AppStart)
        } else if same_text(name, "APP_STOP") {
            Some(RawKind::AppStop)
        } else if same_text(name, "DIFF_FOUND") {
            Some(RawKind::DiffFound)
        } else if same_text(name, "SKIP_CHECK_BEGIN") {
            Some(RawKind::SkipCheckBegin)
        } else if same_text(name, "SKIP_CHECK_END") {
            Some(RawKind::SkipCheckEnd)
        } else if same_text(name, "APP_ERROR") {
            Some(RawKind::AppError)
        } else if same_text(name, "CHECK_ERROR") {
            Some(RawKind::CheckError)
        } else {
            None
        }
    }
}

impl EventKind {
    pub open spec fn spec_raw_kind(self) -> RawKind {
        match self {
            EventKind::AppStart => RawKind::AppStart,
            EventKind::AppStop => RawKind::AppStop,
            EventKind::DiffFound(_) => RawKind::DiffFound,
            EventKind::SkipCheckBegin(_) => RawKind::SkipCheckBegin,
            EventKind::SkipCheckEnd(_) => RawKind::SkipCheckEnd,
            EventKind::AppError(_) => RawKind::AppError,
            EventKind::CheckError(_) => RawKind::CheckError,
        }
    }

    /// Of which kind the event is.
    pub fn raw_kind(&self) -> (kind: RawKind)
        ensures
            kind == self.spec_raw_kind(),
    {
        match self {
            EventKind::AppStart => RawKind::AppStart,
            EventKind::AppStop => RawKind::AppStop,
            EventKind::DiffFound(_) => RawKind::DiffFound,
            EventKind::SkipCheckBegin(_) => RawKind::SkipCheckBegin,
            EventKind::SkipCheckEnd(_) => RawKind::SkipCheckEnd,
            EventKind::AppError(_) => RawKind::AppError,
            EventKind::CheckError(_) => RawKind::CheckError,
        }
    }
}

/// Whether two texts are made of the same characters.
fn same_text(a: &str, b: &str) -> (same: bool)
    ensures
        same == (a@ == b@),
{
    let n: usize = a.unicode_len();
    if n != b.unicode_len() {
        return false;
    }
    let mut i: usize = 0;
    while i < n
        invariant
            i <= n,
            n == a@.len(),
            n == b@.len(),
            forall|j: int| 0 <= j < i ==> a@[j] == b@[j],
        decreases n - i,
    {
        if a.get_char(i) != b.get_char(i) {
            return false;
        }
        i += 1;
    }
    assert(a@ =~= b@);
    true
}

/// No two kinds are stored under the same name.
pub proof fn lemma_names_differ(a: RawKind, b: RawKind)
    requires
        a != b,
    ensures
        a.spec_name() != b.spec_name(),
{
    reveal_strlit("APP_START");
    reveal_strlit("APP_STOP");
    reveal_strlit("DIFF_FOUND");
    reveal_strlit("SKIP_CHECK_BEGIN");
    reveal_strlit("SKIP_CHECK_END");
    reveal_strlit("APP_ERROR");
    reveal_strlit("CHECK_ERROR");
    let x = a.spec_name();
    let y = b.spec_name();
    if x.len() == y.len() {
        assert(x[4] != y[4]);
    }
}

} // verus!
