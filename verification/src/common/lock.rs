use crate::repos::domains::FiefId;
use std::sync::Arc;
use vstd::prelude::*;

verus! {

#[verifier::external_type_specification]
#[verifier::external_body]
#[verifier::reject_recursive_types(K)]
#[verifier::reject_recursive_types(V)]
#[verifier::reject_recursive_types(S)]
pub struct ExDashMap<K, V, S>(dashmap::DashMap<K, V, S>);

#[verifier::external_type_specification]
#[verifier::external_body]
#[verifier::reject_recursive_types(T)]
pub struct ExMutex<T: ?Sized>(tokio::sync::Mutex<T>);

/// A lock that is shared by all who hold a copy of the handle.
pub type LockHandle = Arc<tokio::sync::Mutex<()>>;

/// The map of the crate `dashmap` that holds the locks by the keys of their fiefs.
pub type LockMap = dashmap::DashMap<i64, LockHandle>;

/// The locks that the map holds, each under the key of its fief.
pub uninterp spec fn lock_entries(map: LockMap) -> Map<i64, LockHandle>;

/// The entries of a map that holds no lock.
pub open spec fn no_locks() -> Map<i64, LockHandle> {
    Map::empty()
}

/// `dashmap::DashMap::new`: a map that holds nothing.
#[verifier::external_body]
fn map_new() -> (map: LockMap)
    ensures
        lock_entries(map) == no_locks(),
{
    dashmap::DashMap::new()
}

/// `dashmap::DashMap::get`, and a copy of the handle that it finds: the lock that the map
/// holds under the key, or none where it holds none.
#[verifier::external_body]
fn map_get(map: &LockMap, id: i64) -> (found: Option<LockHandle>)
    ensures
        found == (if lock_entries(*map).contains_key(id) {
            Some(lock_entries(*map)[id])
        } else {
            None
        }),
{
    map.get(&id).map(|entry| entry.value().clone())
}

/// `dashmap::DashMap::insert`: puts the lock under the key, in place of what was there.
#[verifier::external_body]
fn map_insert(map: &mut LockMap, id: i64, lock: LockHandle)
    ensures
        lock_entries(*final(map)) == lock_entries(*old(map)).insert(id, lock),
{
    map.insert(id, lock);
}

/// `tokio::sync::Mutex::new` in an `Arc`: a lock that nobody holds. Nothing is claimed of it.
#[verifier::external_body]
fn new_lock() -> LockHandle {
    Arc::new(tokio::sync::Mutex::new(()))
}

/// The lock of a fief. Whoever changes the fief holds it while doing so.
pub struct FiefLock(pub LockHandle);

/// The locks of the fiefs. A fief gets its lock when it is first asked for, and keeps it.
pub struct LockRegistry {
    locks: LockMap,
}

impl View for LockRegistry {
    type V = Map<i64, LockHandle>;

    closed spec fn view(&self) -> Map<i64, LockHandle> {
        lock_entries(self.locks)
    }
}

impl LockRegistry {
    pub fn new() -> (r: Self)
        ensures
            r@ == no_locks(),
    {
        Self { locks: map_new() }
    }

    /// The lock of the fief. It is the one that was handed out for the fief before; a fief
    /// that had none gets a new one, and no other fief's lock is touched.
    pub fn get_fief_lock(&mut self, fief: FiefId) -> (lock: FiefLock)
        ensures
            final(self)@.contains_key(fief.0),
            final(self)@[fief.0] == lock.0,
            old(self)@.contains_key(fief.0) ==> final(self)@ == old(self)@,
            !old(self)@.contains_key(fief.0) ==> final(self)@ == old(self)@.insert(fief.0, lock.0),
    {
        match map_get(&self.locks, fief.0) {
            Some(lock) => FiefLock(lock),
            None => {
                let lock = new_lock();
                map_insert(&mut self.locks, fief.0, lock.clone());
                FiefLock(lock)
            },
        }
    }
}

/// A fief keeps its lock: whoever asks for the lock of a fief gets the one that was handed
/// out first, however many locks of other fiefs are handed out in between.
pub proof fn lemma_lock_is_kept(
    before: Map<i64, LockHandle>,
    after: Map<i64, LockHandle>,
    fief: FiefId,
    other: FiefId,
    lock: LockHandle,
)
    requires
        before.contains_key(fief.0),
        before.contains_key(other.0) ==> after == before,
        !before.contains_key(other.0) ==> after == before.insert(other.0, lock),
    ensures
        after.contains_key(fief.0),
        after[fief.0] == before[fief.0],
{
}

} // verus!
