//! A lock manager for development: every lock is granted at once.
use vstd::prelude::*;
use crate::id::UnitsObjectId;
use crate::proofs::types::StorageError;

verus! {

/// A granted lock on one object.
pub struct SimpleLockGuard {
    object_id: UnitsObjectId,
}

impl SimpleLockGuard {
    /// The object this guard locks.
    pub closed spec fn locked(&self) -> UnitsObjectId {
        self.object_id
    }
}

/// In-memory lock manager that grants every request without waiting.
pub struct InMemoryLockManager {}

impl InMemoryLockManager {
    /// A lock manager.
    pub fn new() -> (m: Self) {
        InMemoryLockManager {  }
    }

    /// Lock an object.
    pub fn lock(&self, id: &UnitsObjectId) -> (r: Result<SimpleLockGuard, StorageError>)
        ensures
            r matches Ok(g) && g.locked() == *id,
    {
        Ok(SimpleLockGuard { object_id: *id })
    }

    /// Try to lock an object without waiting.
    pub fn try_lock(&self, id: &UnitsObjectId) -> (r: Result<Option<SimpleLockGuard>, StorageError>)
        ensures
            r matches Ok(Some(g)) && g.locked() == *id,
    {
        Ok(Some(SimpleLockGuard { object_id: *id }))
    }

    /// Lock several objects: one guard per identifier, in order.
    pub fn lock_many(&self, ids: &[UnitsObjectId]) -> (r: Result<Vec<SimpleLockGuard>, StorageError>)
        ensures
            r matches Ok(v) && v@.len() == ids@.len() && forall|i: int|
                0 <= i < ids@.len() ==> (#[trigger] v@[i]).locked() == ids@[i],
    {
        let mut guards: Vec<SimpleLockGuard> = Vec::new();
        let mut i: usize = 0;
        while i < ids.len()
            invariant
                i <= ids@.len(),
                guards@.len() == i,
                forall|j: int| 0 <= j < i ==> (#[trigger] guards@[j]).locked() == ids@[j],
            decreases ids@.len() - i,
        {
            guards.push(SimpleLockGuard { object_id: ids[i] });
            i = i + 1;
        }
        Ok(guards)
    }
}

impl Default for InMemoryLockManager {
    fn default() -> (m: Self) {
        Self::new()
    }
}

} // verus!
