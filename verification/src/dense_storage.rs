//! A generational index storage container.
//!
//! Values are stored in slots addressed by a `DenseStorageIndex`: a pair of a
//! slot index and a generation counter. Removing a value tombstones its slot,
//! bumps the slot's generation and records the index for reuse, so that stale
//! handles never resolve to a later occupant of the same slot.

use vstd::prelude::*;

verus! {

/// A generational index storage container.
#[derive(Debug, Clone)]
pub struct DenseStorage<T> {
    /// Slots, each a generation counter paired with an optional stored value.
    /// A tombstoned slot holds `None`.
    pub storage: Vec<(u32, Option<T>)>,
    /// Indices of tombstoned slots, in the order they were freed; the most
    /// recently freed index is reused first.
    pub recycled_indices: Vec<usize>,
}

/// Stores the dense storage index and generational index.
#[derive(Debug, Clone, Copy, PartialEq, Eq, Hash, Structural)]
pub struct DenseStorageIndex(pub usize, pub u32);

/// Well-formedness of an arena: every recycled index points at a tombstoned
/// slot, and no index is recorded for reuse twice.
pub open spec fn arena_wf<T>(slots: Seq<(u32, Option<T>)>, free: Seq<usize>) -> bool {
    &&& slots.len() <= usize::MAX
    &&& forall|k: int|
        0 <= k < free.len() ==> (#[trigger] free[k]) < slots.len() && slots[free[k] as int].1 is None
    &&& forall|k: int, l: int| 0 <= k < free.len() && 0 <= l < free.len() && k != l ==> free[k] != free[l]
}

/// The generation counter after a removal: one more than before, wrapping to
/// zero after the last representable generation (wraparound is not guarded
/// against; a handle that survives a full wrap would falsely validate).
pub open spec fn next_generation(g: u32) -> u32 {
    if g == u32::MAX {
        0
    } else {
        (g + 1) as u32
    }
}

/// What a lookup returns: the stored value, provided the slot exists and its
/// current generation equals the handle's generation.
pub open spec fn spec_get<T>(slots: Seq<(u32, Option<T>)>, h: DenseStorageIndex) -> Option<T> {
    if h.0 < slots.len() && slots[h.0 as int].0 == h.1 {
        slots[h.0 as int].1
    } else {
        None
    }
}

/// The slots after an insertion: the most recently freed slot is refilled at
/// its current generation, or a fresh slot at generation zero is appended.
pub open spec fn spec_push_slots<T>(
    slots: Seq<(u32, Option<T>)>,
    free: Seq<usize>,
    value: T,
) -> Seq<(u32, Option<T>)> {
    if free.len() > 0 {
        slots.update(free.last() as int, (slots[free.last() as int].0, Some(value)))
    } else {
        slots.push((0u32, Some(value)))
    }
}

/// The reuse list after an insertion.
pub open spec fn spec_push_free<T>(
    slots: Seq<(u32, Option<T>)>,
    free: Seq<usize>,
) -> Seq<usize> {
    if free.len() > 0 {
        free.drop_last()
    } else {
        free
    }
}

/// The handle an insertion returns.
pub open spec fn spec_push_handle<T>(
    slots: Seq<(u32, Option<T>)>,
    free: Seq<usize>,
) -> DenseStorageIndex {
    if free.len() > 0 {
        DenseStorageIndex(free.last(), slots[free.last() as int].0)
    } else {
        DenseStorageIndex(slots.len() as usize, 0u32)
    }
}

/// The slots after a removal: on a valid handle the slot is tombstoned and its
/// generation bumped; otherwise nothing changes.
pub open spec fn spec_remove_slots<T>(
    slots: Seq<(u32, Option<T>)>,
    h: DenseStorageIndex,
) -> Seq<(u32, Option<T>)> {
    if spec_get(slots, h) is Some {
        slots.update(h.0 as int, (next_generation(slots[h.0 as int].0), None))
    } else {
        slots
    }
}

/// The reuse list after a removal: the freed index is recorded, last.
pub open spec fn spec_remove_free<T>(
    slots: Seq<(u32, Option<T>)>,
    free: Seq<usize>,
    h: DenseStorageIndex,
) -> Seq<usize> {
    if spec_get(slots, h) is Some {
        free.push(h.0)
    } else {
        free
    }
}

impl<T> DenseStorage<T> {
    /// Abbreviation for this arena's well-formedness.
    pub open spec fn wf(&self) -> bool {
        arena_wf(self.storage@, self.recycled_indices@)
    }

    pub fn new() -> (r: Self)
        ensures
            r.storage@ =~= Seq::<(u32, Option<T>)>::empty(),
            r.recycled_indices@ =~= Seq::<usize>::empty(),
            r.wf(),
    {
        Self { storage: Vec::new(), recycled_indices: Vec::new() }
    }

    /// Inserts a value: the most recently freed slot index is reused at the
    /// slot's current generation; with no freed slot, a fresh slot with
    /// generation zero is appended. Returns the handle of the stored value.
    pub fn push(&mut self, value: T) -> (r: DenseStorageIndex)
        requires
            old(self).wf(),
        ensures
            final(self).storage@ == spec_push_slots(old(self).storage@, old(self).recycled_indices@, value),
            final(self).recycled_indices@ == spec_push_free(old(self).storage@, old(self).recycled_indices@),
            r == spec_push_handle(old(self).storage@, old(self).recycled_indices@),
            spec_get(final(self).storage@, r) == Some(value),
            final(self).wf(),
    {
        let n = self.recycled_indices.len();
        if n > 0 {
            let i = self.recycled_indices[n - 1];
            self.recycled_indices.pop();
            let generation = self.storage[i].0;
            self.storage[i] = (generation, Some(value));
            proof {
                assert(self.recycled_indices@ =~= old(self).recycled_indices@.drop_last());
            }
            DenseStorageIndex(i, generation)
        } else {
            self.storage.push((0, Some(value)));
            DenseStorageIndex(self.storage.len() - 1, 0)
        }
    }

    /// Looks a handle up: returns the stored value exactly when the slot index
    /// is in bounds, the slot is not tombstoned, and the slot's current
    /// generation equals the handle's. Never panics on an invalid handle.
    pub fn get(&self, index: DenseStorageIndex) -> (r: Option<&T>)
        ensures
            r is Some <==> spec_get(self.storage@, index) is Some,
            r is Some ==> *r->0 == spec_get(self.storage@, index)->0,
    {
        if index.0 < self.storage.len() {
            let slot = &self.storage[index.0];
            if slot.0 == index.1 {
                slot.1.as_ref()
            } else {
                None
            }
        } else {
            None
        }
    }

    /// Removes the value a handle refers to, if the handle is still valid:
    /// the slot is tombstoned, its generation bumped so that the removed
    /// handle and every copy of it stop resolving, and the slot index is
    /// recorded for reuse. On an invalid handle nothing changes.
    pub fn remove(&mut self, index: DenseStorageIndex) -> (r: Option<T>)
        requires
            old(self).wf(),
        ensures
            final(self).storage@ == spec_remove_slots(old(self).storage@, index),
            final(self).recycled_indices@ == spec_remove_free(old(self).storage@, old(self).recycled_indices@, index),
            r == spec_get(old(self).storage@, index),
            final(self).wf(),
    {
        if index.0 < self.storage.len() {
            let slot = &mut self.storage[index.0];
            if slot.0 == index.1 && slot.1.is_some() {
                let generation = slot.0;
                slot.0 = if generation == u32::MAX { 0 } else { generation + 1 };
                let taken = slot.1.take();
                self.recycled_indices.push(index.0);
                return taken;
            }
        }
        None
    }

    /// Read access to the slots in slot order: tombstoned slots appear as
    /// `None` rather than being skipped, preserving index alignment with the
    /// generation counters.
    pub fn iter(&self) -> (r: &Vec<(u32, Option<T>)>)
        ensures
            r@ == self.storage@,
    {
        &self.storage
    }
}

impl<T> Default for DenseStorage<T> {
    fn default() -> (r: Self)
        ensures
            r.storage@ =~= Seq::<(u32, Option<T>)>::empty(),
            r.recycled_indices@ =~= Seq::<usize>::empty(),
            r.wf(),
    {
        Self::new()
    }
}

/// Handle round-trip: looking up the handle an insertion returned yields the
/// value just inserted, whatever the arena held before.
pub proof fn lemma_handle_round_trip<T>(slots: Seq<(u32, Option<T>)>, free: Seq<usize>, value: T)
    requires
        arena_wf(slots, free),
    ensures
        spec_get(spec_push_slots(slots, free, value), spec_push_handle(slots, free)) == Some(value),
{
}

/// Generation safety: after a removal, the removed handle no longer resolves;
/// and a handle issued later for the same slot index differs from the removed
/// one, under which the removed handle still resolves to nothing.
pub proof fn lemma_generation_safety<T>(
    slots: Seq<(u32, Option<T>)>,
    free: Seq<usize>,
    h: DenseStorageIndex,
    value: T,
)
    requires
        arena_wf(slots, free),
        spec_get(slots, h) is Some,
    ensures
        spec_get(spec_remove_slots(slots, h), h) is None,
        ({
            let slots2 = spec_remove_slots(slots, h);
            let free2 = spec_remove_free(slots, free, h);
            let h2 = spec_push_handle(slots2, free2);
            &&& h2.0 == h.0
            &&& h2 != h
            &&& spec_get(spec_push_slots(slots2, free2, value), h) is None
        }),
{
}

/// Slot reuse: inserting right after a removal stores the value in the slot
/// the removal freed, appending no new slot.
pub proof fn lemma_slot_reuse<T>(
    slots: Seq<(u32, Option<T>)>,
    free: Seq<usize>,
    h: DenseStorageIndex,
    value: T,
)
    requires
        arena_wf(slots, free),
        spec_get(slots, h) is Some,
    ensures
        ({
            let slots2 = spec_remove_slots(slots, h);
            let free2 = spec_remove_free(slots, free, h);
            &&& spec_push_handle(slots2, free2).0 == h.0
            &&& spec_push_slots(slots2, free2, value).len() == slots.len()
        }),
{
}

} // verus!
