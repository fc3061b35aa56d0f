//! The store of what the renderer has cached for the items.

use crate::properties::PropertyTracker;
use vstd::prelude::*;

verus! {

/// A cached value, with the tracker that says whether it is still up to date.
pub struct CachedGraphicsData<T> {
    /// The cached value.
    pub data: T,
    /// Follows the properties that the value was computed from.
    pub dependency_tracker: Option<PropertyTracker>,
}

impl<T> CachedGraphicsData<T> {
    /// An entry for a value that was computed at the given revision.
    pub fn new(data: T, revision: u64) -> (e: CachedGraphicsData<T>)
        ensures
            e.data == data,
            e.dependency_tracker == Some(PropertyTracker { evaluated_at: Some(revision) }),
    {
        let mut tracker = PropertyTracker::new();
        tracker.evaluate(revision);
        CachedGraphicsData { data, dependency_tracker: Some(tracker) }
    }
}

/// The slots after a value was put into slot `index`, which is a new slot
/// where `index` is the number of slots.
pub open spec fn spec_insert_at<T>(slots: Seq<Option<T>>, index: int, value: T) -> Seq<Option<T>> {
    if index < slots.len() {
        slots.update(index, Some(value))
    } else {
        slots.push(Some(value))
    }
}

/// The generation that follows `generation`. The last one follows itself.
pub open spec fn spec_next_generation(generation: u64) -> u64 {
    if generation < u64::MAX {
        (generation + 1) as u64
    } else {
        generation
    }
}

/// A store of cached values in numbered slots.
///
/// An item keeps the number of the slot that holds its entry, together with
/// the generation of the cache at that moment. Clearing the cache begins a
/// new generation, so that what the items kept does not count any more.
pub struct RenderingCache<T> {
    slots: Vec<Option<CachedGraphicsData<T>>>,
    generation: u64,
    /// Slots that were vacated. One may have been filled again since.
    vacated: Vec<usize>,
}

impl<T> View for RenderingCache<T> {
    type V = Seq<Option<CachedGraphicsData<T>>>;

    /// The slots, each occupied or vacant.
    closed spec fn view(&self) -> Seq<Option<CachedGraphicsData<T>>> {
        self.slots@
    }
}

impl<T> RenderingCache<T> {
    #[verifier::type_invariant]
    spec fn inv(self) -> bool {
        self.generation != 0
    }

    /// The generation of the cache.
    pub closed spec fn spec_generation(&self) -> u64 {
        self.generation
    }

    /// The slot holds an entry.
    pub open spec fn spec_contains(&self, index: usize) -> bool {
        index < self@.len() && self@[index as int] is Some
    }

    /// An empty cache in its first generation.
    pub fn new() -> (c: RenderingCache<T>)
        ensures
            c@ == Seq::<Option<CachedGraphicsData<T>>>::empty(),
            c.spec_generation() == 1,
    {
        RenderingCache { slots: Vec::new(), generation: 1, vacated: Vec::new() }
    }

    /// The generation of the cache. The number of a slot is valid only for
    /// the generation in which the slot was filled.
    pub fn generation(&self) -> (g: u64)
        ensures
            g == self.spec_generation(),
            g != 0,
    {
        proof {
            use_type_invariant(self);
        }
        self.generation
    }

    /// Whether the slot holds an entry.
    pub fn contains(&self, index: usize) -> (r: bool)
        ensures
            r == self.spec_contains(index),
    {
        index < self.slots.len() && self.slots[index].is_some()
    }

    /// The entry in the slot, if it holds one.
    pub fn get(&self, index: usize) -> (r: Option<&CachedGraphicsData<T>>)
        ensures
            self.spec_contains(index) ==> r == Some(&self@[index as int]->Some_0),
            !self.spec_contains(index) ==> r is None,
    {
        if index < self.slots.len() {
            self.slots[index].as_ref()
        } else {
            None
        }
    }

    /// The entry in the slot, if it holds one, to be read and changed in place.
    pub fn get_mut(&mut self, index: usize) -> (r: Option<&mut CachedGraphicsData<T>>)
        ensures
            old(self).spec_contains(index) ==> r is Some,
            r matches Some(e) ==> old(self).spec_contains(index) && old(self)@[index as int]
                == Some(*e) && final(self)@ == old(self)@.update(index as int, Some(*final(e))),
            r is None ==> final(self)@ == old(self)@,
            final(self).spec_generation() == old(self).spec_generation(),
    {
        proof {
            use_type_invariant(&*self);
        }
        if index < self.slots.len() {
            match &mut self.slots[index] {
                Some(e) => Some(e),
                None => None,
            }
        } else {
            None
        }
    }

    /// Puts the entry into a vacant slot, or into a new slot where none is
    /// vacant, and returns the number of that slot.
    pub fn insert(&mut self, data: CachedGraphicsData<T>) -> (index: usize)
        ensures
            !old(self).spec_contains(index),
            index <= old(self)@.len(),
            final(self)@ == spec_insert_at(old(self)@, index as int, data),
            final(self).spec_generation() == old(self).spec_generation(),
    {
        proof {
            use_type_invariant(&*self);
        }
        let mut vacated: Vec<usize> = Vec::new();
        core::mem::swap(&mut self.vacated, &mut vacated);
        let mut index: usize = self.slots.len();
        while vacated.len() > 0 && index == self.slots.len()
            invariant
                *self == (RenderingCache { vacated: self.vacated, ..*old(self) }),
                index <= self.slots@.len(),
                index < self.slots@.len() ==> self.slots@[index as int] is None,
            decreases vacated.len(),
        {
            let candidate = vacated.pop().unwrap();
            if candidate < self.slots.len() && self.slots[candidate].is_none() {
                index = candidate;
            }
        }
        core::mem::swap(&mut self.vacated, &mut vacated);
        if index < self.slots.len() {
            self.slots[index] = Some(data);
        } else {
            let mut slots: Vec<Option<CachedGraphicsData<T>>> = Vec::new();
            core::mem::swap(&mut self.slots, &mut slots);
            slots.push(Some(data));
            core::mem::swap(&mut self.slots, &mut slots);
        }
        index
    }

    /// Takes the entry out of its slot.
    pub fn remove(&mut self, index: usize) -> (e: CachedGraphicsData<T>)
        requires
            old(self).spec_contains(index),
        ensures
            Some(e) == old(self)@[index as int],
            final(self)@ == old(self)@.update(index as int, None),
            final(self).spec_generation() == old(self).spec_generation(),
    {
        proof {
            use_type_invariant(&*self);
        }
        let mut vacated: Vec<usize> = Vec::new();
        core::mem::swap(&mut self.vacated, &mut vacated);
        vacated.push(index);
        core::mem::swap(&mut self.vacated, &mut vacated);
        let e = self.slots[index].take();
        e.unwrap()
    }

    /// Empties the cache and begins a new generation: the slot numbers that
    /// were handed out do not lead to an entry any more.
    pub fn clear(&mut self)
        ensures
            final(self)@ == Seq::<Option<CachedGraphicsData<T>>>::empty(),
            final(self).spec_generation() == spec_next_generation(old(self).spec_generation()),
    {
        proof {
            use_type_invariant(&*self);
        }
        let mut slots: Vec<Option<CachedGraphicsData<T>>> = Vec::new();
        core::mem::swap(&mut self.slots, &mut slots);
        let mut vacated: Vec<usize> = Vec::new();
        core::mem::swap(&mut self.vacated, &mut vacated);
        if self.generation < u64::MAX {
            self.generation += 1;
        }
    }
}

impl<T> Default for RenderingCache<T> {
    fn default() -> (c: RenderingCache<T>)
        ensures
            c@ == Seq::<Option<CachedGraphicsData<T>>>::empty(),
            c.spec_generation() == 1,
    {
        RenderingCache::new()
    }
}

} // verus!
