//! What an item keeps in order to find its entry in a [`RenderingCache`].

use crate::graphics::{spec_insert_at, CachedGraphicsData, RenderingCache};
use vstd::prelude::*;

verus! {

/// The place of an item's entry in a cache: the number of a slot, and the
/// generation of the cache in which the slot was filled.
///
/// It starts as `(0, 0)`, which no cache accepts, since no cache is ever in
/// generation zero.
#[derive(Clone, Copy, Debug, PartialEq, Eq, Structural)]
pub struct CachedRenderingData {
    /// The number of the slot.
    pub cache_index: usize,
    /// The generation of the cache in which the slot was filled. The slot
    /// number counts only while the cache is still in that generation.
    pub cache_generation: u64,
}

/// The entry that `data` leads to in a cache with the given slots and
/// generation: the one in its slot, provided that the generation is the same
/// and the slot is occupied.
pub open spec fn spec_entry<T>(
    data: CachedRenderingData,
    slots: Seq<Option<CachedGraphicsData<T>>>,
    generation: u64,
) -> Option<CachedGraphicsData<T>> {
    if data.cache_generation == generation && data.cache_index < slots.len() {
        slots[data.cache_index as int]
    } else {
        None
    }
}

/// An item got the entry `entry`: where its rendering data led to an entry, the
/// data stay as they are and the entry takes the place of the old one;
/// otherwise the entry went into a slot that was vacant or new, and the data
/// lead there now.
pub open spec fn spec_entry_set<T>(
    data: CachedRenderingData,
    slots: Seq<Option<CachedGraphicsData<T>>>,
    generation: u64,
    new_data: CachedRenderingData,
    new_slots: Seq<Option<CachedGraphicsData<T>>>,
    entry: CachedGraphicsData<T>,
) -> bool {
    if spec_entry(data, slots, generation) is Some {
        &&& new_data == data
        &&& new_slots == slots.update(data.cache_index as int, Some(entry))
    } else {
        &&& new_data.cache_generation == generation
        &&& new_data.cache_index <= slots.len()
        &&& new_data.cache_index < slots.len() ==> slots[new_data.cache_index as int] is None
        &&& new_slots == spec_insert_at(slots, new_data.cache_index as int, entry)
    }
}

/// The rendering data of the items of a tree fit the cache: none are of a
/// generation that the cache has not reached, data of the generation of the
/// cache lead to an occupied slot, and no two items lead to the same slot.
pub open spec fn spec_handles_wf<T>(
    rendering_data: Seq<CachedRenderingData>,
    slots: Seq<Option<CachedGraphicsData<T>>>,
    generation: u64,
) -> bool {
    &&& forall|i: int|
        0 <= i < rendering_data.len() ==> (#[trigger] rendering_data[i]).cache_generation
            <= generation
    &&& forall|i: int|
        0 <= i < rendering_data.len() && (#[trigger] rendering_data[i]).cache_generation
            == generation ==> spec_entry(rendering_data[i], slots, generation) is Some
    &&& forall|i: int, j: int|
        0 <= i < rendering_data.len() && 0 <= j < rendering_data.len() && i != j && (
        #[trigger] rendering_data[i]).cache_generation == generation && (
        #[trigger] rendering_data[j]).cache_generation == generation ==> rendering_data[i].cache_index
            != rendering_data[j].cache_index
}

/// Where the rendering data fit the cache and one item gets an entry, the
/// data fit the cache afterwards, the item has that entry, and every other
/// item has the entry that it had.
pub proof fn lemma_entry_set_keeps_others<T>(
    rendering_data: Seq<CachedRenderingData>,
    slots: Seq<Option<CachedGraphicsData<T>>>,
    generation: u64,
    k: int,
    new_data: CachedRenderingData,
    new_slots: Seq<Option<CachedGraphicsData<T>>>,
    entry: CachedGraphicsData<T>,
)
    requires
        spec_handles_wf(rendering_data, slots, generation),
        0 <= k < rendering_data.len(),
        spec_entry_set(rendering_data[k], slots, generation, new_data, new_slots, entry),
    ensures
        spec_handles_wf(rendering_data.update(k, new_data), new_slots, generation),
        spec_entry(new_data, new_slots, generation) == Some(entry),
        forall|i: int|
            0 <= i < rendering_data.len() && i != k ==> spec_entry(
                #[trigger] rendering_data[i],
                new_slots,
                generation,
            ) == spec_entry(rendering_data[i], slots, generation),
{
    let after = rendering_data.update(k, new_data);
    assert forall|i: int| 0 <= i < after.len() implies (#[trigger] after[i]).cache_generation
        <= generation by {
        if i != k {
            assert(after[i] == rendering_data[i]);
        }
    }
    assert forall|i: int|
        0 <= i < rendering_data.len() && i != k implies spec_entry(
        #[trigger] rendering_data[i],
        new_slots,
        generation,
    ) == spec_entry(rendering_data[i], slots, generation) by {
        if rendering_data[i].cache_generation == generation {
            assert(spec_entry(rendering_data[i], slots, generation) is Some);
        }
    }
    assert forall|i: int|
        0 <= i < after.len() && (#[trigger] after[i]).cache_generation == generation implies spec_entry(
        after[i],
        new_slots,
        generation,
    ) is Some by {
        if i != k {
            assert(after[i] == rendering_data[i]);
            assert(spec_entry(rendering_data[i], slots, generation) is Some);
        }
    }
    assert forall|i: int, j: int|
        0 <= i < after.len() && 0 <= j < after.len() && i != j && (#[trigger] after[i]).cache_generation
            == generation && (#[trigger] after[j]).cache_generation == generation implies after[i].cache_index
        != after[j].cache_index by {
        if i != k && j != k {
            assert(after[i] == rendering_data[i] && after[j] == rendering_data[j]);
        } else {
            let other = if i == k { j } else { i };
            assert(after[other] == rendering_data[other]);
            assert(spec_entry(rendering_data[other], slots, generation) is Some);
        }
    }
}

/// Where the rendering data fit the cache and the entry of one item is
/// released, the data fit the cache afterwards.
pub proof fn lemma_release_keeps_handles_wf<T>(
    rendering_data: Seq<CachedRenderingData>,
    slots: Seq<Option<CachedGraphicsData<T>>>,
    generation: u64,
    k: int,
)
    requires
        spec_handles_wf(rendering_data, slots, generation),
        0 <= k < rendering_data.len(),
        rendering_data[k].cache_generation == generation,
        generation != 0,
    ensures
        spec_handles_wf(
            rendering_data.update(
                k,
                CachedRenderingData { cache_generation: 0, ..rendering_data[k] },
            ),
            slots.update(rendering_data[k].cache_index as int, None),
            generation,
        ),
{
    let after = rendering_data.update(
        k,
        CachedRenderingData { cache_generation: 0, ..rendering_data[k] },
    );
    let new_slots = slots.update(rendering_data[k].cache_index as int, None);
    {
        assert(spec_entry(rendering_data[k], slots, generation) is Some);
        assert forall|i: int| 0 <= i < after.len() implies (#[trigger] after[i]).cache_generation
            <= generation by {
            if i != k {
                assert(after[i] == rendering_data[i]);
            }
        }
        assert forall|i: int|
            0 <= i < after.len() && (#[trigger] after[i]).cache_generation
                == generation implies spec_entry(after[i], new_slots, generation) is Some by {
            assert(i != k);
            assert(after[i] == rendering_data[i]);
            assert(spec_entry(rendering_data[i], slots, generation) is Some);
        }
        assert forall|i: int, j: int|
            0 <= i < after.len() && 0 <= j < after.len() && i != j && (
            #[trigger] after[i]).cache_generation == generation && (
            #[trigger] after[j]).cache_generation == generation implies after[i].cache_index
            != after[j].cache_index by {
            assert(after[i] == rendering_data[i] && after[j] == rendering_data[j]);
        }
    }
}

/// Where the rendering data fit a cache that is cleared and reaches a new
/// generation thereby, the data fit the cache afterwards: none of them lead
/// to an entry any more.
pub proof fn lemma_clear_keeps_handles_wf<T>(
    rendering_data: Seq<CachedRenderingData>,
    slots: Seq<Option<CachedGraphicsData<T>>>,
    generation: u64,
)
    requires
        spec_handles_wf(rendering_data, slots, generation),
        generation < u64::MAX,
    ensures
        spec_handles_wf(
            rendering_data,
            Seq::<Option<CachedGraphicsData<T>>>::empty(),
            (generation + 1) as u64,
        ),
{
}

/// Rendering data that lead nowhere fit every cache.
pub proof fn lemma_new_handles_wf<T>(
    rendering_data: Seq<CachedRenderingData>,
    slots: Seq<Option<CachedGraphicsData<T>>>,
    generation: u64,
)
    requires
        generation != 0,
        forall|i: int|
            0 <= i < rendering_data.len() ==> (#[trigger] rendering_data[i]).cache_generation == 0,
    ensures
        spec_handles_wf(rendering_data, slots, generation),
{
}

impl CachedRenderingData {
    /// The entry that this leads to in the cache, if any.
    pub open spec fn spec_get_entry<T>(self, cache: &RenderingCache<T>) -> Option<
        CachedGraphicsData<T>,
    > {
        spec_entry(self, cache@, cache.spec_generation())
    }

    /// Data that leads to no entry in any cache.
    pub fn new() -> (d: CachedRenderingData)
        ensures
            d == (CachedRenderingData { cache_index: 0, cache_generation: 0 }),
    {
        CachedRenderingData { cache_index: 0, cache_generation: 0 }
    }

    /// Removes the entry of the item from the cache, if there is one, and
    /// returns what was cached. Afterwards this leads to no entry any more.
    pub fn release<T>(&mut self, cache: &mut RenderingCache<T>) -> (r: Option<T>)
        ensures
            final(cache).spec_generation() == old(cache).spec_generation(),
            final(self).cache_index == old(self).cache_index,
            old(self).cache_generation != old(cache).spec_generation() ==> {
                &&& r is None
                &&& *final(self) == *old(self)
                &&& final(cache)@ == old(cache)@
            },
            old(self).cache_generation == old(cache).spec_generation() ==> {
                &&& final(self).cache_generation == 0
                &&& match old(self).spec_get_entry(old(cache)) {
                    Some(entry) => r == Some(entry.data) && final(cache)@ == old(cache)@.update(
                        old(self).cache_index as int,
                        None,
                    ),
                    None => r is None && final(cache)@ == old(cache)@,
                }
            },
            final(self).spec_get_entry(final(cache)) is None,
    {
        if self.cache_generation == cache.generation() {
            let index = self.cache_index;
            self.cache_generation = 0;
            if cache.contains(index) {
                Some(cache.remove(index).data)
            } else {
                None
            }
        } else {
            None
        }
    }

    /// The entry of the item in the cache, to be read and changed in place.
    /// There is none where the cache is in another generation than the one
    /// that this was filled in, or where the slot is vacant.
    pub fn get_entry<'a, T>(&self, cache: &'a mut RenderingCache<T>) -> (r: Option<
        &'a mut CachedGraphicsData<T>,
    >)
        ensures
            final(cache).spec_generation() == old(cache).spec_generation(),
            self.cache_generation != old(cache).spec_generation() ==> r is None,
            match self.spec_get_entry(old(cache)) {
                Some(entry) => r matches Some(e) && *e == entry && final(cache)@ == old(
                    cache,
                )@.update(self.cache_index as int, Some(*final(e))),
                None => r is None && final(cache)@ == old(cache)@,
            },
    {
        let index = self.cache_index;
        if self.cache_generation == cache.generation() {
            cache.get_mut(index)
        } else {
            None
        }
    }

    /// The entry of the item in the cache, to be read.
    pub fn peek_entry<'a, T>(&self, cache: &'a RenderingCache<T>) -> (r: Option<
        &'a CachedGraphicsData<T>,
    >)
        ensures
            match self.spec_get_entry(cache) {
                Some(entry) => r == Some(&entry),
                None => r is None,
            },
    {
        if self.cache_generation == cache.generation() {
            cache.get(self.cache_index)
        } else {
            None
        }
    }
}

impl Default for CachedRenderingData {
    fn default() -> (d: CachedRenderingData)
        ensures
            d == (CachedRenderingData { cache_index: 0, cache_generation: 0 }),
    {
        CachedRenderingData::new()
    }
}

/// Data that was filled in one generation of a cache leads to no entry in a
/// cache of another generation.
pub proof fn lemma_other_generation_has_no_entry<T>(
    data: CachedRenderingData,
    cache: &RenderingCache<T>,
)
    requires
        data.cache_generation != cache.spec_generation(),
    ensures
        data.spec_get_entry(cache) is None,
{
}

/// In a cache without entries, as `clear` leaves it, no data leads to an
/// entry, whenever it was filled.
pub proof fn lemma_nothing_in_cleared_cache<T>(data: CachedRenderingData, cache: &RenderingCache<T>)
    requires
        cache@ == Seq::<Option<CachedGraphicsData<T>>>::empty(),
    ensures
        data.spec_get_entry(cache) is None,
{
}

} // verus!
