//! A cache of what a renderer has made for the items, such as textures, kept
//! per component and item.

use crate::graphics::CachedGraphicsData;
use crate::item_tree::ItemRc;
use crate::items::Window;
use crate::properties::PropertyTracker;
use std::collections::HashMap;
use vstd::prelude::*;

verus! {

broadcast use vstd::std_specs::hash::group_hash_axioms;

/// The entry of an item among the entries of all components, if it has one.
pub open spec fn spec_cached<T>(
    entries: Map<u64, Map<usize, CachedGraphicsData<T>>>,
    item_rc: ItemRc,
) -> Option<CachedGraphicsData<T>> {
    if entries.contains_key(item_rc.component) && entries[item_rc.component].contains_key(
        item_rc.index,
    ) {
        Some(entries[item_rc.component][item_rc.index])
    } else {
        None
    }
}

/// The entry was made at the present revision of the item.
pub open spec fn spec_up_to_date<T>(entry: CachedGraphicsData<T>, item_rc: ItemRc) -> bool {
    entry.dependency_tracker == Some(PropertyTracker { evaluated_at: Some(item_rc.revision) })
}

/// The entries after the entry of an item was replaced or added.
pub open spec fn spec_with_entry<T>(
    entries: Map<u64, Map<usize, CachedGraphicsData<T>>>,
    item_rc: ItemRc,
    entry: CachedGraphicsData<T>,
) -> Map<u64, Map<usize, CachedGraphicsData<T>>> {
    entries.insert(
        item_rc.component,
        if entries.contains_key(item_rc.component) {
            entries[item_rc.component].insert(item_rc.index, entry)
        } else {
            Map::<usize, CachedGraphicsData<T>>::empty().insert(item_rc.index, entry)
        },
    )
}

/// A per-item cache.
///
/// Cache rendering information for a given item.
///
/// Use [`ItemCache::get_or_update_cache_entry`] to get or update the items:
/// an entry is made again when the properties of its item have changed.
/// [`ItemCache::component_destroyed`] must be called to clear the cache for a
/// component that goes away.
pub struct ItemCache<T> {
    /// For each component, by its number, the entries of its items, by their
    /// positions.
    map: HashMap<u64, HashMap<usize, CachedGraphicsData<T>>>,
    /// Track if the window scale factor changes; used to clear the cache if
    /// necessary.
    window_scale_factor_tracker: PropertyTracker,
}

impl<T> View for ItemCache<T> {
    type V = Map<u64, Map<usize, CachedGraphicsData<T>>>;

    /// For each component that the cache knows, the entries of its items.
    closed spec fn view(&self) -> Map<u64, Map<usize, CachedGraphicsData<T>>> {
        Map::new(|c: u64| self.map@.contains_key(c), |c: u64| self.map@[c]@)
    }
}

impl<T> Default for ItemCache<T> {
    fn default() -> (r: ItemCache<T>)
        ensures
            r@ == Map::<u64, Map<usize, CachedGraphicsData<T>>>::empty(),
            r.spec_scale_factor_tracker().evaluated_at is None,
    {
        let r = ItemCache { map: HashMap::new(), window_scale_factor_tracker: PropertyTracker::new() };
        assert(r@ =~= Map::<u64, Map<usize, CachedGraphicsData<T>>>::empty());
        r
    }
}

impl<T> ItemCache<T> {
    /// The tracker that follows the scale factor of the window.
    pub closed spec fn spec_scale_factor_tracker(&self) -> PropertyTracker {
        self.window_scale_factor_tracker
    }
}

impl<T: Clone> ItemCache<T> {
    /// Returns the cached value associated to the item if it is still valid.
    /// Otherwise calls `update_fn` to compute that value, and keeps it as
    /// made at the present revision of the item.
    pub fn get_or_update_cache_entry<F: FnOnce() -> T>(&mut self, item_rc: &ItemRc, update_fn: F) -> (r:
        T)
        requires
            update_fn.requires(()),
        ensures
            final(self).spec_scale_factor_tracker() == old(self).spec_scale_factor_tracker(),
            spec_cached(final(self)@, *item_rc) matches Some(entry) && {
                &&& spec_up_to_date(entry, *item_rc)
                &&& final(self)@ == spec_with_entry(old(self)@, *item_rc, entry)
                &&& match spec_cached(old(self)@, *item_rc) {
                    Some(before) => if spec_up_to_date(before, *item_rc) {
                        entry == before && cloned(before.data, r)
                    } else {
                        update_fn.ensures((), r) && cloned(r, entry.data)
                    },
                    None => update_fn.ensures((), entry.data) && cloned(entry.data, r),
                }
            },
    {
        let mut per_component_entries = match self.map.remove(&item_rc.component) {
            Some(entries) => entries,
            None => HashMap::new(),
        };
        let ghost inner = per_component_entries@;
        let result = match per_component_entries.remove(&item_rc.index) {
            Some(mut entry) => {
                let mut tracker = match entry.dependency_tracker {
                    Some(tracker) => tracker,
                    None => PropertyTracker::new(),
                };
                let data = if tracker.evaluate_if_dirty(item_rc.revision) {
                    let new_data = update_fn();
                    entry.data = new_data.clone();
                    new_data
                } else {
                    entry.data.clone()
                };
                entry.dependency_tracker = Some(tracker);
                per_component_entries.insert(item_rc.index, entry);
                data
            },
            None => {
                let new_entry = CachedGraphicsData::new(update_fn(), item_rc.revision);
                let data = new_entry.data.clone();
                per_component_entries.insert(item_rc.index, new_entry);
                data
            },
        };
        assert(per_component_entries@ =~= inner.insert(
            item_rc.index,
            per_component_entries@[item_rc.index],
        ));
        self.map.insert(item_rc.component, per_component_entries);
        assert(self@ =~= spec_with_entry(
            old(self)@,
            *item_rc,
            self@[item_rc.component][item_rc.index],
        ));
        result
    }

    /// Hands the cached value associated with the item to `callback`, if
    /// there is one, and returns what `callback` returns.
    pub fn with_entry<U, F: FnOnce(&T) -> Option<U>>(&self, item_rc: &ItemRc, callback: F) -> (r:
        Option<U>)
        requires
            spec_cached(self@, *item_rc) matches Some(entry) ==> callback.requires((&entry.data,)),
        ensures
            match spec_cached(self@, *item_rc) {
                Some(entry) => callback.ensures((&entry.data,), r),
                None => r is None,
            },
    {
        match self.map.get(&item_rc.component) {
            Some(per_component_entries) => match per_component_entries.get(&item_rc.index) {
                Some(entry) => callback(&entry.data),
                None => None,
            },
            None => None,
        }
    }

    /// Clears the cache if the window's scale factor has changed since the
    /// last call, or if this is the first call.
    pub fn clear_cache_if_scale_factor_changed(&mut self, window: &Window)
        ensures
            final(self).spec_scale_factor_tracker() == (PropertyTracker {
                evaluated_at: Some(window.revision),
            }),
            final(self)@ == if old(self).spec_scale_factor_tracker().spec_is_dirty(
                window.revision,
            ) {
                Map::<u64, Map<usize, CachedGraphicsData<T>>>::empty()
            } else {
                old(self)@
            },
    {
        if self.window_scale_factor_tracker.is_dirty(window.revision) {
            self.window_scale_factor_tracker.evaluate(window.revision);
            self.clear_all();
        }
    }

    /// Free the whole cache.
    pub fn clear_all(&mut self)
        ensures
            final(self)@ == Map::<u64, Map<usize, CachedGraphicsData<T>>>::empty(),
            final(self).spec_scale_factor_tracker() == old(self).spec_scale_factor_tracker(),
    {
        self.map.clear();
        assert(self@ =~= Map::<u64, Map<usize, CachedGraphicsData<T>>>::empty());
    }

    /// Function that must be called when a component is destroyed: the
    /// entries of its items go away.
    pub fn component_destroyed(&mut self, component: u64)
        ensures
            final(self)@ == old(self)@.remove(component),
            final(self).spec_scale_factor_tracker() == old(self).spec_scale_factor_tracker(),
    {
        let _ = self.map.remove(&component);
        assert(self@ =~= old(self)@.remove(component));
    }

    /// Free the cache for a given item.
    pub fn release(&mut self, item_rc: &ItemRc)
        ensures
            final(self)@ == if old(self)@.contains_key(item_rc.component) {
                old(self)@.insert(
                    item_rc.component,
                    old(self)@[item_rc.component].remove(item_rc.index),
                )
            } else {
                old(self)@
            },
            final(self).spec_scale_factor_tracker() == old(self).spec_scale_factor_tracker(),
    {
        match self.map.remove(&item_rc.component) {
            Some(mut sub) => {
                let _ = sub.remove(&item_rc.index);
                self.map.insert(item_rc.component, sub);
                assert(self@ =~= old(self)@.insert(
                    item_rc.component,
                    old(self)@[item_rc.component].remove(item_rc.index),
                ));
            },
            None => {
                assert(self@ =~= old(self)@);
            },
        }
    }

    /// Returns true if the cache knows no component; false otherwise.
    pub fn is_empty(&self) -> (r: bool)
        ensures
            r == (self@ == Map::<u64, Map<usize, CachedGraphicsData<T>>>::empty()),
    {
        let r = self.map.is_empty();
        proof {
            if r {
                assert(self.map@.len() == 0);
                assert(self.map@ =~= Map::<u64, HashMap<usize, CachedGraphicsData<T>>>::empty());
                assert(self@ =~= Map::<u64, Map<usize, CachedGraphicsData<T>>>::empty());
            } else {
                if self@ == Map::<u64, Map<usize, CachedGraphicsData<T>>>::empty() {
                    assert forall|c: u64| !self.map@.contains_key(c) by {
                        assert(!self@.contains_key(c));
                    }
                    assert(self.map@ =~= Map::<u64, HashMap<usize, CachedGraphicsData<T>>>::empty());
                }
            }
        }
        r
    }
}

} // verus!
