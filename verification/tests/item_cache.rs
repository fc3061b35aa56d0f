use item_rendering::item_cache::ItemCache;
use item_rendering::item_tree::ItemRc;
use item_rendering::items::{Item, ItemKind, Scalar, Window};
use item_rendering::lengths::{LogicalPoint, LogicalRect, LogicalSize};

fn rc(component: u64, index: usize, revision: u64) -> ItemRc {
    let geometry = LogicalRect::new(LogicalPoint::new(0, 0), LogicalSize::new(1, 1));
    ItemRc { component, index, revision, item: Item::new(ItemKind::Empty, geometry) }
}

#[test]
fn value_is_computed_once_per_revision() {
    let mut cache: ItemCache<String> = ItemCache::default();
    assert!(cache.is_empty());
    let mut calls = 0;
    let v = cache.get_or_update_cache_entry(&rc(1, 5, 0), || {
        calls += 1;
        String::from("first")
    });
    assert_eq!(v, "first");
    let v = cache.get_or_update_cache_entry(&rc(1, 5, 0), || {
        calls += 1;
        String::from("second")
    });
    assert_eq!(v, "first");
    assert_eq!(calls, 1);
    // The item changed: the value is made again.
    let v = cache.get_or_update_cache_entry(&rc(1, 5, 1), || {
        calls += 1;
        String::from("third")
    });
    assert_eq!(v, "third");
    assert_eq!(calls, 2);
    let v = cache.get_or_update_cache_entry(&rc(1, 5, 1), || String::from("fourth"));
    assert_eq!(v, "third");
    assert!(!cache.is_empty());
}

#[test]
fn entries_are_kept_per_component_and_item() {
    let mut cache: ItemCache<u32> = ItemCache::default();
    assert_eq!(cache.get_or_update_cache_entry(&rc(1, 5, 0), || 15), 15);
    assert_eq!(cache.get_or_update_cache_entry(&rc(1, 6, 0), || 16), 16);
    assert_eq!(cache.get_or_update_cache_entry(&rc(2, 5, 0), || 25), 25);
    assert_eq!(cache.with_entry(&rc(1, 5, 0), |v| Some(*v + 1)), Some(16));
    assert_eq!(cache.with_entry(&rc(1, 6, 9), |v| Some(*v)), Some(16));
    assert_eq!(cache.with_entry(&rc(2, 5, 0), |v| Some(*v)), Some(25));
    assert_eq!(cache.with_entry(&rc(2, 6, 0), |v| Some(*v)), None);
    assert_eq!(cache.with_entry(&rc(3, 5, 0), |v| Some(*v)), None);
    assert_eq!(cache.with_entry(&rc(1, 5, 0), |_| None::<u32>), None);
}

#[test]
fn release_and_component_destroyed() {
    let mut cache: ItemCache<u32> = ItemCache::default();
    cache.get_or_update_cache_entry(&rc(1, 5, 0), || 15);
    cache.get_or_update_cache_entry(&rc(1, 6, 0), || 16);
    cache.get_or_update_cache_entry(&rc(2, 5, 0), || 25);
    cache.release(&rc(1, 5, 0));
    cache.release(&rc(7, 5, 0));
    assert_eq!(cache.with_entry(&rc(1, 5, 0), |v| Some(*v)), None);
    assert_eq!(cache.with_entry(&rc(1, 6, 0), |v| Some(*v)), Some(16));
    assert_eq!(cache.get_or_update_cache_entry(&rc(1, 5, 0), || 150), 150);
    cache.component_destroyed(1);
    assert_eq!(cache.with_entry(&rc(1, 5, 0), |v| Some(*v)), None);
    assert_eq!(cache.with_entry(&rc(1, 6, 0), |v| Some(*v)), None);
    assert_eq!(cache.with_entry(&rc(2, 5, 0), |v| Some(*v)), Some(25));
    assert!(!cache.is_empty());
    cache.component_destroyed(2);
    assert!(cache.is_empty());
    // A component whose items were all released is still known.
    cache.get_or_update_cache_entry(&rc(3, 0, 0), || 30);
    cache.release(&rc(3, 0, 0));
    assert!(!cache.is_empty());
    cache.clear_all();
    assert!(cache.is_empty());
}

#[test]
fn changed_scale_factor_clears_the_cache() {
    let mut cache: ItemCache<u32> = ItemCache::default();
    let mut window = Window::new(Scalar { bits: 1.0f32.to_bits() });
    // The first call finds a tracker that has not seen the window yet.
    cache.get_or_update_cache_entry(&rc(1, 5, 0), || 15);
    cache.clear_cache_if_scale_factor_changed(&window);
    assert!(cache.is_empty());
    cache.get_or_update_cache_entry(&rc(1, 5, 0), || 15);
    cache.clear_cache_if_scale_factor_changed(&window);
    assert!(!cache.is_empty());
    window.set_scale_factor(Scalar { bits: 1.0f32.to_bits() });
    cache.clear_cache_if_scale_factor_changed(&window);
    assert!(!cache.is_empty());
    window.set_scale_factor(Scalar { bits: 2.0f32.to_bits() });
    assert_eq!(window.scale_factor(), Scalar { bits: 2.0f32.to_bits() });
    cache.clear_cache_if_scale_factor_changed(&window);
    assert!(cache.is_empty());
    cache.clear_cache_if_scale_factor_changed(&window);
    assert!(cache.is_empty());
}
