use item_rendering::dirty_region::{DirtyRegion, MAX_COUNT};
use item_rendering::lengths::{LogicalBox, LogicalPoint, LogicalRect, LogicalSize};
use item_rendering::lengths::WideBox;

fn rect(x: i32, y: i32, w: i32, h: i32) -> LogicalRect {
    LogicalRect::new(LogicalPoint::new(x, y), LogicalSize::new(w, h))
}

fn bx(x0: i32, y0: i32, x1: i32, y1: i32) -> LogicalBox {
    LogicalBox::new(LogicalPoint::new(x0, y0), LogicalPoint::new(x1, y1))
}

#[test]
fn dirty_region_no_intersection() {
    let mut region = DirtyRegion::default();
    region.add_rect(LogicalRect::new(LogicalPoint::new(10, 10), LogicalSize::new(16, 16)));
    region.add_rect(LogicalRect::new(LogicalPoint::new(100, 100), LogicalSize::new(16, 16)));
    region.add_rect(LogicalRect::new(LogicalPoint::new(200, 100), LogicalSize::new(16, 16)));
    let i = region
        .intersection(LogicalRect::new(LogicalPoint::new(50, 50), LogicalSize::new(10, 10)));
    assert_eq!(i.iter().into_iter().count(), 0);
}

#[test]
fn new_region_is_empty() {
    let region = DirtyRegion::new();
    assert_eq!(region.len(), 0);
    assert_eq!(region.iter(), vec![]);
    assert_eq!(region.bounding_box(), bx(0, 0, 0, 0));
    assert_eq!(region.bounding_rect(), rect(0, 0, 0, 0));
}

#[test]
fn empty_rect_is_not_added() {
    let mut region = DirtyRegion::default();
    region.add_rect(rect(5, 5, 0, 10));
    region.add_rect(rect(5, 5, 10, -1));
    region.add_box(bx(10, 10, 5, 20));
    assert_eq!(region.len(), 0);
}

#[test]
fn three_rects_are_stored_in_order() {
    let mut region = DirtyRegion::default();
    region.add_rect(rect(10, 10, 16, 16));
    region.add_rect(rect(100, 100, 16, 16));
    region.add_rect(rect(200, 100, 16, 16));
    assert_eq!(
        region.iter(),
        vec![bx(10, 10, 26, 26), bx(100, 100, 116, 116), bx(200, 100, 216, 116)]
    );
    assert_eq!(region.get(1), bx(100, 100, 116, 116));
}

#[test]
fn contained_rect_changes_nothing() {
    let mut region = DirtyRegion::default();
    region.add_rect(rect(0, 0, 100, 100));
    let before = region.iter();
    region.add_rect(rect(10, 10, 20, 20));
    assert_eq!(region.iter(), before);
    region.add_rect(rect(0, 0, 100, 100));
    assert_eq!(region.iter(), before);
}

#[test]
fn containing_rect_replaces_what_it_contains() {
    let mut region = DirtyRegion::default();
    region.add_rect(rect(10, 10, 5, 5));
    region.add_rect(rect(200, 200, 5, 5));
    region.add_rect(rect(20, 20, 5, 5));
    region.add_rect(rect(0, 0, 100, 100));
    assert_eq!(region.iter(), vec![bx(200, 200, 205, 205), bx(0, 0, 100, 100)]);
}

#[test]
fn fourth_rect_merges_into_the_one_that_grows_least() {
    let mut region = DirtyRegion::default();
    region.add_rect(rect(0, 0, 10, 10));
    region.add_rect(rect(100, 0, 10, 10));
    region.add_rect(rect(0, 100, 10, 10));
    region.add_rect(rect(50, 50, 10, 10));
    assert_eq!(region.len(), 3);
    assert_eq!(MAX_COUNT, 3);
    // Each of the three would grow by 60 * 60 - 10 * 10: the first one is taken.
    assert_eq!(region.iter(), vec![bx(0, 0, 60, 60), bx(100, 0, 110, 10), bx(0, 100, 10, 110)]);
    for added in [rect(0, 0, 10, 10), rect(100, 0, 10, 10), rect(0, 100, 10, 10), rect(50, 50, 10, 10)] {
        assert!(region.bounding_box().contains_box(&added.to_box2d()));
        assert!(region.iter().iter().any(|b| b.contains_box(&added.to_box2d())));
    }
    assert_eq!(region.bounding_rect(), rect(0, 0, 110, 110));
}

#[test]
fn merge_picks_the_smallest_growth() {
    let mut region = DirtyRegion::default();
    region.add_box(bx(0, 0, 10, 10));
    region.add_box(bx(100, 0, 110, 10));
    region.add_box(bx(0, 100, 10, 110));
    // Next to the second box: it grows by 20 * 10 - 10 * 10 = 100.
    region.add_box(bx(110, 0, 120, 10));
    assert_eq!(region.iter(), vec![bx(0, 0, 10, 10), bx(100, 0, 120, 10), bx(0, 100, 10, 110)]);
}

#[test]
fn merged_box_may_contain_another_box() {
    let mut region = DirtyRegion::default();
    region.add_box(bx(0, 0, 100, 100));
    region.add_box(bx(50, 0, 101, 1));
    region.add_box(bx(1000, 1000, 1010, 1010));
    region.add_box(bx(100, 0, 101, 100));
    assert_eq!(
        region.iter(),
        vec![bx(0, 0, 101, 100), bx(50, 0, 101, 1), bx(1000, 1000, 1010, 1010)]
    );
    // A box within the wide one changes nothing, whatever else it contains.
    region.add_box(bx(40, 0, 101, 2));
    assert_eq!(
        region.iter(),
        vec![bx(0, 0, 101, 100), bx(50, 0, 101, 1), bx(1000, 1000, 1010, 1010)]
    );
}

#[test]
fn union_adds_the_boxes_of_the_other_region() {
    let mut a = DirtyRegion::default();
    a.add_rect(rect(0, 0, 10, 10));
    let mut b = DirtyRegion::default();
    b.add_rect(rect(5, 5, 2, 2));
    b.add_rect(rect(20, 20, 10, 10));
    let u = a.union(&b);
    assert_eq!(u.iter(), vec![bx(0, 0, 10, 10), bx(20, 20, 30, 30)]);
    let v = b.union(&a);
    assert_eq!(v.iter(), vec![bx(20, 20, 30, 30), bx(0, 0, 10, 10)]);
}

#[test]
fn intersection_cuts_and_drops() {
    let mut region = DirtyRegion::default();
    region.add_rect(rect(0, 0, 10, 10));
    region.add_rect(rect(20, 0, 10, 10));
    region.add_rect(rect(40, 0, 10, 10));
    let i = region.intersection(rect(25, 5, 100, 100));
    // The first box shares nothing with the rectangle: the last one takes its place.
    assert_eq!(i.iter(), vec![bx(40, 5, 50, 10), bx(25, 5, 30, 10)]);
    let bounds = region.bounding_box().intersection(&rect(25, 5, 100, 100).to_box2d()).unwrap();
    assert!(bounds.contains_box(&i.bounding_box()));
    assert_eq!(i.bounding_rect(), rect(25, 5, 25, 5));
    assert_eq!(region.intersection_box(&bx(0, 0, 5, 5)).iter(), vec![bx(0, 0, 5, 5)]);
}

#[test]
fn bounding_rect_of_a_region_from_a_rect_is_the_rect() {
    let r = rect(-7, 3, 12, 9);
    let region = DirtyRegion::from(r);
    assert_eq!(region.bounding_rect(), r);
    assert_eq!(region.iter(), vec![bx(-7, 3, 5, 12)]);
    assert_eq!(DirtyRegion::from(rect(1, 1, 0, 0)).len(), 0);
}

#[test]
fn bounding_rect_contains_every_added_rect() {
    let added = [
        rect(3, 4, 5, 6),
        rect(-100, 20, 30, 1),
        rect(500, 500, 1, 1),
        rect(7, -900, 2, 3),
        rect(0, 0, 0, 0),
        rect(250, 250, 40, 40),
    ];
    let mut region = DirtyRegion::default();
    for r in added {
        region.add_rect(r);
        assert!(region.len() <= 3);
        assert!(region.iter().iter().all(|b| !b.is_empty()));
    }
    for r in added {
        assert!(region.bounding_box().contains_box(&r.to_box2d()));
    }
}

#[test]
fn draw_intersects_any_box() {
    let mut region = DirtyRegion::default();
    region.add_rect(rect(0, 0, 10, 10));
    region.add_rect(rect(100, 100, 10, 10));
    assert!(region.draw_intersects(&WideBox::from_rect(&rect(105, 105, 50, 50))));
    assert!(!region.draw_intersects(&WideBox::from_rect(&rect(10, 0, 50, 50))));
    // A box without area counts where it lies inside a box of the region.
    assert!(region.draw_intersects(&WideBox::from_rect(&rect(5, 5, 0, 0))));
    assert!(!region.draw_intersects(&WideBox::from_rect(&rect(10, 5, 0, 0))));
    assert!(!DirtyRegion::default().draw_intersects(&WideBox::from_rect(&rect(0, 0, 10, 10))));
}
