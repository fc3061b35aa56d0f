use item_rendering::lengths::{LogicalBox, LogicalPoint, LogicalRect, LogicalSize, LogicalVector};
use item_rendering::lengths::WideBox;
use item_rendering::transform::ItemTransform;

fn rect(x: i32, y: i32, w: i32, h: i32) -> LogicalRect {
    LogicalRect::new(LogicalPoint::new(x, y), LogicalSize::new(w, h))
}

fn bx(x0: i32, y0: i32, x1: i32, y1: i32) -> LogicalBox {
    LogicalBox::new(LogicalPoint::new(x0, y0), LogicalPoint::new(x1, y1))
}

fn wide(x0: i128, y0: i128, x1: i128, y1: i128) -> WideBox {
    WideBox { min_x: x0, min_y: y0, max_x: x1, max_y: y1 }
}

#[test]
fn size_is_empty_and_max() {
    assert!(LogicalSize::new(0, 5).is_empty());
    assert!(LogicalSize::new(5, -1).is_empty());
    assert!(!LogicalSize::new(1, 1).is_empty());
    assert_eq!(LogicalSize::new(3, 10).max(&LogicalSize::new(7, 2)), LogicalSize::new(7, 10));
}

#[test]
fn rect_and_box_convert() {
    assert_eq!(rect(10, 20, 5, 6).to_box2d(), bx(10, 20, 15, 26));
    assert_eq!(bx(10, 20, 15, 26).to_rect(), rect(10, 20, 5, 6));
    assert_eq!(rect(1, 1, -4, 2).to_box2d(), bx(1, 1, -3, 3));
    assert!(rect(i32::MAX, 0, 1, 1).is_empty() == false);
    assert!(!rect(i32::MAX, 0, 1, 1).is_in_range());
    assert!(rect(i32::MAX - 1, 0, 1, 1).is_in_range());
    assert!(!bx(i32::MIN, 0, i32::MAX, 1).is_fitting_rect());
    assert!(bx(-1, 0, i32::MAX - 1, 1).is_fitting_rect());
    assert!(rect(3, 3, 0, 9).is_empty());
    assert_eq!(LogicalRect::from_size(LogicalSize::new(4, 5)), rect(0, 0, 4, 5));
    assert_eq!(LogicalRect::zero(), rect(0, 0, 0, 0));
    assert_eq!(LogicalBox::zero(), bx(0, 0, 0, 0));
    assert_eq!(LogicalPoint::new(2, 3).to_vector(), LogicalVector::new(2, 3));
}

#[test]
fn box_is_empty() {
    assert!(bx(0, 0, 0, 10).is_empty());
    assert!(bx(5, 0, 4, 10).is_empty());
    assert!(!bx(0, 0, 1, 1).is_empty());
}

#[test]
fn box_union() {
    assert_eq!(bx(0, 0, 10, 10).union(&bx(5, -5, 20, 3)), bx(0, -5, 20, 10));
    assert_eq!(bx(0, 0, 10, 10).union(&bx(50, 50, 50, 60)), bx(0, 0, 10, 10));
    assert_eq!(bx(3, 3, 3, 3).union(&bx(50, 50, 51, 60)), bx(50, 50, 51, 60));
    assert_eq!(bx(3, 3, 3, 3).union(&bx(7, 7, 7, 7)), bx(3, 3, 3, 3));
}

#[test]
fn box_intersection() {
    assert_eq!(bx(0, 0, 10, 10).intersection(&bx(5, -5, 20, 3)), Some(bx(5, 0, 10, 3)));
    assert_eq!(bx(0, 0, 10, 10).intersection(&bx(10, 0, 20, 10)), None);
    assert!(bx(0, 0, 10, 10).intersects(&bx(9, 9, 20, 20)));
    assert!(!bx(0, 0, 10, 10).intersects(&bx(10, 0, 20, 10)));
}

#[test]
fn box_contains_box() {
    assert!(bx(0, 0, 10, 10).contains_box(&bx(0, 0, 10, 10)));
    assert!(bx(0, 0, 10, 10).contains_box(&bx(2, 2, 3, 3)));
    assert!(!bx(0, 0, 10, 10).contains_box(&bx(2, 2, 11, 3)));
    assert!(bx(0, 0, 10, 10).contains_box(&bx(50, 50, 50, 50)));
    assert!(!bx(0, 0, 0, 0).contains_box(&bx(0, 0, 1, 1)));
}

#[test]
fn box_area_needs_more_than_64_bits() {
    assert_eq!(bx(0, 0, 10, 20).area(), 200);
    assert_eq!(bx(i32::MIN, i32::MIN, i32::MAX, i32::MAX).area(), 4294967295i128 * 4294967295i128);
    assert_eq!(bx(0, 0, -3, 5).area(), -15);
}

#[test]
fn transform_composition() {
    let a = ItemTransform { m11: 2, m12: 0, m21: 0, m22: 3, m31: 5, m32: 7 };
    let b = ItemTransform::translation(10, 20);
    assert_eq!(
        a.followed_by(&b),
        Some(ItemTransform { m11: 2, m12: 0, m21: 0, m22: 3, m31: 15, m32: 27 })
    );
    assert_eq!(
        b.followed_by(&a),
        Some(ItemTransform { m11: 2, m12: 0, m21: 0, m22: 3, m31: 25, m32: 67 })
    );
    let r = ItemTransform { m11: 0, m12: 1, m21: -1, m22: 0, m31: 0, m32: 0 };
    assert_eq!(
        r.followed_by(&r),
        Some(ItemTransform { m11: -1, m12: 0, m21: 0, m22: -1, m31: 0, m32: 0 })
    );
    assert_eq!(ItemTransform::identity().followed_by(&a), Some(a));
    assert_eq!(a.followed_by_translation(LogicalVector::new(-5, -7)).unwrap().m31, 0);
    let big = ItemTransform::translation(i32::MAX, 0);
    assert_eq!(big.followed_by(&ItemTransform::translation(1, 0)), None);
    let scale = ItemTransform { m11: 65536, m12: 0, m21: 0, m22: 1, m31: 0, m32: 0 };
    assert_eq!(scale.followed_by(&scale), None);
}

#[test]
fn transform_of_a_rect() {
    let t = ItemTransform::translation(10, 20);
    assert_eq!(t.outer_transformed_box(&rect(1, 2, 3, 4)), wide(11, 22, 14, 26));
    let r = ItemTransform { m11: 0, m12: 1, m21: -1, m22: 0, m31: 0, m32: 0 };
    assert_eq!(r.outer_transformed_box(&rect(1, 2, 3, 4)), wide(-6, 1, -2, 4));
    let far = ItemTransform::translation(i32::MAX, i32::MAX);
    assert_eq!(
        far.outer_transformed_box(&rect(i32::MAX, i32::MAX, i32::MAX, i32::MAX)),
        wide(4294967294, 4294967294, 6442450941, 6442450941)
    );
}

#[test]
fn wide_boxes() {
    assert_eq!(WideBox::from_rect(&rect(i32::MAX, 1, i32::MAX, 1)), wide(2147483647, 1, 4294967294, 2));
    assert_eq!(WideBox::from_box(&bx(1, 2, 3, 4)), wide(1, 2, 3, 4));
    assert_eq!(wide(0, 0, 10, 10).union(&wide(5, 5, 20, 7)), wide(0, 0, 20, 10));
    assert_eq!(wide(0, 0, 10, 10).union(&wide(5, 5, 5, 7)), wide(0, 0, 10, 10));
    assert_eq!(wide(0, 0, 10, 10).intersection(&wide(5, 5, 20, 7)), Some(wide(5, 5, 10, 7)));
    assert_eq!(wide(0, 0, 10, 10).intersection(&wide(10, 5, 20, 7)), None);
    assert!(wide(0, 0, 10, 10).intersects(&wide(9, 9, 20, 20)));
    assert!(!wide(0, 0, 10, 10).intersects(&wide(10, 9, 20, 20)));
    assert_eq!(wide(0, 0, 10, 10).translate(5, -5), wide(5, -5, 15, 5));
    assert_eq!(wide(-5, 0, 10000000000, 10).clip_to(&bx(0, 0, 100, 100)), Some(bx(0, 0, 100, 10)));
    assert_eq!(wide(-5, 0, -1, 10).clip_to(&bx(0, 0, 100, 100)), None);
    assert_eq!(wide(1, 2, 4, 6).to_rect(), Some(rect(1, 2, 3, 4)));
    assert_eq!(wide(0, 0, 4294967296, 6).to_rect(), None);
    assert_eq!(wide(-4294967296, 0, 4, 6).to_rect(), None);
    assert_eq!(WideBox::zero(), wide(0, 0, 0, 0));
}
