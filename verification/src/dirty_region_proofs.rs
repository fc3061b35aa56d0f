//! What holds of every dirty region, proved over the sequences of boxes that
//! the operations of [`crate::dirty_region`] are stated with.

use crate::dirty_region::{
    best_merge, covers, hull, intersect_from, region_wf, remove_contained, spec_add_box,
    spec_add_boxes, spec_bounding_box, spec_intersection, swap_remove, MAX_COUNT,
};
use crate::lengths::{LogicalBox, LogicalRect};
use vstd::prelude::*;

verus! {

/// A box that lies within a box that lies within a third lies within the third.
pub proof fn lemma_contains_box_transitive(a: LogicalBox, b: LogicalBox, c: LogicalBox)
    requires
        a.spec_contains_box(b),
        b.spec_contains_box(c),
    ensures
        a.spec_contains_box(c),
{
}

/// The union of two boxes holds both.
pub proof fn lemma_union_contains(a: LogicalBox, b: LogicalBox)
    ensures
        a.spec_union(b).spec_contains_box(a),
        a.spec_union(b).spec_contains_box(b),
        !a.spec_is_empty() || !b.spec_is_empty() ==> !a.spec_union(b).spec_is_empty(),
{
}

/// The index that `best_merge` picks among the first `n` boxes is one of them.
pub proof fn lemma_best_merge_in_range(s: Seq<LogicalBox>, b: LogicalBox, n: int)
    requires
        1 <= n <= s.len(),
    ensures
        0 <= best_merge(s, b, n) < n,
    decreases n,
{
    if n > 1 {
        lemma_best_merge_in_range(s, b, n - 1);
    }
}

/// What `remove_contained` keeps and what it takes out: every box that is
/// left was there before, and every box that was there before is left or lies
/// within `b`. Before `i` nothing moves.
pub proof fn lemma_remove_contained(s: Seq<LogicalBox>, b: LogicalBox, i: int)
    requires
        0 <= i <= s.len(),
    ensures
        remove_contained(s, b, i).len() <= s.len(),
        i <= remove_contained(s, b, i).len(),
        forall|k: int|
            0 <= k < remove_contained(s, b, i).len() ==> s.contains(
                #[trigger] remove_contained(s, b, i)[k],
            ),
        forall|j: int|
            0 <= j < s.len() ==> remove_contained(s, b, i).contains(#[trigger] s[j])
                || b.spec_contains_box(s[j]),
        forall|k: int| 0 <= k < i ==> (#[trigger] remove_contained(s, b, i)[k]) == s[k],
        forall|k: int|
            i <= k < remove_contained(s, b, i).len() ==> !b.spec_contains_box(
                #[trigger] remove_contained(s, b, i)[k],
            ),
    decreases s.len() - i,
{
    let t = remove_contained(s, b, i);
    if i >= s.len() {
        assert forall|j: int| 0 <= j < s.len() implies t.contains(#[trigger] s[j]) by {
            assert(t[j] == s[j]);
        }
    } else if b.spec_contains_box(s[i]) {
        let u = swap_remove(s, i);
        lemma_remove_contained(u, b, i);
        assert(t == remove_contained(u, b, i));
        assert forall|k: int| 0 <= k < i implies (#[trigger] t[k]) == s[k] by {
            assert(t[k] == u[k]);
        }
        assert forall|k: int| 0 <= k < t.len() implies s.contains(#[trigger] t[k]) by {
            assert(u.contains(t[k]));
            let m = choose|m: int| 0 <= m < u.len() && u[m] == t[k];
            if m == i {
                assert(s[s.len() - 1] == t[k]);
            } else {
                assert(s[m] == t[k]);
            }
        }
        assert forall|j: int| 0 <= j < s.len() implies t.contains(#[trigger] s[j])
            || b.spec_contains_box(s[j]) by {
            if j == i {
            } else if j == s.len() - 1 {
                assert(u[i] == s[j]);
                assert(t.contains(u[i]) || b.spec_contains_box(u[i]));
            } else {
                assert(u[j] == s[j]);
                assert(t.contains(u[j]) || b.spec_contains_box(u[j]));
            }
        }
    } else {
        lemma_remove_contained(s, b, i + 1);
        assert(t == remove_contained(s, b, i + 1));
        assert forall|k: int| 0 <= k < i implies (#[trigger] t[k]) == s[k] by {
        }
        assert forall|k: int| i <= k < t.len() implies !b.spec_contains_box(#[trigger] t[k]) by {
            if k == i {
                assert(t[i] == s[i]);
            }
        }
    }
}

/// Adding a box leaves a well-formed region well-formed.
pub proof fn lemma_add_box_wf(s: Seq<LogicalBox>, b: LogicalBox)
    requires
        region_wf(s),
    ensures
        region_wf(spec_add_box(s, b)),
{
    if !(b.spec_is_empty() || covers(s, b)) {
        let t = remove_contained(s, b, 0);
        lemma_remove_contained(s, b, 0);
        assert forall|k: int| 0 <= k < t.len() implies !(#[trigger] t[k]).spec_is_empty() by {
            assert(s.contains(t[k]));
        }
        if t.len() >= MAX_COUNT {
            lemma_best_merge_in_range(t, b, t.len() as int);
        }
    }
}

/// After a box was added, one box of the region holds it, unless it is empty.
pub proof fn lemma_add_box_covers_added(s: Seq<LogicalBox>, b: LogicalBox)
    requires
        region_wf(s),
        !b.spec_is_empty(),
    ensures
        covers(spec_add_box(s, b), b),
{
    let r = spec_add_box(s, b);
    if !covers(s, b) {
        let t = remove_contained(s, b, 0);
        lemma_remove_contained(s, b, 0);
        if t.len() < MAX_COUNT {
            assert(r[t.len() as int].spec_contains_box(b));
        } else {
            lemma_best_merge_in_range(t, b, t.len() as int);
            let k = best_merge(t, b, t.len() as int);
            lemma_union_contains(t[k], b);
            assert(r[k].spec_contains_box(b));
        }
    }
}

/// What one box of a region holds, one box still holds after another box
/// was added.
pub proof fn lemma_add_box_keeps_covered(s: Seq<LogicalBox>, b: LogicalBox, x: LogicalBox)
    requires
        region_wf(s),
        covers(s, x),
    ensures
        covers(spec_add_box(s, b), x),
{
    let r = spec_add_box(s, b);
    if !(b.spec_is_empty() || covers(s, b)) {
        let j = choose|j: int| 0 <= j < s.len() && (#[trigger] s[j]).spec_contains_box(x);
        let t = remove_contained(s, b, 0);
        lemma_remove_contained(s, b, 0);
        if t.len() >= MAX_COUNT {
            lemma_best_merge_in_range(t, b, t.len() as int);
        }
        let k = best_merge(t, b, t.len() as int);
        if t.contains(s[j]) {
            let m = choose|m: int| 0 <= m < t.len() && t[m] == s[j];
            if t.len() < MAX_COUNT {
                assert(r[m].spec_contains_box(x));
            } else if m == k {
                lemma_union_contains(t[k], b);
                lemma_contains_box_transitive(r[k], s[j], x);
                assert(r[k].spec_contains_box(x));
            } else {
                assert(r[m].spec_contains_box(x));
            }
        } else {
            lemma_contains_box_transitive(b, s[j], x);
            if t.len() < MAX_COUNT {
                assert(r[t.len() as int].spec_contains_box(x));
            } else {
                lemma_union_contains(t[k], b);
                lemma_contains_box_transitive(r[k], b, x);
                assert(r[k].spec_contains_box(x));
            }
        }
    }
}

/// The smallest box around the first `n` boxes of a well-formed region holds
/// each of them, and is not empty unless `n` is zero.
pub proof fn lemma_hull_contains(s: Seq<LogicalBox>, n: int, i: int)
    requires
        region_wf(s),
        0 <= i < n <= s.len(),
    ensures
        hull(s, n).spec_contains_box(s[i]),
        !hull(s, n).spec_is_empty(),
    decreases n,
{
    if n > 1 {
        lemma_union_contains(hull(s, n - 1), s[n - 1]);
        if i < n - 1 {
            lemma_hull_contains(s, n - 1, i);
            lemma_contains_box_transitive(hull(s, n), hull(s, n - 1), s[i]);
        } else {
            lemma_hull_contains(s, n - 1, 0);
        }
    }
}

/// A box that holds each of the first `n` boxes holds the smallest box
/// around them.
pub proof fn lemma_hull_within(s: Seq<LogicalBox>, n: int, outer: LogicalBox)
    requires
        region_wf(s),
        0 <= n <= s.len(),
        forall|i: int| 0 <= i < n ==> outer.spec_contains_box(#[trigger] s[i]),
    ensures
        outer.spec_contains_box(hull(s, n)),
    decreases n,
{
    if n > 1 {
        lemma_hull_within(s, n - 1, outer);
        lemma_hull_contains(s, n - 1, 0);
        assert(outer.spec_contains_box(s[n - 1]));
    } else if n == 1 {
        assert(outer.spec_contains_box(s[0]));
    }
}

/// The smallest box around a region that one box of which holds `x` holds `x`.
pub proof fn lemma_bounding_box_contains_covered(s: Seq<LogicalBox>, x: LogicalBox)
    requires
        region_wf(s),
        covers(s, x),
    ensures
        spec_bounding_box(s).spec_contains_box(x),
{
    let j = choose|j: int| 0 <= j < s.len() && (#[trigger] s[j]).spec_contains_box(x);
    lemma_hull_contains(s, s.len() as int, j);
    lemma_contains_box_transitive(spec_bounding_box(s), s[j], x);
}

/// Adding boxes one after the other leaves a well-formed region well-formed.
pub proof fn lemma_add_boxes_wf(s: Seq<LogicalBox>, boxes: Seq<LogicalBox>, n: int)
    requires
        region_wf(s),
        0 <= n <= boxes.len(),
    ensures
        region_wf(spec_add_boxes(s, boxes, n)),
    decreases n,
{
    if n > 0 {
        lemma_add_boxes_wf(s, boxes, n - 1);
        lemma_add_box_wf(spec_add_boxes(s, boxes, n - 1), boxes[n - 1]);
    }
}

/// After any number of boxes were added to a region, whatever box was among
/// them is empty or lies within one box of the region, and so does what one box
/// of the region held before.
pub proof fn lemma_add_boxes_covers(s: Seq<LogicalBox>, boxes: Seq<LogicalBox>, n: int)
    requires
        region_wf(s),
        0 <= n <= boxes.len(),
    ensures
        forall|i: int|
            0 <= i < n ==> (#[trigger] boxes[i]).spec_is_empty() || covers(
                spec_add_boxes(s, boxes, n),
                boxes[i],
            ),
        forall|x: LogicalBox| covers(s, x) ==> covers(spec_add_boxes(s, boxes, n), x),
    decreases n,
{
    if n > 0 {
        let before = spec_add_boxes(s, boxes, n - 1);
        let after = spec_add_boxes(s, boxes, n);
        lemma_add_boxes_covers(s, boxes, n - 1);
        lemma_add_boxes_wf(s, boxes, n - 1);
        assert forall|i: int| 0 <= i < n implies (#[trigger] boxes[i]).spec_is_empty() || covers(
            after,
            boxes[i],
        ) by {
            if !boxes[i].spec_is_empty() {
                if i == n - 1 {
                    lemma_add_box_covers_added(before, boxes[i]);
                } else {
                    lemma_add_box_keeps_covered(before, boxes[n - 1], boxes[i]);
                }
            }
        }
        assert forall|x: LogicalBox| covers(s, x) implies covers(after, x) by {
            lemma_add_box_keeps_covered(before, boxes[n - 1], x);
        }
    }
}

/// Whatever sequence of rectangles is added to a region, the bounding box of
/// the region contains each of them afterwards.
pub proof fn lemma_bounding_box_contains_added(
    s: Seq<LogicalBox>,
    rects: Seq<LogicalRect>,
    i: int,
)
    requires
        region_wf(s),
        0 <= i < rects.len(),
    ensures
        ({
            let boxes = rects.map_values(|r: LogicalRect| r.spec_to_box2d());
            spec_bounding_box(spec_add_boxes(s, boxes, boxes.len() as int)).spec_contains_box(
                rects[i].spec_to_box2d(),
            )
        }),
{
    let boxes = rects.map_values(|r: LogicalRect| r.spec_to_box2d());
    let n = boxes.len() as int;
    lemma_add_boxes_covers(s, boxes, n);
    lemma_add_boxes_wf(s, boxes, n);
    assert(boxes[i] == rects[i].spec_to_box2d());
    if !boxes[i].spec_is_empty() {
        lemma_bounding_box_contains_covered(spec_add_boxes(s, boxes, n), boxes[i]);
    }
}

/// A region never holds more than three boxes and never an empty one,
/// whatever is added to it or cut from it.
pub proof fn lemma_region_stays_well_formed(s: Seq<LogicalBox>, b: LogicalBox)
    requires
        region_wf(s),
    ensures
        region_wf(spec_add_box(s, b)),
        region_wf(spec_intersection(s, b)),
        spec_add_box(s, b).len() <= 3,
        spec_intersection(s, b).len() <= 3,
{
    lemma_add_box_wf(s, b);
    lemma_intersect_from(s, b, 0);
    let t = spec_intersection(s, b);
    assert forall|k: int| 0 <= k < t.len() implies !(#[trigger] t[k]).spec_is_empty() by {
        let j = choose|j: int|
            0 <= j < s.len() && s[j].spec_intersection(b) == Some(#[trigger] t[k]);
    }
}

/// Adding a box that lies within a box that was added just before changes
/// nothing.
pub proof fn lemma_add_contained_box_changes_nothing(
    s: Seq<LogicalBox>,
    a: LogicalBox,
    b: LogicalBox,
)
    requires
        region_wf(s),
        a.spec_contains_box(b),
    ensures
        spec_add_box(spec_add_box(s, a), b) == spec_add_box(s, a),
{
    if !b.spec_is_empty() {
        let r = spec_add_box(s, a);
        lemma_add_box_covers_added(s, a);
        let k = choose|k: int| 0 <= k < r.len() && (#[trigger] r[k]).spec_contains_box(a);
        lemma_contains_box_transitive(r[k], a, b);
    }
}

/// What `intersect_from` leaves: before `i` nothing moves, and every box from
/// `i` on is what `b` shares with a box that was at `i` or later.
pub proof fn lemma_intersect_from(s: Seq<LogicalBox>, b: LogicalBox, i: int)
    requires
        0 <= i <= s.len(),
    ensures
        i <= intersect_from(s, b, i).len() <= s.len(),
        forall|k: int| 0 <= k < i ==> (#[trigger] intersect_from(s, b, i)[k]) == s[k],
        forall|k: int|
            i <= k < intersect_from(s, b, i).len() ==> exists|j: int|
                i <= j < s.len() && s[j].spec_intersection(b) == Some(
                    #[trigger] intersect_from(s, b, i)[k],
                ),
    decreases s.len() - i,
{
    let t = intersect_from(s, b, i);
    if i < s.len() {
        match s[i].spec_intersection(b) {
            Some(x) => {
                let u = s.update(i, x);
                lemma_intersect_from(u, b, i + 1);
                assert(t == intersect_from(u, b, i + 1));
                assert forall|k: int| 0 <= k < i implies (#[trigger] t[k]) == s[k] by {
                    assert(t[k] == u[k]);
                }
                assert(t[i] == u[i]);
                assert forall|k: int| i <= k < t.len() implies exists|j: int|
                    i <= j < s.len() && s[j].spec_intersection(b) == Some(#[trigger] t[k]) by {
                    if k == i {
                        assert(t[k] == x);
                        assert(s[i].spec_intersection(b) == Some(t[k]));
                    } else {
                        let j = choose|j: int|
                            i + 1 <= j < u.len() && u[j].spec_intersection(b) == Some(t[k]);
                        assert(s[j].spec_intersection(b) == Some(t[k]));
                    }
                }
            },
            None => {
                let u = swap_remove(s, i);
                lemma_intersect_from(u, b, i);
                assert(t == intersect_from(u, b, i));
                assert forall|k: int| 0 <= k < i implies (#[trigger] t[k]) == s[k] by {
                    assert(t[k] == u[k]);
                }
                assert forall|k: int| i <= k < t.len() implies exists|j: int|
                    i <= j < s.len() && s[j].spec_intersection(b) == Some(#[trigger] t[k]) by {
                    let j = choose|j: int|
                        i <= j < u.len() && u[j].spec_intersection(b) == Some(t[k]);
                    if j == i {
                        assert(s[s.len() - 1].spec_intersection(b) == Some(t[k]));
                    } else {
                        assert(s[j].spec_intersection(b) == Some(t[k]));
                    }
                }
            },
        }
    }
}

/// The bounding box of a region cut down to a rectangle lies within what the
/// rectangle shares with the bounding box of the whole region.
pub proof fn lemma_intersection_within_bounds(s: Seq<LogicalBox>, r: LogicalRect)
    requires
        region_wf(s),
    ensures
        spec_bounding_box(s).spec_intersection_unchecked(r.spec_to_box2d()).spec_contains_box(
            spec_bounding_box(spec_intersection(s, r.spec_to_box2d())),
        ),
{
    let b = r.spec_to_box2d();
    let t = spec_intersection(s, b);
    let outer = spec_bounding_box(s).spec_intersection_unchecked(b);
    lemma_intersect_from(s, b, 0);
    lemma_region_stays_well_formed(s, b);
    assert forall|k: int| 0 <= k < t.len() implies outer.spec_contains_box(#[trigger] t[k]) by {
        let j = choose|j: int| 0 <= j < s.len() && s[j].spec_intersection(b) == Some(t[k]);
        lemma_hull_contains(s, s.len() as int, j);
    }
    lemma_hull_within(t, t.len() as int, outer);
}

/// The region made from a rectangle that is not empty has that rectangle as
/// its bounding rectangle.
pub proof fn lemma_from_rect_round_trip(rect: LogicalRect)
    requires
        rect.in_range(),
        !rect.spec_is_empty(),
    ensures
        spec_bounding_box(
            spec_add_box(Seq::<LogicalBox>::empty(), rect.spec_to_box2d()),
        ).fits_rect(),
        spec_bounding_box(
            spec_add_box(Seq::<LogicalBox>::empty(), rect.spec_to_box2d()),
        ).spec_to_rect() == rect,
{
    let e = Seq::<LogicalBox>::empty();
    let b = rect.spec_to_box2d();
    assert(!b.spec_is_empty());
    assert(!covers(e, b));
    assert(remove_contained(e, b, 0) == e);
    assert(spec_add_box(e, b) =~= seq![b]);
}

/// No box of the region contains another box of the region.
pub open spec fn boxes_apart(s: Seq<LogicalBox>) -> bool {
    forall|i: int, j: int|
        0 <= i < s.len() && 0 <= j < s.len() && i != j ==> !(#[trigger] s[i]).spec_contains_box(
            #[trigger] s[j],
        )
}

/// Taking out the boxes that lie within `b` leaves boxes of which none
/// contains another, where that held before.
pub proof fn lemma_remove_contained_keeps_apart(s: Seq<LogicalBox>, b: LogicalBox, i: int)
    requires
        0 <= i <= s.len(),
        boxes_apart(s),
    ensures
        boxes_apart(remove_contained(s, b, i)),
    decreases s.len() - i,
{
    if i < s.len() {
        if b.spec_contains_box(s[i]) {
            let u = swap_remove(s, i);
            assert forall|m: int, n: int|
                0 <= m < u.len() && 0 <= n < u.len() && m != n implies !(#[trigger] u[m]).spec_contains_box(
                #[trigger] u[n],
            ) by {
                let sm = if m == i { s.len() - 1 } else { m };
                let sn = if n == i { s.len() - 1 } else { n };
                assert(u[m] == s[sm] && u[n] == s[sn]);
            }
            lemma_remove_contained_keeps_apart(u, b, i);
        } else {
            lemma_remove_contained_keeps_apart(s, b, i + 1);
        }
    }
}

/// As long as a region has room for the box that is added, no box of the
/// region contains another one afterwards, where that held before. Once two
/// boxes were merged, the merged box may contain a third.
pub proof fn lemma_add_box_keeps_apart(s: Seq<LogicalBox>, b: LogicalBox)
    requires
        region_wf(s),
        boxes_apart(s),
        remove_contained(s, b, 0).len() < MAX_COUNT,
    ensures
        boxes_apart(spec_add_box(s, b)),
{
    if !(b.spec_is_empty() || covers(s, b)) {
        let t = remove_contained(s, b, 0);
        let r = t.push(b);
        lemma_remove_contained(s, b, 0);
        lemma_remove_contained_keeps_apart(s, b, 0);
        assert forall|m: int, n: int|
            0 <= m < r.len() && 0 <= n < r.len() && m != n implies !(#[trigger] r[m]).spec_contains_box(
            #[trigger] r[n],
        ) by {
            if m == t.len() {
                assert(!b.spec_contains_box(t[n]));
            } else if n == t.len() {
                assert(s.contains(t[m]));
                let k = choose|k: int| 0 <= k < s.len() && s[k] == t[m];
                assert(!s[k].spec_contains_box(b));
            } else {
                assert(!t[m].spec_contains_box(t[n]));
            }
        }
    }
}

} // verus!
