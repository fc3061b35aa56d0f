//! The region of the screen that has to be repainted, held as a few boxes.
//!
//! A region never holds more than [`MAX_COUNT`] boxes. Where one more would be
//! needed, two are merged: the region may then cover more than what was added
//! to it, never less.

use crate::lengths::{LogicalBox, LogicalRect};
use crate::lengths::WideBox;
use vstd::prelude::*;

verus! {

/// The maximum number of boxes that a [`DirtyRegion`] holds.
pub const MAX_COUNT: usize = 3;

/// What a well-formed region holds: at most [`MAX_COUNT`] boxes, none of them
/// empty.
pub open spec fn region_wf(s: Seq<LogicalBox>) -> bool {
    &&& s.len() <= MAX_COUNT
    &&& forall|i: int| 0 <= i < s.len() ==> !(#[trigger] s[i]).spec_is_empty()
}

/// One of the boxes contains `b`.
pub open spec fn covers(s: Seq<LogicalBox>, b: LogicalBox) -> bool {
    exists|i: int| 0 <= i < s.len() && (#[trigger] s[i]).spec_contains_box(b)
}

/// One of the boxes shares some area with `b`.
pub open spec fn spec_draw_intersects(s: Seq<LogicalBox>, b: WideBox) -> bool {
    exists|i: int| 0 <= i < s.len() && WideBox::spec_from_box(#[trigger] s[i]).spec_intersects(b)
}

/// The boxes without the one at `i`, whose place the last box takes.
pub open spec fn swap_remove(s: Seq<LogicalBox>, i: int) -> Seq<LogicalBox>
    recommends
        0 <= i < s.len(),
{
    s.update(i, s.last()).drop_last()
}

/// The boxes from `i` on that `b` contains are taken out one by one, each
/// replaced by the box that is last at that moment.
pub open spec fn remove_contained(s: Seq<LogicalBox>, b: LogicalBox, i: int) -> Seq<LogicalBox>
    decreases s.len() - i,
{
    if i < 0 || i >= s.len() {
        s
    } else if b.spec_contains_box(s[i]) {
        remove_contained(swap_remove(s, i), b, i)
    } else {
        remove_contained(s, b, i + 1)
    }
}

/// By how much the area of `r` grows when it is extended to hold `b` as well.
pub open spec fn growth(r: LogicalBox, b: LogicalBox) -> int {
    r.spec_union(b).spec_area() - r.spec_area()
}

/// Among the first `n` boxes, the index of the one that grows least when it is
/// extended to hold `b`; of several such, the first.
pub open spec fn best_merge(s: Seq<LogicalBox>, b: LogicalBox, n: int) -> int
    decreases n,
{
    if n <= 1 {
        0
    } else {
        let k = best_merge(s, b, n - 1);
        if growth(s[n - 1], b) < growth(s[k], b) {
            n - 1
        } else {
            k
        }
    }
}

/// The region after `b` was added to it.
///
/// Nothing changes where `b` is empty or lies within one of the boxes.
/// Otherwise the boxes that lie within `b` leave. Then `b` becomes the last
/// box, or, where the region is full, the box that grows least is extended to
/// hold `b`.
pub open spec fn spec_add_box(s: Seq<LogicalBox>, b: LogicalBox) -> Seq<LogicalBox> {
    if b.spec_is_empty() || covers(s, b) {
        s
    } else {
        let t = remove_contained(s, b, 0);
        if t.len() < MAX_COUNT {
            t.push(b)
        } else {
            let k = best_merge(t, b, t.len() as int);
            t.update(k, t[k].spec_union(b))
        }
    }
}

/// The region after the first `n` of `boxes` were added to it, in their order.
pub open spec fn spec_add_boxes(s: Seq<LogicalBox>, boxes: Seq<LogicalBox>, n: int) -> Seq<
    LogicalBox,
>
    decreases n,
{
    if n <= 0 {
        s
    } else {
        spec_add_box(spec_add_boxes(s, boxes, n - 1), boxes[n - 1])
    }
}

/// From `i` on, each box is cut down to what it shares with `b`; one that
/// shares nothing leaves, and the box that is last at that moment takes its
/// place.
pub open spec fn intersect_from(s: Seq<LogicalBox>, b: LogicalBox, i: int) -> Seq<LogicalBox>
    decreases s.len() - i,
{
    if i < 0 || i >= s.len() {
        s
    } else {
        match s[i].spec_intersection(b) {
            Some(x) => intersect_from(s.update(i, x), b, i + 1),
            None => intersect_from(swap_remove(s, i), b, i),
        }
    }
}

/// The region cut down to what lies within `b`.
pub open spec fn spec_intersection(s: Seq<LogicalBox>, b: LogicalBox) -> Seq<LogicalBox> {
    intersect_from(s, b, 0)
}

/// The smallest box that holds the first `n` boxes; the empty box at the
/// origin where `n` is zero.
pub open spec fn hull(s: Seq<LogicalBox>, n: int) -> LogicalBox
    decreases n,
{
    if n <= 0 {
        LogicalBox::spec_zero()
    } else if n == 1 {
        s[0]
    } else {
        hull(s, n - 1).spec_union(s[n - 1])
    }
}

/// The smallest box that holds all the boxes.
pub open spec fn spec_bounding_box(s: Seq<LogicalBox>) -> LogicalBox {
    hull(s, s.len() as int)
}

/// A region composed of a few boxes that need to be redrawn.
#[derive(Clone, Copy, Debug)]
pub struct DirtyRegion {
    rectangles: [LogicalBox; 3],
    count: usize,
}

impl View for DirtyRegion {
    type V = Seq<LogicalBox>;

    /// The boxes of the region, in the order in which it holds them.
    closed spec fn view(&self) -> Seq<LogicalBox> {
        self.rectangles@.subrange(0, self.count as int)
    }
}

impl DirtyRegion {
    #[verifier::type_invariant]
    spec fn inv(self) -> bool {
        &&& self.count <= MAX_COUNT
        &&& forall|i: int| 0 <= i < self.count ==> !(#[trigger] self.rectangles[i]).spec_is_empty()
    }

    /// The region that holds nothing.
    pub fn new() -> (r: DirtyRegion)
        ensures
            r@ == Seq::<LogicalBox>::empty(),
    {
        let r = DirtyRegion { rectangles: [LogicalBox::zero(); 3], count: 0 };
        assert(r@ =~= Seq::<LogicalBox>::empty());
        r
    }

    /// The number of boxes in the region.
    pub fn len(&self) -> (n: usize)
        ensures
            n == self@.len(),
            n <= MAX_COUNT,
    {
        proof {
            use_type_invariant(self);
        }
        self.count
    }

    /// The box at position `i`.
    pub fn get(&self, i: usize) -> (b: LogicalBox)
        requires
            i < self@.len(),
        ensures
            b == self@[i as int],
            !b.spec_is_empty(),
    {
        proof {
            use_type_invariant(self);
        }
        self.rectangles[i]
    }

    /// Add a rectangle to the region.
    ///
    /// Where the region becomes too complex, it is simplified and may then
    /// cover more than the union of what was added.
    pub fn add_rect(&mut self, rect: LogicalRect)
        requires
            rect.in_range(),
        ensures
            final(self)@ == spec_add_box(old(self)@, rect.spec_to_box2d()),
            region_wf(final(self)@),
    {
        self.add_box(rect.to_box2d());
    }

    /// Add a box to the region.
    ///
    /// Where the region becomes too complex, it is simplified and may then
    /// cover more than the union of what was added.
    pub fn add_box(&mut self, b: LogicalBox)
        ensures
            final(self)@ == spec_add_box(old(self)@, b),
            region_wf(final(self)@),
    {
        proof {
            use_type_invariant(&*self);
        }
        if b.is_empty() {
            return ;
        }
        let mut i: usize = 0;
        while i < self.count
            invariant
                i <= self.count <= MAX_COUNT,
                *self == *old(self),
                region_wf(self@),
                forall|j: int| 0 <= j < i ==> !(#[trigger] self@[j]).spec_contains_box(b),
            decreases self.count - i,
        {
            if self.rectangles[i].contains_box(&b) {
                assert(self@[i as int].spec_contains_box(b));
                return ;
            }
            i += 1;
        }
        assert(!covers(self@, b));
        i = 0;
        while i < self.count
            invariant
                i <= self.count <= MAX_COUNT,
                !b.spec_is_empty(),
                forall|j: int|
                    0 <= j < self.count ==> !(#[trigger] self.rectangles[j]).spec_is_empty(),
                remove_contained(self@, b, i as int) == remove_contained(old(self)@, b, 0),
            decreases self.count - i,
        {
            if b.contains_box(&self.rectangles[i]) {
                let ghost before = self@;
                self.rectangles[i] = self.rectangles[self.count - 1];
                self.count -= 1;
                assert(self@ =~= swap_remove(before, i as int));
            } else {
                i += 1;
            }
        }
        let ghost t = self@;
        if self.count < MAX_COUNT {
            self.rectangles[self.count] = b;
            self.count += 1;
            assert(self@ =~= t.push(b));
        } else {
            let mut best: usize = 0;
            let mut best_growth: i128 = Self::growth_of(&self.rectangles[0], &b);
            let mut k: usize = 1;
            while k < self.count
                invariant
                    1 <= k <= self.count == MAX_COUNT,
                    self@ == t,
                    best < k,
                    best == best_merge(t, b, k as int),
                    best_growth == growth(t[best as int], b),
                decreases self.count - k,
            {
                let g = Self::growth_of(&self.rectangles[k], &b);
                if g < best_growth {
                    best = k;
                    best_growth = g;
                }
                k += 1;
            }
            let merged = self.rectangles[best].union(&b);
            self.rectangles[best] = merged;
            assert(self@ =~= t.update(best as int, t[best as int].spec_union(b)));
        }
    }

    /// By how much the area of `r` grows when it is extended to hold `b`.
    fn growth_of(r: &LogicalBox, b: &LogicalBox) -> (g: i128)
        ensures
            g == growth(*r, *b),
    {
        let u = r.union(b);
        proof {
            crate::lengths::lemma_area_bounds(u);
            crate::lengths::lemma_area_bounds(*r);
        }
        u.area() - r.area()
    }

    /// The union of two regions: the boxes of `other` are added to this
    /// region one by one.
    ///
    /// Where the region becomes too complex, it is simplified and may then
    /// cover more than the union.
    #[must_use]
    pub fn union(&self, other: &DirtyRegion) -> (r: DirtyRegion)
        ensures
            r@ == spec_add_boxes(self@, other@, other@.len() as int),
            region_wf(r@),
    {
        proof {
            use_type_invariant(self);
            use_type_invariant(other);
        }
        let mut s = *self;
        let mut i: usize = 0;
        while i < other.count
            invariant
                i <= other.count <= MAX_COUNT,
                s@ == spec_add_boxes(self@, other@, i as int),
                region_wf(s@),
            decreases other.count - i,
        {
            s.add_box(other.rectangles[i]);
            i += 1;
        }
        s
    }

    /// The smallest box that holds the region.
    pub fn bounding_box(&self) -> (b: LogicalBox)
        ensures
            b == spec_bounding_box(self@),
    {
        proof {
            use_type_invariant(self);
        }
        if self.count == 0 {
            return LogicalBox::zero();
        }
        let mut r = self.rectangles[0];
        let mut i: usize = 1;
        while i < self.count
            invariant
                1 <= i <= self.count <= MAX_COUNT,
                r == hull(self@, i as int),
            decreases self.count - i,
        {
            r = r.union(&self.rectangles[i]);
            i += 1;
        }
        r
    }

    /// Bounding rectangle of the region; the empty rectangle at the origin
    /// where the region holds nothing.
    #[must_use]
    pub fn bounding_rect(&self) -> (r: LogicalRect)
        requires
            spec_bounding_box(self@).fits_rect(),
        ensures
            r == spec_bounding_box(self@).spec_to_rect(),
    {
        self.bounding_box().to_rect()
    }

    /// Intersection of the region and a box.
    #[must_use]
    pub fn intersection_box(&self, other: &LogicalBox) -> (r: DirtyRegion)
        ensures
            r@ == spec_intersection(self@, *other),
            region_wf(r@),
    {
        proof {
            use_type_invariant(self);
        }
        let mut ret = *self;
        let mut i: usize = 0;
        while i < ret.count
            invariant
                i <= ret.count <= MAX_COUNT,
                forall|j: int|
                    0 <= j < ret.count ==> !(#[trigger] ret.rectangles[j]).spec_is_empty(),
                intersect_from(ret@, *other, i as int) == intersect_from(self@, *other, 0),
            decreases ret.count - i,
        {
            let ghost before = ret@;
            match ret.rectangles[i].intersection(other) {
                Some(x) => {
                    ret.rectangles[i] = x;
                    assert(ret@ =~= before.update(i as int, x));
                    i += 1;
                },
                None => {
                    ret.count -= 1;
                    ret.rectangles[i] = ret.rectangles[ret.count];
                    assert(ret@ =~= swap_remove(before, i as int));
                },
            }
        }
        ret
    }

    /// Intersection of the region and a rectangle.
    #[must_use]
    pub fn intersection(&self, other: LogicalRect) -> (r: DirtyRegion)
        requires
            other.in_range(),
        ensures
            r@ == spec_intersection(self@, other.spec_to_box2d()),
            region_wf(r@),
    {
        self.intersection_box(&other.to_box2d())
    }

    /// Whether something drawn within `b` touches the region.
    pub fn draw_intersects(&self, b: &WideBox) -> (r: bool)
        ensures
            r == spec_draw_intersects(self@, *b),
    {
        proof {
            use_type_invariant(self);
        }
        let mut i: usize = 0;
        while i < self.count
            invariant
                i <= self.count <= MAX_COUNT,
                forall|j: int|
                    0 <= j < i ==> !WideBox::spec_from_box(#[trigger] self@[j]).spec_intersects(*b),
            decreases self.count - i,
        {
            if WideBox::from_box(&self.rectangles[i]).intersects(b) {
                assert(WideBox::spec_from_box(self@[i as int]).spec_intersects(*b));
                return true;
            }
            i += 1;
        }
        false
    }

    /// The region that holds the rectangle, if it is not empty.
    pub fn from(value: LogicalRect) -> (r: DirtyRegion)
        requires
            value.in_range(),
        ensures
            r@ == spec_add_box(Seq::<LogicalBox>::empty(), value.spec_to_box2d()),
            region_wf(r@),
    {
        let mut s = DirtyRegion::new();
        s.add_rect(value);
        s
    }

    /// The boxes of the region. They can overlap.
    pub fn iter(&self) -> (v: Vec<LogicalBox>)
        ensures
            v@ == self@,
            region_wf(v@),
    {
        proof {
            use_type_invariant(self);
        }
        let mut v: Vec<LogicalBox> = Vec::new();
        let mut i: usize = 0;
        while i < self.count
            invariant
                i <= self.count <= MAX_COUNT,
                v@ == self@.subrange(0, i as int),
            decreases self.count - i,
        {
            v.push(self.rectangles[i]);
            i += 1;
            assert(v@ =~= self@.subrange(0, i as int));
        }
        assert(v@ =~= self@);
        v
    }
}

impl Default for DirtyRegion {
    fn default() -> (r: DirtyRegion)
        ensures
            r@ == Seq::<LogicalBox>::empty(),
    {
        DirtyRegion::new()
    }
}

} // verus!
