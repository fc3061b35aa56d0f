//! What holds of every pass over the items, proved over the functions that
//! the pass of [`crate::dirty_pass`] is stated with.

use crate::cached_geometry::CachedItemBoundingBoxAndTransform;
use crate::dirty_region::{covers, region_wf, spec_add_box, spec_bounding_box};
use crate::dirty_region_proofs::{
    lemma_add_box_covers_added, lemma_add_box_keeps_covered, lemma_add_box_wf,
    lemma_bounding_box_contains_covered, lemma_contains_box_transitive,
};
use crate::graphics::CachedGraphicsData;
use crate::item_tree::ItemTreeView;
use crate::lengths::{LogicalBox, LogicalPoint, LogicalRect, LogicalSize};
use crate::item_tree::{spec_in_subtree, spec_in_subtrees, ItemVisitorResult};
use crate::dirty_pass::{
    spec_add_mark, spec_initial_state, spec_mark, ComputeDirtyRegionState, DirtyPass,
};
use crate::partial_rendering_state::{spec_compute_all, spec_region_to_repaint, spec_window_box};
use crate::properties::PropertyTracker;
use crate::lengths::WideBox;
use crate::transform::ItemTransform;
use vstd::prelude::*;

verus! {

/// What is left of a wide box within a clip is not empty and lies within the
/// clip.
pub proof fn lemma_clip_to_within(w: WideBox, clip: LogicalBox)
    requires
        w.spec_clip_to(clip) is Some,
    ensures
        !w.spec_clip_to(clip)->Some_0.spec_is_empty(),
        clip.spec_contains_box(w.spec_clip_to(clip)->Some_0),
{
}

/// The part of the screen that a rectangle covers is not empty and lies
/// within the clip.
pub proof fn lemma_mark_within(rect: LogicalRect, transform: ItemTransform, clip: LogicalBox)
    requires
        spec_mark(rect, transform, clip) is Some,
    ensures
        !spec_mark(rect, transform, clip)->Some_0.spec_is_empty(),
        clip.spec_contains_box(spec_mark(rect, transform, clip)->Some_0),
{
    lemma_clip_to_within(transform.spec_outer_transformed_box(rect), clip);
}

/// Adding a box to a region, or none, keeps the region well-formed and keeps
/// what it covered; a box that is not empty is covered afterwards.
pub proof fn lemma_add_mark(region: Seq<LogicalBox>, mark: Option<LogicalBox>)
    requires
        region_wf(region),
    ensures
        region_wf(spec_add_mark(region, mark)),
        forall|x: LogicalBox| covers(region, x) ==> covers(spec_add_mark(region, mark), x),
        mark matches Some(b) ==> !b.spec_is_empty() ==> covers(spec_add_mark(region, mark), b),
{
    match mark {
        Some(b) => {
            lemma_add_box_wf(region, b);
            assert forall|x: LogicalBox| covers(region, x) implies covers(
                spec_add_box(region, b),
                x,
            ) by {
                lemma_add_box_keeps_covered(region, b, x);
            }
            if !b.spec_is_empty() {
                lemma_add_box_covers_added(region, b);
            }
        },
        None => {},
    }
}

impl DirtyPass {
    /// The item at `index` has a cache entry that was made at its present
    /// revision.
    pub open spec fn settled_item(self, index: int) -> bool {
        self.entry(index) matches Some(e) && e.dependency_tracker == Some(
            PropertyTracker { evaluated_at: Some(self.nodes[index].revision) },
        )
    }

    /// The item at `index` and every item below it have cache entries that
    /// were made at their present revisions.
    pub open spec fn settled_below(self, index: int) -> bool {
        forall|t: int| spec_in_subtree(self.nodes, index, t) ==> #[trigger] self.settled_item(t)
    }

    /// The first `count` items from `first` on and every item below them
    /// have cache entries that were made at their present revisions.
    pub open spec fn settled_below_children(self, first: int, count: int) -> bool {
        forall|t: int|
            spec_in_subtrees(self.nodes, first, count, t) ==> #[trigger] self.settled_item(t)
    }

    /// The pass from the item at `index` down comes to every item: nowhere is
    /// a transformation to the screen too large to be computed.
    pub open spec fn reaches_all(self, index: int, state: ComputeDirtyRegionState) -> bool
        decreases self.nodes.len() - index, 0int,
    {
        if 0 <= index < self.nodes.len() {
            let node = self.nodes[index];
            match self.visit(index, state).next {
                ItemVisitorResult::Continue(children) => {
                    if index < node.children_index && node.children_index + node.children_count
                        <= self.nodes.len() {
                        self.reaches_all_children(
                            node.children_index as int,
                            node.children_count as int,
                            children,
                        )
                    } else {
                        true
                    }
                },
                ItemVisitorResult::Stop => false,
            }
        } else {
            true
        }
    }

    /// The pass comes to every item below the first `count` items from
    /// `first` on.
    pub open spec fn reaches_all_children(
        self,
        first: int,
        count: int,
        state: ComputeDirtyRegionState,
    ) -> bool
        decreases self.nodes.len() - first, count + 1,
    {
        if count <= 0 || first < 0 || first + count > self.nodes.len() {
            true
        } else {
            self.reaches_all_children(first, count - 1, state) && self.reaches_all(
                first + count - 1,
                state,
            )
        }
    }

    /// The pass from the item at `index` down, begun in `state`, visits the
    /// item at `target` in `target_state`.
    pub open spec fn visits(
        self,
        index: int,
        state: ComputeDirtyRegionState,
        target: int,
        target_state: ComputeDirtyRegionState,
    ) -> bool
        decreases self.nodes.len() - index, 0int,
    {
        if 0 <= index < self.nodes.len() {
            let node = self.nodes[index];
            (index == target && state == target_state) || match self.visit(index, state).next {
                ItemVisitorResult::Continue(children) => {
                    index < node.children_index && node.children_index + node.children_count
                        <= self.nodes.len() && self.visits_below(
                        node.children_index as int,
                        node.children_count as int,
                        children,
                        target,
                        target_state,
                    )
                },
                ItemVisitorResult::Stop => false,
            }
        } else {
            false
        }
    }

    /// The pass over the first `count` items from `first` on visits the item
    /// at `target` in `target_state`.
    pub open spec fn visits_below(
        self,
        first: int,
        count: int,
        state: ComputeDirtyRegionState,
        target: int,
        target_state: ComputeDirtyRegionState,
    ) -> bool
        decreases self.nodes.len() - first, count + 1,
    {
        if count <= 0 || first < 0 || first + count > self.nodes.len() {
            false
        } else {
            self.visits_below(first, count - 1, state, target, target_state) || self.visits(
                first + count - 1,
                state,
                target,
                target_state,
            )
        }
    }
}

/// A pass keeps the region well-formed, and what the region covered before
/// the pass it covers after it.
pub proof fn lemma_pass_keeps_covered(
    pass: DirtyPass,
    region: Seq<LogicalBox>,
    index: int,
    state: ComputeDirtyRegionState,
)
    requires
        region_wf(region),
    ensures
        region_wf(pass.item(region, index, state)),
        forall|x: LogicalBox| covers(region, x) ==> covers(pass.item(region, index, state), x),
    decreases pass.nodes.len() - index, 0int,
{
    if 0 <= index < pass.nodes.len() {
        let outcome = pass.visit(index, state);
        let one = spec_add_mark(region, outcome.first);
        let marked = spec_add_mark(one, outcome.second);
        lemma_add_mark(region, outcome.first);
        lemma_add_mark(one, outcome.second);
        let node = pass.nodes[index];
        match outcome.next {
            ItemVisitorResult::Continue(children) => {
                if index < node.children_index && node.children_index + node.children_count
                    <= pass.nodes.len() {
                    lemma_children_keep_covered(
                        pass,
                        marked,
                        node.children_index as int,
                        node.children_count as int,
                        children,
                    );
                }
            },
            ItemVisitorResult::Stop => {},
        }
    }
}

/// A pass over several items side by side keeps the region well-formed, and
/// what the region covered before it covers after.
pub proof fn lemma_children_keep_covered(
    pass: DirtyPass,
    region: Seq<LogicalBox>,
    first: int,
    count: int,
    state: ComputeDirtyRegionState,
)
    requires
        region_wf(region),
    ensures
        region_wf(pass.children(region, first, count, state)),
        forall|x: LogicalBox|
            covers(region, x) ==> covers(pass.children(region, first, count, state), x),
    decreases pass.nodes.len() - first, count + 1,
{
    if !(count <= 0 || first < 0 || first + count > pass.nodes.len()) {
        lemma_children_keep_covered(pass, region, first, count - 1, state);
        lemma_pass_keeps_covered(
            pass,
            pass.children(region, first, count - 1, state),
            first + count - 1,
            state,
        );
    }
}

/// What the visit of an item adds to the region, the region covers when the
/// pass over the item and everything below it is done.
pub proof fn lemma_pass_covers_marks(
    pass: DirtyPass,
    region: Seq<LogicalBox>,
    index: int,
    state: ComputeDirtyRegionState,
)
    requires
        region_wf(region),
        0 <= index < pass.nodes.len(),
    ensures
        pass.visit(index, state).first matches Some(b) ==> !b.spec_is_empty() ==> covers(
            pass.item(region, index, state),
            b,
        ),
        pass.visit(index, state).second matches Some(b) ==> !b.spec_is_empty() ==> covers(
            pass.item(region, index, state),
            b,
        ),
{
    let outcome = pass.visit(index, state);
    let one = spec_add_mark(region, outcome.first);
    let marked = spec_add_mark(one, outcome.second);
    lemma_add_mark(region, outcome.first);
    lemma_add_mark(one, outcome.second);
    let node = pass.nodes[index];
    match outcome.next {
        ItemVisitorResult::Continue(children) => {
            if index < node.children_index && node.children_index + node.children_count
                <= pass.nodes.len() {
                lemma_children_keep_covered(
                    pass,
                    marked,
                    node.children_index as int,
                    node.children_count as int,
                    children,
                );
            }
        },
        ItemVisitorResult::Stop => {},
    }
}

/// What the visit of an item adds to the region, the region covers when the
/// whole pass is done, wherever in the pass the item is visited.
pub proof fn lemma_pass_covers_marks_of_visited(
    pass: DirtyPass,
    region: Seq<LogicalBox>,
    index: int,
    state: ComputeDirtyRegionState,
    target: int,
    target_state: ComputeDirtyRegionState,
)
    requires
        region_wf(region),
        pass.visits(index, state, target, target_state),
    ensures
        0 <= target < pass.nodes.len(),
        pass.visit(target, target_state).first matches Some(b) ==> !b.spec_is_empty() ==> covers(
            pass.item(region, index, state),
            b,
        ),
        pass.visit(target, target_state).second matches Some(b) ==> !b.spec_is_empty() ==> covers(
            pass.item(region, index, state),
            b,
        ),
    decreases pass.nodes.len() - index, 0int,
{
    if index == target && state == target_state {
        lemma_pass_covers_marks(pass, region, index, state);
    } else {
        let outcome = pass.visit(index, state);
        let one = spec_add_mark(region, outcome.first);
        let marked = spec_add_mark(one, outcome.second);
        lemma_add_mark(region, outcome.first);
        lemma_add_mark(one, outcome.second);
        let node = pass.nodes[index];
        let children = outcome.next->Continue_0;
        lemma_children_cover_marks_of_visited(
            pass,
            marked,
            node.children_index as int,
            node.children_count as int,
            children,
            target,
            target_state,
        );
    }
}

/// The same, for a pass over several items side by side.
pub proof fn lemma_children_cover_marks_of_visited(
    pass: DirtyPass,
    region: Seq<LogicalBox>,
    first: int,
    count: int,
    state: ComputeDirtyRegionState,
    target: int,
    target_state: ComputeDirtyRegionState,
)
    requires
        region_wf(region),
        pass.visits_below(first, count, state, target, target_state),
    ensures
        0 <= target < pass.nodes.len(),
        pass.visit(target, target_state).first matches Some(b) ==> !b.spec_is_empty() ==> covers(
            pass.children(region, first, count, state),
            b,
        ),
        pass.visit(target, target_state).second matches Some(b) ==> !b.spec_is_empty() ==> covers(
            pass.children(region, first, count, state),
            b,
        ),
    decreases pass.nodes.len() - first, count + 1,
{
    let before = pass.children(region, first, count - 1, state);
    lemma_children_keep_covered(pass, region, first, count - 1, state);
    if pass.visits_below(first, count - 1, state, target, target_state) {
        lemma_children_cover_marks_of_visited(
            pass,
            region,
            first,
            count - 1,
            state,
            target,
            target_state,
        );
        lemma_pass_keeps_covered(pass, before, first + count - 1, state);
    } else {
        lemma_pass_covers_marks_of_visited(
            pass,
            before,
            first + count - 1,
            state,
            target,
            target_state,
        );
    }
}

/// An item that changed since it was last rendered is repainted where it was
/// and where it is.
///
/// Where the pass visits an item whose cache entry was made at another
/// revision, the bounding box of the region contains afterwards the part of
/// the screen that the cached rectangle covered under the old transformation,
/// and the part that the present rectangle covers under the new one, both
/// as far as they lie within the clip of the item.
pub proof fn lemma_changed_item_is_repainted(
    pass: DirtyPass,
    region: Seq<LogicalBox>,
    root_state: ComputeDirtyRegionState,
    target: int,
    state: ComputeDirtyRegionState,
)
    requires
        region_wf(region),
        pass.visits(0, root_state, target, state),
        pass.entry(target) matches Some(e) && e.dependency_tracker matches Some(tracker)
            && tracker.spec_is_dirty(pass.nodes[target].revision),
    ensures
        spec_mark(
            pass.entry(target)->Some_0.data.spec_bounding_rect(),
            state.old_transform_to_screen,
            state.clipped,
        ) matches Some(b) ==> spec_bounding_box(pass.item(region, 0, root_state)).spec_contains_box(
            b,
        ),
        spec_mark(
            CachedItemBoundingBoxAndTransform::spec_new(
                pass.nodes[target].item,
                pass.supports_transformations,
            ).spec_bounding_rect(),
            state.transform_to_screen,
            state.clipped,
        ) matches Some(b) ==> spec_bounding_box(pass.item(region, 0, root_state)).spec_contains_box(
            b,
        ),
{
    let after = pass.item(region, 0, root_state);
    lemma_pass_covers_marks_of_visited(pass, region, 0, root_state, target, state);
    lemma_pass_keeps_covered(pass, region, 0, root_state);
    let outcome = pass.visit(target, state);
    let old_mark = spec_mark(
        pass.entry(target)->Some_0.data.spec_bounding_rect(),
        state.old_transform_to_screen,
        state.clipped,
    );
    let new_mark = spec_mark(
        CachedItemBoundingBoxAndTransform::spec_new(
            pass.nodes[target].item,
            pass.supports_transformations,
        ).spec_bounding_rect(),
        state.transform_to_screen,
        state.clipped,
    );
    if old_mark is Some {
        let b = old_mark->Some_0;
        lemma_mark_within(
            pass.entry(target)->Some_0.data.spec_bounding_rect(),
            state.old_transform_to_screen,
            state.clipped,
        );
        lemma_covered_by_visit(after, outcome.first, state.clipped, b);
        lemma_bounding_box_contains_covered(after, b);
    }
    if new_mark is Some {
        let b = new_mark->Some_0;
        lemma_mark_within(
            CachedItemBoundingBoxAndTransform::spec_new(
                pass.nodes[target].item,
                pass.supports_transformations,
            ).spec_bounding_rect(),
            state.transform_to_screen,
            state.clipped,
        );
        if outcome.next is Stop {
            lemma_covered_by_visit(after, outcome.first, state.clipped, b);
        } else {
            lemma_covered_by_visit(after, outcome.second, state.clipped, b);
        }
        lemma_bounding_box_contains_covered(after, b);
    }
}

/// A box that is what a visit added to the region, or lies within the clip
/// where the visit added the clip, is covered by a region that covers what
/// the visit added.
proof fn lemma_covered_by_visit(
    after: Seq<LogicalBox>,
    added: Option<LogicalBox>,
    clipped: LogicalBox,
    b: LogicalBox,
)
    requires
        !b.spec_is_empty(),
        clipped.spec_contains_box(b),
        added == Some(b) || added == Some(clipped),
        added matches Some(a) ==> !a.spec_is_empty() ==> covers(after, a),
    ensures
        covers(after, b),
{
    if added == Some(clipped) {
        let k = choose|k: int| 0 <= k < after.len() && (#[trigger] after[k]).spec_contains_box(
            clipped,
        );
        lemma_contains_box_transitive(after[k], clipped, b);
    }
}

/// A tree that did not change since it was rendered makes nothing dirty.
///
/// Where the item at `index` and every item below it have cache entries that
/// were made at their present revisions, no item further up has moved or
/// asks for a refresh, and the pass comes to every item, the pass leaves the
/// region as it is.
pub proof fn lemma_settled_tree_makes_nothing_dirty(
    pass: DirtyPass,
    region: Seq<LogicalBox>,
    index: int,
    state: ComputeDirtyRegionState,
)
    requires
        pass.settled_below(index),
        pass.reaches_all(index, state),
        state.transform_to_screen == state.old_transform_to_screen,
        !state.must_refresh_children,
    ensures
        pass.item(region, index, state) == region,
    decreases pass.nodes.len() - index, 0int,
{
    if 0 <= index < pass.nodes.len() {
        let node = pass.nodes[index];
        let outcome = pass.visit(index, state);
        assert(spec_in_subtree(pass.nodes, index, index));
        assert(pass.settled_item(index));
        match outcome.next {
            ItemVisitorResult::Continue(children) => {
                if index < node.children_index && node.children_index + node.children_count
                    <= pass.nodes.len() {
                    assert forall|t: int|
                        spec_in_subtrees(
                            pass.nodes,
                            node.children_index as int,
                            node.children_count as int,
                            t,
                        ) implies #[trigger] pass.settled_item(t) by {
                        assert(spec_in_subtree(pass.nodes, index, t));
                    }
                    lemma_settled_children_make_nothing_dirty(
                        pass,
                        region,
                        node.children_index as int,
                        node.children_count as int,
                        children,
                    );
                }
            },
            ItemVisitorResult::Stop => {},
        }
    }
}

/// The same, for a pass over several items side by side.
pub proof fn lemma_settled_children_make_nothing_dirty(
    pass: DirtyPass,
    region: Seq<LogicalBox>,
    first: int,
    count: int,
    state: ComputeDirtyRegionState,
)
    requires
        pass.settled_below_children(first, count),
        pass.reaches_all_children(first, count, state),
        state.transform_to_screen == state.old_transform_to_screen,
        !state.must_refresh_children,
    ensures
        pass.children(region, first, count, state) == region,
    decreases pass.nodes.len() - first, count + 1,
{
    if !(count <= 0 || first < 0 || first + count > pass.nodes.len()) {
        assert forall|t: int|
            spec_in_subtrees(pass.nodes, first, count - 1, t) implies #[trigger] pass.settled_item(
            t,
        ) by {
            assert(spec_in_subtrees(pass.nodes, first, count, t));
        }
        assert forall|t: int|
            spec_in_subtree(pass.nodes, first + count - 1, t) implies #[trigger] pass.settled_item(
            t,
        ) by {
            assert(spec_in_subtrees(pass.nodes, first, count, t));
        }
        lemma_settled_children_make_nothing_dirty(pass, region, first, count - 1, state);
        lemma_settled_tree_makes_nothing_dirty(pass, region, first + count - 1, state);
    }
}

/// A frame after which nothing changed is followed by a frame that repaints
/// nothing.
///
/// Where every item of every component, from the root down, has a cache
/// entry that was made at its present revision, as rendering the item leaves
/// it, the passes come to every item, and nothing was marked dirty or
/// forced, the region to repaint is empty.
pub proof fn lemma_unchanged_frame_repaints_nothing(
    components: Seq<(ItemTreeView, LogicalPoint)>,
    n: int,
    slots: Seq<Option<CachedGraphicsData<CachedItemBoundingBoxAndTransform>>>,
    generation: u64,
    supports_transformations: bool,
    size: LogicalSize,
)
    requires
        0 <= n <= components.len(),
        forall|i: int|
            0 <= i < n ==> {
                let pass = DirtyPass {
                    nodes: (#[trigger] components[i]).0.nodes,
                    rendering_data: components[i].0.rendering_data,
                    slots,
                    generation,
                    supports_transformations,
                };
                pass.settled_below(0) && pass.reaches_all(0, spec_initial_state(components[i].1, size))
            },
    ensures
        spec_region_to_repaint(
            spec_compute_all(
                Seq::<LogicalBox>::empty(),
                components,
                n,
                slots,
                generation,
                supports_transformations,
                size,
            ),
            false,
            size,
        ) == Seq::<LogicalBox>::empty(),
    decreases n,
{
    if n > 0 {
        lemma_unchanged_frame_repaints_nothing(
            components,
            n - 1,
            slots,
            generation,
            supports_transformations,
            size,
        );
        let pass = DirtyPass {
            nodes: components[n - 1].0.nodes,
            rendering_data: components[n - 1].0.rendering_data,
            slots,
            generation,
            supports_transformations,
        };
        lemma_settled_tree_makes_nothing_dirty(
            pass,
            Seq::<LogicalBox>::empty(),
            0,
            spec_initial_state(components[n - 1].1, size),
        );
    }
}

/// A frame for which a refresh of the screen was forced repaints the window:
/// the region to repaint is the box of the window, whatever the passes found,
/// and its bounding rectangle is the rectangle of the window.
pub proof fn lemma_forced_refresh_repaints_the_window(found: Seq<LogicalBox>, size: LogicalSize)
    requires
        size.width > 0,
        size.height > 0,
    ensures
        spec_region_to_repaint(found, true, size) == seq![spec_window_box(size)],
        spec_bounding_box(spec_region_to_repaint(found, true, size)).fits_rect(),
        spec_bounding_box(spec_region_to_repaint(found, true, size)).spec_to_rect() == (LogicalRect {
            origin: LogicalPoint { x: 0, y: 0 },
            size,
        }),
{
    let e = Seq::<LogicalBox>::empty();
    let b = spec_window_box(size);
    assert(!covers(e, b));
    assert(crate::dirty_region::remove_contained(e, b, 0) == e);
    assert(spec_add_box(e, b) =~= seq![b]);
}

} // verus!
