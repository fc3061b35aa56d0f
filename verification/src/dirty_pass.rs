//! The pass over the items that finds out what a frame has to repaint.
//!
//! The pass compares where each item was when it was last rendered, as the
//! cache has it, with where it is now, and adds both places to the dirty
//! region wherever they differ.

use crate::cached_geometry::{CachedItemBoundingBoxAndTransform, PartialRenderingCache};
use crate::dirty_region::{spec_add_box, DirtyRegion};
use crate::graphics::CachedGraphicsData;
use crate::item_tree::{
    spec_visit_subtree, spec_visit_subtrees, ItemTree, ItemTreeNode, ItemTreeView, ItemVisitor,
    ItemVisitorResult,
};
use crate::items::ItemKind;
use crate::lengths::{LogicalBox, LogicalPoint, LogicalRect, LogicalSize, WideBox};
use crate::rendering_data::{spec_entry, CachedRenderingData};
use crate::transform::ItemTransform;
use vstd::prelude::*;

verus! {


/// What the visit of an item hands on to the visits of its children.
#[derive(Clone, Copy, Debug, PartialEq, Eq, Structural)]
pub struct ComputeDirtyRegionState {
    /// Leads from the coordinates of the item to those of the screen.
    pub transform_to_screen: ItemTransform,
    /// The same, as it was when the items were last rendered.
    pub old_transform_to_screen: ItemTransform,
    /// The part of the screen that the item and its children are clipped to.
    pub clipped: LogicalBox,
    /// Every item further down has to be repainted, changed or not.
    pub must_refresh_children: bool,
}

/// What the visit of one item comes to: up to two boxes for the dirty region,
/// and what to do about the children.
#[derive(Debug, PartialEq, Eq, Structural)]
pub struct VisitOutcome {
    pub first: Option<LogicalBox>,
    pub second: Option<LogicalBox>,
    pub next: ItemVisitorResult<ComputeDirtyRegionState>,
}

/// What a pass reads and does not change: the items, what leads from each to
/// its cache entry, the cache, and whether the renderer supports
/// transformations.
pub struct DirtyPass {
    pub nodes: Seq<ItemTreeNode>,
    pub rendering_data: Seq<CachedRenderingData>,
    pub slots: Seq<Option<CachedGraphicsData<CachedItemBoundingBoxAndTransform>>>,
    pub generation: u64,
    pub supports_transformations: bool,
}

/// The part of the screen that a rectangle covers: the smallest box around the
/// transformed rectangle, cut down to the clip. There is none where the
/// rectangle is empty or lies outside the clip.
pub open spec fn spec_mark(rect: LogicalRect, transform: ItemTransform, clip: LogicalBox) -> Option<
    LogicalBox,
> {
    if rect.spec_is_empty() {
        None
    } else {
        transform.spec_outer_transformed_box(rect).spec_clip_to(clip)
    }
}

/// The region after the box was added to it, if there is one.
pub open spec fn spec_add_mark(s: Seq<LogicalBox>, mark: Option<LogicalBox>) -> Seq<LogicalBox> {
    match mark {
        Some(b) => spec_add_box(s, b),
        None => s,
    }
}

/// The part of `w` that lies within `clipped`, or the empty box at the origin.
pub open spec fn spec_clip(clipped: LogicalBox, w: WideBox) -> LogicalBox {
    match w.spec_clip_to(clipped) {
        Some(b) => b,
        None => LogicalBox::spec_zero(),
    }
}

/// The state for the children of an item that transforms them by `child`, and
/// did so by `old_child` when it was last rendered. There is none where a
/// transformation to the screen has coefficients that are too large.
pub open spec fn spec_adjust(
    state: ComputeDirtyRegionState,
    child: Option<ItemTransform>,
    old_child: Option<ItemTransform>,
) -> Option<ComputeDirtyRegionState> {
    if child is Some && old_child is Some {
        let t = child->Some_0.spec_followed_by(state.transform_to_screen);
        let o = old_child->Some_0.spec_followed_by(state.old_transform_to_screen);
        if t is Some && o is Some {
            Some(
                ComputeDirtyRegionState {
                    transform_to_screen: t->Some_0,
                    old_transform_to_screen: o->Some_0,
                    ..state
                },
            )
        } else {
            None
        }
    } else {
        None
    }
}

/// Where the place of the children on the screen cannot be computed,
/// everything that the item is clipped to is repainted and the children are
/// left out.
pub open spec fn spec_give_up(state: ComputeDirtyRegionState) -> VisitOutcome {
    VisitOutcome {
        first: if state.clipped.spec_is_empty() {
            None
        } else {
            Some(state.clipped)
        },
        second: None,
        next: ItemVisitorResult::Stop,
    }
}

/// The item is one whose change concerns all its children.
pub open spec fn spec_affects_children(kind: ItemKind) -> bool {
    kind is Clip || kind is Opacity
}

/// The visit of an item whose cache entry is up to date.
///
/// Its cached rectangle is dirty at its old and at its new place where an
/// item further up has moved or asks for it. A clip item narrows the clip of
/// its children.
pub open spec fn spec_visit_clean(
    state: ComputeDirtyRegionState,
    cached: CachedItemBoundingBoxAndTransform,
) -> VisitOutcome {
    let moved = state.must_refresh_children || state.transform_to_screen
        != state.old_transform_to_screen;
    match spec_adjust(state, cached.spec_transform(), cached.spec_transform()) {
        Some(children) => VisitOutcome {
            first: if moved {
                spec_mark(cached.spec_bounding_rect(), state.old_transform_to_screen, state.clipped)
            } else {
                None
            },
            second: if moved {
                spec_mark(cached.spec_bounding_rect(), state.transform_to_screen, state.clipped)
            } else {
                None
            },
            next: ItemVisitorResult::Continue(
                ComputeDirtyRegionState {
                    clipped: match cached {
                        CachedItemBoundingBoxAndTransform::ClipItem { geometry } => spec_clip(
                            state.clipped,
                            state.transform_to_screen.spec_outer_transformed_box(
                                geometry,
                            ).spec_union(
                                state.old_transform_to_screen.spec_outer_transformed_box(geometry),
                            ),
                        ),
                        _ => state.clipped,
                    },
                    ..children
                },
            ),
        },
        None => spec_give_up(state),
    }
}

/// The visit of an item that changed since its cache entry was made.
///
/// The cached rectangle is dirty at its old place and the new rectangle at
/// its new place. Where the item is a clip or an opacity, all its children
/// are to be repainted.
pub open spec fn spec_visit_changed(
    state: ComputeDirtyRegionState,
    cached: CachedItemBoundingBoxAndTransform,
    fresh: CachedItemBoundingBoxAndTransform,
    kind: ItemKind,
) -> VisitOutcome {
    match spec_adjust(state, fresh.spec_transform(), cached.spec_transform()) {
        Some(children) => VisitOutcome {
            first: spec_mark(
                cached.spec_bounding_rect(),
                state.old_transform_to_screen,
                state.clipped,
            ),
            second: spec_mark(fresh.spec_bounding_rect(), state.transform_to_screen, state.clipped),
            next: ItemVisitorResult::Continue(
                ComputeDirtyRegionState {
                    must_refresh_children: state.must_refresh_children || spec_affects_children(
                        kind,
                    ),
                    ..children
                },
            ),
        },
        None => spec_give_up(state),
    }
}

/// The visit of an item that has no cache entry.
///
/// Its rectangle is dirty at its new place. A clip item narrows the clip of
/// its children.
pub open spec fn spec_visit_new(
    state: ComputeDirtyRegionState,
    fresh: CachedItemBoundingBoxAndTransform,
) -> VisitOutcome {
    match spec_adjust(state, fresh.spec_transform(), fresh.spec_transform()) {
        Some(children) => VisitOutcome {
            first: spec_mark(fresh.spec_bounding_rect(), state.transform_to_screen, state.clipped),
            second: None,
            next: ItemVisitorResult::Continue(
                ComputeDirtyRegionState {
                    clipped: match fresh {
                        CachedItemBoundingBoxAndTransform::ClipItem { geometry } => spec_clip(
                            state.clipped,
                            state.transform_to_screen.spec_outer_transformed_box(geometry),
                        ),
                        _ => state.clipped,
                    },
                    ..children
                },
            ),
        },
        None => spec_give_up(state),
    }
}

/// The visit of an item, given its cache entry if it has one.
pub open spec fn spec_visit_item(
    state: ComputeDirtyRegionState,
    node: ItemTreeNode,
    entry: Option<CachedGraphicsData<CachedItemBoundingBoxAndTransform>>,
    supports_transformations: bool,
) -> VisitOutcome {
    let fresh = CachedItemBoundingBoxAndTransform::spec_new(node.item, supports_transformations);
    if entry is Some && entry->Some_0.dependency_tracker is Some {
        if entry->Some_0.dependency_tracker->Some_0.spec_is_dirty(node.revision) {
            spec_visit_changed(state, entry->Some_0.data, fresh, node.item.kind)
        } else {
            spec_visit_clean(state, entry->Some_0.data)
        }
    } else {
        spec_visit_new(state, fresh)
    }
}

impl DirtyPass {
    /// The cache entry of the item at `index`, if it has one.
    pub open spec fn entry(self, index: int) -> Option<
        CachedGraphicsData<CachedItemBoundingBoxAndTransform>,
    > {
        spec_entry(self.rendering_data[index], self.slots, self.generation)
    }

    /// What the visit of the item at `index` comes to.
    pub open spec fn visit(self, index: int, state: ComputeDirtyRegionState) -> VisitOutcome {
        spec_visit_item(state, self.nodes[index], self.entry(index), self.supports_transformations)
    }

    /// The region after the item at `index` and everything below it was
    /// visited: the item first, its children after it, in their order.
    pub open spec fn item(
        self,
        region: Seq<LogicalBox>,
        index: int,
        state: ComputeDirtyRegionState,
    ) -> Seq<LogicalBox>
        decreases self.nodes.len() - index, 0int,
    {
        if 0 <= index < self.nodes.len() {
            let outcome = self.visit(index, state);
            let marked = spec_add_mark(spec_add_mark(region, outcome.first), outcome.second);
            let node = self.nodes[index];
            match outcome.next {
                ItemVisitorResult::Continue(children) => {
                    if index < node.children_index && node.children_index
                        + node.children_count <= self.nodes.len() {
                        self.children(
                            marked,
                            node.children_index as int,
                            node.children_count as int,
                            children,
                        )
                    } else {
                        marked
                    }
                },
                ItemVisitorResult::Stop => marked,
            }
        } else {
            region
        }
    }

    /// The region after the first `count` of the items from `first` on were
    /// visited, each with everything below it.
    pub open spec fn children(
        self,
        region: Seq<LogicalBox>,
        first: int,
        count: int,
        state: ComputeDirtyRegionState,
    ) -> Seq<LogicalBox>
        decreases self.nodes.len() - first, count + 1,
    {
        if count <= 0 || first < 0 || first + count > self.nodes.len() {
            region
        } else {
            self.item(self.children(region, first, count - 1, state), first + count - 1, state)
        }
    }
}

/// The visitor of the pass: it reads the cache and gathers the dirty region.
pub struct DirtyRegionVisitor<'a> {
    /// What is known of the items from the frames before.
    pub cache: &'a PartialRenderingCache,
    /// What was found so far.
    pub dirty_region: DirtyRegion,
    /// Whether the renderer supports transformations.
    pub supports_transformations: bool,
}

/// What the visitor of the pass stands for: the cache that it reads, and the
/// region that it has gathered.
pub struct DirtyRegionVisitorModel {
    pub slots: Seq<Option<CachedGraphicsData<CachedItemBoundingBoxAndTransform>>>,
    pub generation: u64,
    pub supports_transformations: bool,
    pub region: Seq<LogicalBox>,
}

impl DirtyRegionVisitorModel {
    /// What the pass over the given tree reads.
    pub open spec fn pass(self, tree: ItemTreeView) -> DirtyPass {
        DirtyPass {
            nodes: tree.nodes,
            rendering_data: tree.rendering_data,
            slots: self.slots,
            generation: self.generation,
            supports_transformations: self.supports_transformations,
        }
    }
}

impl<'a> ItemVisitor for DirtyRegionVisitor<'a> {
    type State = ComputeDirtyRegionState;

    type Model = DirtyRegionVisitorModel;

    open spec fn model(&self) -> DirtyRegionVisitorModel {
        DirtyRegionVisitorModel {
            slots: self.cache@,
            generation: self.cache.spec_generation(),
            supports_transformations: self.supports_transformations,
            region: self.dirty_region@,
        }
    }

    open spec fn after_visit(
        model: DirtyRegionVisitorModel,
        tree: ItemTreeView,
        index: usize,
        state: ComputeDirtyRegionState,
    ) -> DirtyRegionVisitorModel {
        let outcome = model.pass(tree).visit(index as int, state);
        DirtyRegionVisitorModel {
            region: spec_add_mark(spec_add_mark(model.region, outcome.first), outcome.second),
            ..model
        }
    }

    open spec fn visit_result(
        model: DirtyRegionVisitorModel,
        tree: ItemTreeView,
        index: usize,
        state: ComputeDirtyRegionState,
    ) -> ItemVisitorResult<ComputeDirtyRegionState> {
        model.pass(tree).visit(index as int, state).next
    }

    fn visit(&mut self, tree: &ItemTree, index: usize, state: &ComputeDirtyRegionState) -> (r:
        ItemVisitorResult<ComputeDirtyRegionState>) {
        let node = tree.node(index);
        let data = tree.rendering_data(index);
        let outcome = visit_item(
            state,
            &node,
            data.peek_entry(self.cache),
            self.supports_transformations,
        );
        match outcome.first {
            Some(b) => {
                self.dirty_region.add_box(b);
            },
            None => {},
        }
        match outcome.second {
            Some(b) => {
                self.dirty_region.add_box(b);
            },
            None => {},
        }
        outcome.next
    }
}

/// What the traversal makes of the visitor of the pass is what the pass is
/// stated to be: the cache stays as it is, and the region becomes the one
/// that the pass yields.
pub proof fn lemma_visitor_follows_the_pass(
    model: DirtyRegionVisitorModel,
    tree: ItemTreeView,
    index: int,
    state: ComputeDirtyRegionState,
)
    requires
        tree.nodes.len() <= usize::MAX,
    ensures
        spec_visit_subtree::<DirtyRegionVisitor>(model, tree, index, state) == (
        DirtyRegionVisitorModel {
            region: model.pass(tree).item(model.region, index, state),
            ..model
        }),
    decreases tree.nodes.len() - index, 0int,
{
    if 0 <= index < tree.nodes.len() {
        let node = tree.nodes[index];
        let seen = DirtyRegionVisitor::after_visit(model, tree, index as usize, state);
        match DirtyRegionVisitor::visit_result(model, tree, index as usize, state) {
            ItemVisitorResult::Continue(children) => {
                if index < node.children_index && node.children_index + node.children_count
                    <= tree.nodes.len() {
                    lemma_visitor_follows_the_pass_below(
                        seen,
                        tree,
                        node.children_index as int,
                        node.children_count as int,
                        children,
                    );
                }
            },
            ItemVisitorResult::Stop => {},
        }
    }
}

/// The same, for several items side by side.
pub proof fn lemma_visitor_follows_the_pass_below(
    model: DirtyRegionVisitorModel,
    tree: ItemTreeView,
    first: int,
    count: int,
    state: ComputeDirtyRegionState,
)
    requires
        tree.nodes.len() <= usize::MAX,
    ensures
        spec_visit_subtrees::<DirtyRegionVisitor>(model, tree, first, count, state) == (
        DirtyRegionVisitorModel {
            region: model.pass(tree).children(model.region, first, count, state),
            ..model
        }),
    decreases tree.nodes.len() - first, count + 1,
{
    if !(count <= 0 || first < 0 || first + count > tree.nodes.len()) {
        lemma_visitor_follows_the_pass_below(model, tree, first, count - 1, state);
        lemma_visitor_follows_the_pass(
            spec_visit_subtrees::<DirtyRegionVisitor>(model, tree, first, count - 1, state),
            tree,
            first + count - 1,
            state,
        );
    }
}

/// The state in which the root of a tree is visited: the tree is at `origin`
/// now and was there before, and is clipped to a window of the given size.
pub open spec fn spec_initial_state(origin: LogicalPoint, size: LogicalSize) -> ComputeDirtyRegionState {
    ComputeDirtyRegionState {
        transform_to_screen: ItemTransform::spec_translation(origin.x, origin.y),
        old_transform_to_screen: ItemTransform::spec_translation(origin.x, origin.y),
        clipped: LogicalBox {
            min: LogicalPoint { x: 0, y: 0 },
            max: LogicalPoint { x: size.width, y: size.height },
        },
        must_refresh_children: false,
    }
}

/// The part of the screen that a rectangle covers: the smallest box around the
/// transformed rectangle, cut down to the clip.
pub fn dirty_box(rect: &LogicalRect, transform: &ItemTransform, clip: &LogicalBox) -> (r: Option<
    LogicalBox,
>)
    ensures
        r == spec_mark(*rect, *transform, *clip),
{
    if rect.is_empty() {
        None
    } else {
        transform.outer_transformed_box(rect).clip_to(clip)
    }
}

impl ComputeDirtyRegionState {
    /// The state for the children of an item that transforms them by
    /// `children_transform`, and did so by `old_children_transform` when it
    /// was last rendered.
    pub fn adjust_transforms_for_child(
        &self,
        children_transform: &Option<ItemTransform>,
        old_children_transform: &Option<ItemTransform>,
    ) -> (r: Option<ComputeDirtyRegionState>)
        ensures
            r == spec_adjust(*self, *children_transform, *old_children_transform),
    {
        match (children_transform, old_children_transform) {
            (Some(child), Some(old_child)) => {
                match (
                    child.followed_by(&self.transform_to_screen),
                    old_child.followed_by(&self.old_transform_to_screen),
                ) {
                    (Some(t), Some(o)) => Some(
                        ComputeDirtyRegionState {
                            transform_to_screen: t,
                            old_transform_to_screen: o,
                            clipped: self.clipped,
                            must_refresh_children: self.must_refresh_children,
                        },
                    ),
                    _ => None,
                }
            },
            _ => None,
        }
    }

    /// What to do where the place of the children cannot be computed.
    fn give_up(&self) -> (r: VisitOutcome)
        ensures
            r == spec_give_up(*self),
    {
        VisitOutcome {
            first: if self.clipped.is_empty() {
                None
            } else {
                Some(self.clipped)
            },
            second: None,
            next: ItemVisitorResult::Stop,
        }
    }
}

/// The part of `w` that lies within `clipped`, or the empty box at the origin.
fn clip_children(clipped: &LogicalBox, w: &WideBox) -> (r: LogicalBox)
    ensures
        r == spec_clip(*clipped, *w),
{
    match w.clip_to(clipped) {
        Some(b) => b,
        None => LogicalBox::zero(),
    }
}

/// Visits one item: says which parts of the screen it makes dirty, and in
/// which state its children are to be visited.
pub fn visit_item(
    state: &ComputeDirtyRegionState,
    node: &ItemTreeNode,
    entry: Option<&CachedGraphicsData<CachedItemBoundingBoxAndTransform>>,
    supports_transformations: bool,
) -> (r: VisitOutcome)
    ensures
        r == spec_visit_item(
            *state,
            *node,
            match entry {
                Some(e) => Some(*e),
                None => None,
            },
            supports_transformations,
        ),
{
    let tracked_entry = match entry {
        Some(e) => match e.dependency_tracker {
            Some(tracker) => Some((e.data, tracker)),
            None => None,
        },
        None => None,
    };
    match tracked_entry {
        Some((cached_geom, tracker)) => {
            if tracker.is_dirty(node.revision) {
                let new_geom = CachedItemBoundingBoxAndTransform::for_item(
                    &node.item,
                    supports_transformations,
                );
                match state.adjust_transforms_for_child(
                    &new_geom.transform(),
                    &cached_geom.transform(),
                ) {
                    Some(children) => {
                        let affects_children = match node.item.kind {
                            ItemKind::Clip(_) => true,
                            ItemKind::Opacity(_) => true,
                            _ => false,
                        };
                        VisitOutcome {
                            first: dirty_box(
                                cached_geom.bounding_rect(),
                                &state.old_transform_to_screen,
                                &state.clipped,
                            ),
                            second: dirty_box(
                                new_geom.bounding_rect(),
                                &state.transform_to_screen,
                                &state.clipped,
                            ),
                            next: ItemVisitorResult::Continue(
                                ComputeDirtyRegionState {
                                    must_refresh_children: state.must_refresh_children
                                        || affects_children,
                                    ..children
                                },
                            ),
                        }
                    },
                    None => state.give_up(),
                }
            } else {
                let moved = state.must_refresh_children || state.transform_to_screen
                    != state.old_transform_to_screen;
                match state.adjust_transforms_for_child(
                    &cached_geom.transform(),
                    &cached_geom.transform(),
                ) {
                    Some(children) => {
                        let clipped = match cached_geom {
                            CachedItemBoundingBoxAndTransform::ClipItem { geometry } => {
                                clip_children(
                                    &state.clipped,
                                    &state.transform_to_screen.outer_transformed_box(
                                        &geometry,
                                    ).union(
                                        &state.old_transform_to_screen.outer_transformed_box(
                                            &geometry,
                                        ),
                                    ),
                                )
                            },
                            _ => state.clipped,
                        };
                        VisitOutcome {
                            first: if moved {
                                dirty_box(
                                    cached_geom.bounding_rect(),
                                    &state.old_transform_to_screen,
                                    &state.clipped,
                                )
                            } else {
                                None
                            },
                            second: if moved {
                                dirty_box(
                                    cached_geom.bounding_rect(),
                                    &state.transform_to_screen,
                                    &state.clipped,
                                )
                            } else {
                                None
                            },
                            next: ItemVisitorResult::Continue(
                                ComputeDirtyRegionState { clipped, ..children },
                            ),
                        }
                    },
                    None => state.give_up(),
                }
            }
        },
        None => {
            let geom = CachedItemBoundingBoxAndTransform::for_item(&node.item, supports_transformations);
            match state.adjust_transforms_for_child(&geom.transform(), &geom.transform()) {
                Some(children) => {
                    let clipped = match geom {
                        CachedItemBoundingBoxAndTransform::ClipItem { geometry } => clip_children(
                            &state.clipped,
                            &state.transform_to_screen.outer_transformed_box(&geometry),
                        ),
                        _ => state.clipped,
                    };
                    VisitOutcome {
                        first: dirty_box(
                            geom.bounding_rect(),
                            &state.transform_to_screen,
                            &state.clipped,
                        ),
                        second: None,
                        next: ItemVisitorResult::Continue(
                            ComputeDirtyRegionState { clipped, ..children },
                        ),
                    }
                },
                None => state.give_up(),
            }
        },
    }
}

} // verus!
