//! The renderer that stands before the actual renderer and lets through
//! only what meets the dirty region.

use crate::cached_geometry::{
    CachedItemBoundingBoxAndTransform, ItemRendererFeatures, PartialRenderingCache,
};
use crate::dirty_pass::{
    dirty_box, lemma_visitor_follows_the_pass, spec_add_mark, spec_initial_state, spec_mark,
    ComputeDirtyRegionState, DirtyPass, DirtyRegionVisitor,
};
use crate::dirty_region::{spec_draw_intersects, DirtyRegion};
use crate::graphics::CachedGraphicsData;
use crate::item_tree::{
    lemma_in_subtrees_is_item, lemma_subtree_in_subtrees, spec_in_subtree, spec_in_subtrees,
    visit_items, ItemRc, ItemTree, ItemTreeNode, ItemTreeView, ItemVisitor,
};
use crate::items::{
    BoxShadow, Clip, Color, Image, Item, ItemKind, Layer, LogicalBorderRadius, LogicalLength, Opacity, Path,
    RenderBorderRectangle, RenderImage, RenderRectangle, RenderText, Scalar, TextInput, Window,
};
use crate::lengths::{LogicalBox, LogicalPoint, LogicalRect, LogicalSize, LogicalVector, WideBox};
use crate::properties::PropertyTracker;
use crate::renderer::{renders_item, ItemRenderer, PixmapSource, RenderingResult};
use crate::rendering_data::{
    lemma_entry_set_keeps_others, spec_entry_set, spec_handles_wf, CachedRenderingData,
};
use crate::transform::ItemTransform;
use vstd::prelude::*;

verus! {

/// Put this structure in the renderer to help with partial rendering.
pub struct PartialRenderer<'a, T> {
    /// What is known of the items from the frames before.
    pub cache: &'a mut PartialRenderingCache,
    /// The region of the screen which is considered dirty and that should be
    /// repainted.
    pub dirty_region: DirtyRegion,
    /// The actual renderer which the drawing calls are forwarded to.
    pub actual_renderer: T,
    /// Whether this frame repaints the whole window, whatever is dirty.
    pub force_screen_refresh: bool,
}

impl<'a, T: ItemRendererFeatures> PartialRenderer<'a, T> {
    /// What a pass over the tree reads, as this renderer has it.
    pub open spec fn pass(&self, tree: ItemTreeView) -> DirtyPass {
        DirtyPass {
            nodes: tree.nodes,
            rendering_data: tree.rendering_data,
            slots: self.cache@,
            generation: self.cache.spec_generation(),
            supports_transformations: T::SUPPORTS_TRANSFORMATIONS,
        }
    }

    /// Create a new PartialRenderer.
    pub fn new(
        cache: &'a mut PartialRenderingCache,
        initial_dirty_region: DirtyRegion,
        actual_renderer: T,
    ) -> (r: Self)
        ensures
            *r.cache == *old(cache),
            *final(r.cache) == *final(cache),
            r.dirty_region == initial_dirty_region,
            r.actual_renderer == actual_renderer,
            !r.force_screen_refresh,
    {
        PartialRenderer {
            cache,
            dirty_region: initial_dirty_region,
            actual_renderer,
            force_screen_refresh: false,
        }
    }

    /// Visit the tree of items and compute what are the dirty regions: what
    /// the pass finds is added to the dirty region.
    pub fn compute_dirty_regions(&mut self, tree: &ItemTree, origin: LogicalPoint, size: LogicalSize)
        ensures
            final(self).dirty_region@ == old(self).pass(tree@).item(
                old(self).dirty_region@,
                0,
                spec_initial_state(origin, size),
            ),
            *final(self).cache == *old(self).cache,
            *final(final(self).cache) == *final(old(self).cache),
            final(self).actual_renderer == old(self).actual_renderer,
            final(self).force_screen_refresh == old(self).force_screen_refresh,
    {
        let initial_transform = ItemTransform::translation(origin.x, origin.y);
        let state = ComputeDirtyRegionState {
            transform_to_screen: initial_transform,
            old_transform_to_screen: initial_transform,
            clipped: LogicalBox::new(
                LogicalPoint::new(0, 0),
                LogicalPoint::new(size.width, size.height),
            ),
            must_refresh_children: false,
        };
        let mut visitor = DirtyRegionVisitor {
            cache: &*self.cache,
            dirty_region: self.dirty_region,
            supports_transformations: T::SUPPORTS_TRANSFORMATIONS,
        };
        let len = tree.len();
        proof {
            assert(tree@.nodes.len() == len);
            lemma_visitor_follows_the_pass(visitor.model(), tree@, 0, state);
        }
        visit_items(tree, &mut visitor, &state);
        self.dirty_region = visitor.dirty_region;
    }

    /// Adds the part of the screen that a rectangle covers to the dirty
    /// region: the smallest box around the transformed rectangle, cut down to
    /// the clip.
    pub fn mark_dirty_rect(&mut self, rect: &LogicalRect, transform: ItemTransform, clip: &LogicalBox)
        ensures
            final(self).dirty_region@ == spec_add_mark(
                old(self).dirty_region@,
                spec_mark(*rect, transform, *clip),
            ),
            *final(self).cache == *old(self).cache,
            *final(final(self).cache) == *final(old(self).cache),
            final(self).actual_renderer == old(self).actual_renderer,
            final(self).force_screen_refresh == old(self).force_screen_refresh,
    {
        match dirty_box(rect, &transform, clip) {
            Some(b) => {
                self.dirty_region.add_box(b);
            },
            None => {},
        }
    }

    /// Records that an item was rendered at the given revision of its
    /// properties: its cache entry counts as up to date from now on. An item
    /// without entry gets one with the given geometry, and `rendering_data` leads
    /// to it afterwards.
    pub fn do_rendering(
        cache: &mut PartialRenderingCache,
        rendering_data: &mut CachedRenderingData,
        geometry: CachedItemBoundingBoxAndTransform,
        revision: u64,
    )
        ensures
            final(cache).spec_generation() == old(cache).spec_generation(),
            final(rendering_data).spec_get_entry(final(cache)) == Some(
                spec_rendered(old(rendering_data).spec_get_entry(old(cache)), geometry, revision),
            ),
            spec_entry_set(
                *old(rendering_data),
                old(cache)@,
                old(cache).spec_generation(),
                *final(rendering_data),
                final(cache)@,
                spec_rendered(old(rendering_data).spec_get_entry(old(cache)), geometry, revision),
            ),
    {
        match rendering_data.get_entry(cache) {
            Some(entry) => {
                let mut tracker = match entry.dependency_tracker {
                    Some(tracker) => tracker,
                    None => PropertyTracker::new(),
                };
                tracker.evaluate(revision);
                entry.dependency_tracker = Some(tracker);
            },
            None => {
                let cache_entry = CachedGraphicsData::new(geometry, revision);
                rendering_data.cache_index = cache.insert(cache_entry);
                rendering_data.cache_generation = cache.generation();
            },
        }
    }

    /// Move the actual renderer out.
    pub fn into_inner(self) -> (r: T)
        ensures
            r == self.actual_renderer,
            *final(self.cache) == *old(self.cache),
    {
        self.actual_renderer
    }
}

/// The cache entry of an item after its geometry was looked at again: the
/// entry as it is where it was made at the item's present revision, else a
/// new one with the present geometry.
pub open spec fn spec_refreshed(
    entry: Option<CachedGraphicsData<CachedItemBoundingBoxAndTransform>>,
    item: Item,
    revision: u64,
    supports_transformations: bool,
) -> CachedGraphicsData<CachedItemBoundingBoxAndTransform> {
    if entry is Some && entry->Some_0.dependency_tracker == Some(
        PropertyTracker { evaluated_at: Some(revision) },
    ) {
        entry->Some_0
    } else {
        CachedGraphicsData {
            data: CachedItemBoundingBoxAndTransform::spec_new(item, supports_transformations),
            dependency_tracker: Some(PropertyTracker { evaluated_at: Some(revision) }),
        }
    }
}

/// The cache entry of an item after the item was rendered: the entry as it
/// is, marked as made at the item's present revision, or a new one with the
/// given geometry where there was none.
pub open spec fn spec_rendered(
    entry: Option<CachedGraphicsData<CachedItemBoundingBoxAndTransform>>,
    geometry: CachedItemBoundingBoxAndTransform,
    revision: u64,
) -> CachedGraphicsData<CachedItemBoundingBoxAndTransform> {
    CachedGraphicsData {
        data: match entry {
            Some(e) => e.data,
            None => geometry,
        },
        dependency_tracker: Some(PropertyTracker { evaluated_at: Some(revision) }),
    }
}

/// Whether an item needs to be drawn: the part of its bounding rectangle that
/// lies within the clip, moved by the current translation, meets the dirty
/// region.
pub open spec fn spec_should_draw(
    region: Seq<LogicalBox>,
    clip: LogicalRect,
    bounding_rect: LogicalRect,
    translation: LogicalVector,
) -> bool {
    match WideBox::spec_from_rect(clip).spec_intersection(WideBox::spec_from_rect(bounding_rect)) {
        Some(clipped_geom) => spec_draw_intersects(
            region,
            clipped_geom.spec_translate(translation.x as int, translation.y as int),
        ),
        None => false,
    }
}

/// Whether an item needs to be drawn, given the clip and the translation of
/// the renderer.
pub fn should_draw(
    region: &DirtyRegion,
    clip: &LogicalRect,
    bounding_rect: &LogicalRect,
    translation: LogicalVector,
) -> (r: bool)
    ensures
        r == spec_should_draw(region@, *clip, *bounding_rect, translation),
{
    match WideBox::from_rect(clip).intersection(&WideBox::from_rect(bounding_rect)) {
        Some(clipped_geom) => {
            let clipped_geom = clipped_geom.translate(translation.x as i128, translation.y as i128);
            region.draw_intersects(&clipped_geom)
        },
        None => false,
    }
}

/// Brings the cache entry of an item up to date before the item is rendered,
/// and returns the bounding rectangle of the item.
///
/// An entry that was made at the present revision of the item stays as it
/// is. Any other gets the present geometry. An item without entry gets one,
/// and `rendering_data` leads to it afterwards.
pub fn refresh_geometry<T: ItemRendererFeatures>(
    cache: &mut PartialRenderingCache,
    rendering_data: &mut CachedRenderingData,
    item: &Item,
    revision: u64,
) -> (r: LogicalRect)
    ensures
        final(cache).spec_generation() == old(cache).spec_generation(),
        final(rendering_data).spec_get_entry(final(cache)) == Some(
            spec_refreshed(
                old(rendering_data).spec_get_entry(old(cache)),
                *item,
                revision,
                T::SUPPORTS_TRANSFORMATIONS,
            ),
        ),
        r == spec_refreshed(
            old(rendering_data).spec_get_entry(old(cache)),
            *item,
            revision,
            T::SUPPORTS_TRANSFORMATIONS,
        ).data.spec_bounding_rect(),
        spec_entry_set(
            *old(rendering_data),
            old(cache)@,
            old(cache).spec_generation(),
            *final(rendering_data),
            final(cache)@,
            spec_refreshed(
                old(rendering_data).spec_get_entry(old(cache)),
                *item,
                revision,
                T::SUPPORTS_TRANSFORMATIONS,
            ),
        ),
{
    match rendering_data.get_entry(cache) {
        Some(entry) => {
            let mut tracker = match entry.dependency_tracker {
                Some(tracker) => tracker,
                None => PropertyTracker::new(),
            };
            if tracker.evaluate_if_dirty(revision) {
                entry.data = CachedItemBoundingBoxAndTransform::new::<T>(item);
            }
            entry.dependency_tracker = Some(tracker);
            *entry.data.bounding_rect()
        },
        None => {
            let geom = CachedItemBoundingBoxAndTransform::new::<T>(item);
            let cache_entry = CachedGraphicsData::new(geom, revision);
            rendering_data.cache_index = cache.insert(cache_entry);
            rendering_data.cache_generation = cache.generation();
            *geom.bounding_rect()
        },
    }
}

/// The children of the item are rendered whatever the actual renderer
/// returns: the item has no children, or it is neither a clip nor an opacity,
/// which alone hand on what the actual renderer says about their children.
pub open spec fn spec_children_rendered(node: ItemTreeNode) -> bool {
    node.children_count == 0 || !(node.item.kind is Clip || node.item.kind is Opacity)
}

impl<'a, T: ItemRenderer + ItemRendererFeatures> PartialRenderer<'a, T> {
    /// The rendering data of the items of the tree fit the cache of this
    /// renderer: data of the generation of the cache lead to an occupied
    /// slot, and no two items lead to the same slot.
    pub open spec fn handles_wf(&self, tree: ItemTreeView) -> bool {
        spec_handles_wf(tree.rendering_data, self.cache@, self.cache.spec_generation())
    }

    /// Renders one item through this renderer, with the function that is
    /// meant for its kind. An item that draws nothing is passed over, and so
    /// is a layer: nothing changes for them. Every other item is handed on to
    /// the actual renderer and has a cache entry afterwards that counts as up
    /// to date. A clip or an opacity returns what the actual renderer returns
    /// for it; every other item has its children rendered.
    fn render_one(
        &mut self,
        self_rc: &ItemRc,
        size: LogicalSize,
        cache: &mut CachedRenderingData,
    ) -> (r: RenderingResult)
        ensures
            final(self).dirty_region == old(self).dirty_region,
            final(self).force_screen_refresh == old(self).force_screen_refresh,
            *final(final(self).cache) == *final(old(self).cache),
            final(self).cache.spec_generation() == old(self).cache.spec_generation(),
            !(self_rc.item.kind is Clip || self_rc.item.kind is Opacity) ==> r
                == RenderingResult::ContinueRenderingChildren,
            self_rc.item.kind is Empty || self_rc.item.kind is Layer ==> {
                &&& *final(cache) == *old(cache)
                &&& *final(self).cache == *old(self).cache
                &&& final(self).actual_renderer == old(self).actual_renderer
            },
            !(self_rc.item.kind is Empty || self_rc.item.kind is Layer) ==> spec_entry_set(
                *old(cache),
                old(self).cache@,
                old(self).cache.spec_generation(),
                *final(cache),
                final(self).cache@,
                spec_rendered(
                    old(cache).spec_get_entry(old(self).cache),
                    CachedItemBoundingBoxAndTransform::spec_new(
                        self_rc.item,
                        T::SUPPORTS_TRANSFORMATIONS,
                    ),
                    self_rc.revision,
                ),
            ),
            self_rc.item.kind matches ItemKind::TextInput(text_input) ==> exists|
                actual: &mut T,
                handed_on: &mut CachedRenderingData,
            |
                *actual == old(self).actual_renderer && *final(actual)
                    == final(self).actual_renderer && *handed_on == *old(cache) && call_ensures(
                    T::draw_text_input,
                    (actual, &text_input, self_rc, size, handed_on),
                    (),
                ),
            self_rc.item.kind matches ItemKind::Path(path) ==> exists|
                actual: &mut T,
                handed_on: &mut CachedRenderingData,
            |
                *actual == old(self).actual_renderer && *final(actual)
                    == final(self).actual_renderer && *handed_on == *old(cache) && call_ensures(
                    T::draw_path,
                    (actual, &path, self_rc, size, handed_on),
                    (),
                ),
            self_rc.item.kind matches ItemKind::BoxShadow(box_shadow) ==> exists|
                actual: &mut T,
                handed_on: &mut CachedRenderingData,
            |
                *actual == old(self).actual_renderer && *final(actual)
                    == final(self).actual_renderer && *handed_on == *old(cache) && call_ensures(
                    T::draw_box_shadow,
                    (actual, &box_shadow, self_rc, size, handed_on),
                    (),
                ),
            self_rc.item.kind matches ItemKind::Clip(clip_item) ==> exists|
                actual: &mut T,
                handed_on: &mut CachedRenderingData,
            |
                *actual == old(self).actual_renderer && *final(actual)
                    == final(self).actual_renderer && *handed_on == *old(cache) && call_ensures(
                    T::visit_clip,
                    (actual, &clip_item, self_rc, size, handed_on),
                    r,
                ),
            self_rc.item.kind matches ItemKind::Opacity(opacity_item) ==> exists|
                actual: &mut T,
                handed_on: &mut CachedRenderingData,
            |
                *actual == old(self).actual_renderer && *final(actual)
                    == final(self).actual_renderer && *handed_on == *old(cache) && call_ensures(
                    T::visit_opacity,
                    (actual, &opacity_item, self_rc, size, handed_on),
                    r,
                ),
            (*final(cache) == *old(cache) && final(self).cache@ == old(self).cache@)
                || spec_entry_set(
                *old(cache),
                old(self).cache@,
                old(self).cache.spec_generation(),
                *final(cache),
                final(self).cache@,
                spec_rendered(
                    old(cache).spec_get_entry(old(self).cache),
                    CachedItemBoundingBoxAndTransform::spec_new(
                        self_rc.item,
                        T::SUPPORTS_TRANSFORMATIONS,
                    ),
                    self_rc.revision,
                ),
            ),
    {
        match self_rc.item.kind {
            ItemKind::Empty => RenderingResult::ContinueRenderingChildren,
            ItemKind::Rectangle(rect) => {
                self.draw_rectangle(&rect, self_rc, size, cache);
                RenderingResult::ContinueRenderingChildren
            },
            ItemKind::BorderRectangle(rect) => {
                self.draw_border_rectangle(&rect, self_rc, size, cache);
                RenderingResult::ContinueRenderingChildren
            },
            ItemKind::WindowBackground(rect) => {
                self.draw_window_background(&rect, self_rc, size, cache);
                RenderingResult::ContinueRenderingChildren
            },
            ItemKind::Image(image) => {
                self.draw_image(&image, self_rc, size, cache);
                RenderingResult::ContinueRenderingChildren
            },
            ItemKind::Text(text) => {
                self.draw_text(&text, self_rc, size, cache);
                RenderingResult::ContinueRenderingChildren
            },
            ItemKind::TextInput(text_input) => {
                self.draw_text_input(&text_input, self_rc, size, cache);
                RenderingResult::ContinueRenderingChildren
            },
            ItemKind::Path(path) => {
                self.draw_path(&path, self_rc, size, cache);
                RenderingResult::ContinueRenderingChildren
            },
            ItemKind::BoxShadow(box_shadow) => {
                self.draw_box_shadow(&box_shadow, self_rc, size, cache);
                RenderingResult::ContinueRenderingChildren
            },
            ItemKind::Clip(clip_item) => self.visit_clip(&clip_item, self_rc, size, cache),
            ItemKind::Opacity(opacity_item) => self.visit_opacity(
                &opacity_item,
                self_rc,
                size,
                cache,
            ),
            ItemKind::Layer(layer_item) => self.visit_layer(&layer_item, self_rc, size, cache),
        }
    }

    /// Renders `count` items from `first` on through this renderer, each with
    /// everything below it, and says whether it came to all of them.
    fn render_subtrees(&mut self, tree: &mut ItemTree, first: usize, count: usize) -> (complete:
        bool)
        requires
            first + count <= old(tree)@.nodes.len(),
            old(self).handles_wf(old(tree)@),
        ensures
            final(tree)@.nodes == old(tree)@.nodes,
            final(tree)@.id == old(tree)@.id,
            final(tree)@.wf(),
            final(self).dirty_region == old(self).dirty_region,
            final(self).force_screen_refresh == old(self).force_screen_refresh,
            *final(final(self).cache) == *final(old(self).cache),
            final(self).cache.spec_generation() == old(self).cache.spec_generation(),
            final(self).handles_wf(final(tree)@),
            forall|i: int|
                0 <= i < old(tree)@.nodes.len() && old(self).pass(old(tree)@).settled_item(i)
                    ==> #[trigger] final(self).pass(final(tree)@).settled_item(i),
            complete ==> forall|t: int|
                spec_in_subtrees(old(tree)@.nodes, first as int, count as int, t)
                    ==> #[trigger] final(self).pass(final(tree)@).settled_item(t),
            forall|i: int|
                first <= i < first + count ==> #[trigger] final(self).pass(
                    final(tree)@,
                ).settled_item(i),
            (forall|t: int|
                spec_in_subtrees(old(tree)@.nodes, first as int, count as int, t)
                    ==> spec_children_rendered(#[trigger] old(tree)@.nodes[t])) ==> complete,
        decreases old(tree)@.nodes.len() - first,
    {
        let len = tree.len();
        let mut complete = true;
        let mut k: usize = 0;
        while k < count
            invariant
                k <= count,
                first + count <= len == tree@.nodes.len(),
                tree@.nodes == old(tree)@.nodes,
                tree@.id == old(tree)@.id,
                tree@.wf(),
                self.dirty_region == old(self).dirty_region,
                self.force_screen_refresh == old(self).force_screen_refresh,
                *final(self.cache) == *final(old(self).cache),
                self.cache.spec_generation() == old(self).cache.spec_generation(),
                self.handles_wf(tree@),
                forall|i: int|
                    0 <= i < len && old(self).pass(old(tree)@).settled_item(i)
                        ==> #[trigger] self.pass(tree@).settled_item(i),
                complete ==> forall|t: int|
                    spec_in_subtrees(tree@.nodes, first as int, k as int, t)
                        ==> #[trigger] self.pass(tree@).settled_item(t),
                forall|i: int|
                    first <= i < first + k ==> #[trigger] self.pass(tree@).settled_item(i),
                (forall|t: int|
                    spec_in_subtrees(tree@.nodes, first as int, count as int, t)
                        ==> spec_children_rendered(#[trigger] tree@.nodes[t])) ==> complete,
            decreases count - k,
        {
            let index = first + k;
            let ghost begun = self.pass(tree@);
            self.save_state();
            assert(self.pass(tree@) == begun);
            let node = tree.node(index);
            let item_rc = tree.item_rc(index);
            let (do_draw, item_geometry) = self.filter_item(
                &item_rc,
                tree.rendering_data_mut(index),
            );
            let ghost filtered = self.pass(tree@);
            proof {
                lemma_entry_set_keeps_others(
                    begun.rendering_data,
                    begun.slots,
                    begun.generation,
                    index as int,
                    filtered.rendering_data[index as int],
                    filtered.slots,
                    spec_refreshed(
                        begun.entry(index as int),
                        item_rc.item,
                        item_rc.revision,
                        T::SUPPORTS_TRANSFORMATIONS,
                    ),
                );
                assert(filtered.rendering_data == begun.rendering_data.update(
                    index as int,
                    filtered.rendering_data[index as int],
                ));
                assert(filtered.settled_item(index as int));
                assert forall|i: int|
                    0 <= i < len && begun.settled_item(i) implies #[trigger] filtered.settled_item(
                    i,
                ) by {
                    if i != index {
                        assert(filtered.rendering_data[i] == begun.rendering_data[i]);
                        assert(filtered.entry(i) == begun.entry(i));
                    }
                }
            }
            self.translate(item_geometry.origin.to_vector());
            assert(self.pass(tree@) == filtered);
            let render_result = if renders_item(do_draw, &node.item) {
                self.render_one(&item_rc, item_geometry.size, tree.rendering_data_mut(index))
            } else {
                RenderingResult::ContinueRenderingChildren
            };
            let ghost rendered = self.pass(tree@);
            proof {
                let entry = spec_rendered(
                    filtered.entry(index as int),
                    CachedItemBoundingBoxAndTransform::spec_new(
                        item_rc.item,
                        T::SUPPORTS_TRANSFORMATIONS,
                    ),
                    item_rc.revision,
                );
                assert(rendered.rendering_data =~= filtered.rendering_data.update(
                    index as int,
                    rendered.rendering_data[index as int],
                ));
                if spec_entry_set(
                    filtered.rendering_data[index as int],
                    filtered.slots,
                    filtered.generation,
                    rendered.rendering_data[index as int],
                    rendered.slots,
                    entry,
                ) {
                    lemma_entry_set_keeps_others(
                        filtered.rendering_data,
                        filtered.slots,
                        filtered.generation,
                        index as int,
                        rendered.rendering_data[index as int],
                        rendered.slots,
                        entry,
                    );
                    assert forall|i: int|
                        0 <= i < len && filtered.settled_item(i)
                            implies #[trigger] rendered.settled_item(i) by {
                        if i != index {
                            assert(rendered.rendering_data[i] == filtered.rendering_data[i]);
                            assert(rendered.entry(i) == filtered.entry(i));
                        }
                    }
                } else {
                    assert(rendered.rendering_data =~= filtered.rendering_data);
                    assert(rendered == filtered);
                }
                assert(spec_handles_wf(
                    rendered.rendering_data,
                    rendered.slots,
                    rendered.generation,
                ));
            }
            let complete_here = if render_result == RenderingResult::ContinueRenderingChildren {
                self.render_subtrees(tree, node.children_index, node.children_count)
            } else {
                node.children_count == 0
            };
            let ghost below = self.pass(tree@);
            self.restore_state();
            proof {
                assert(self.pass(tree@) == below);
                if forall|t: int|
                    spec_in_subtrees(tree@.nodes, first as int, count as int, t)
                        ==> spec_children_rendered(#[trigger] tree@.nodes[t]) {
                    lemma_subtree_in_subtrees(
                        tree@.nodes,
                        first as int,
                        count as int,
                        k as int,
                        index as int,
                    );
                    assert(spec_children_rendered(tree@.nodes[index as int]));
                    assert forall|t: int|
                        spec_in_subtrees(
                            tree@.nodes,
                            node.children_index as int,
                            node.children_count as int,
                            t,
                        ) implies spec_children_rendered(#[trigger] tree@.nodes[t]) by {
                        assert(spec_in_subtree(tree@.nodes, index as int, t));
                        lemma_subtree_in_subtrees(
                            tree@.nodes,
                            first as int,
                            count as int,
                            k as int,
                            t,
                        );
                    }
                    assert(complete_here);
                }
                assert forall|i: int| first <= i < first + k + 1 implies #[trigger] below.settled_item(
                    i,
                ) by {
                    if i < first + k {
                        assert(begun.settled_item(i));
                        assert(filtered.settled_item(i));
                    }
                    assert(rendered.settled_item(i));
                }
                assert forall|i: int|
                    0 <= i < len && rendered.settled_item(i) implies #[trigger] below.settled_item(
                    i,
                ) by {}
                assert forall|i: int|
                    0 <= i < len && old(self).pass(old(tree)@).settled_item(i)
                        implies #[trigger] below.settled_item(i) by {
                    assert(begun.settled_item(i));
                    assert(filtered.settled_item(i));
                    assert(rendered.settled_item(i));
                }
                if complete && complete_here {
                    assert forall|t: int|
                        spec_in_subtrees(tree@.nodes, first as int, k + 1, t)
                            implies #[trigger] below.settled_item(t) by {
                        lemma_in_subtrees_is_item(tree@.nodes, first as int, k + 1, t);
                        if spec_in_subtrees(tree@.nodes, first as int, k as int, t) {
                            assert(begun.settled_item(t));
                            assert(filtered.settled_item(t));
                            assert(rendered.settled_item(t));
                        } else {
                            assert(spec_in_subtree(tree@.nodes, index as int, t));
                            if t == index {
                                assert(rendered.settled_item(t));
                            } else {
                                assert(spec_in_subtrees(
                                    tree@.nodes,
                                    node.children_index as int,
                                    node.children_count as int,
                                    t,
                                ));
                            }
                        }
                    }
                }
            }
            complete = complete && complete_here;
            k += 1;
        }
        complete
    }

    /// Renders the tree of items through this renderer, relative to the
    /// specified origin, and says whether it came to every item: whether the
    /// actual renderer asked nowhere to leave the children of an item out.
    ///
    /// An item that was rendered has a cache entry that was made at its
    /// present revision. As long as the rendering data of the items fit the
    /// cache, no item loses such an entry when another item is rendered; so
    /// after a rendering that came to every item, all of them have one.
    pub fn render_tree(&mut self, tree: &mut ItemTree, origin: LogicalPoint) -> (complete: bool)
        requires
            old(self).handles_wf(old(tree)@),
        ensures
            final(tree)@.nodes == old(tree)@.nodes,
            final(tree)@.id == old(tree)@.id,
            final(self).dirty_region == old(self).dirty_region,
            final(self).force_screen_refresh == old(self).force_screen_refresh,
            *final(final(self).cache) == *final(old(self).cache),
            final(self).cache.spec_generation() == old(self).cache.spec_generation(),
            final(self).handles_wf(final(tree)@),
            complete ==> final(self).pass(final(tree)@).settled_below(0),
            old(tree)@.nodes.len() > 0 ==> final(self).pass(final(tree)@).settled_item(0),
            (forall|t: int|
                0 <= t < old(tree)@.nodes.len() && spec_in_subtree(old(tree)@.nodes, 0, t)
                    ==> spec_children_rendered(#[trigger] old(tree)@.nodes[t])) ==> complete,
    {
        self.save_state();
        self.translate(origin.to_vector());
        let complete = if tree.len() > 0 {
            self.render_subtrees(tree, 0, 1)
        } else {
            true
        };
        let ghost rendered = self.pass(tree@);
        self.restore_state();
        proof {
            assert(self.pass(tree@) == rendered);
            if forall|t: int|
                0 <= t < tree@.nodes.len() && spec_in_subtree(tree@.nodes, 0, t)
                    ==> spec_children_rendered(#[trigger] tree@.nodes[t]) {
                if tree@.nodes.len() > 0 {
                    assert forall|t: int|
                        spec_in_subtrees(tree@.nodes, 0, 1, t) implies spec_children_rendered(
                        #[trigger] tree@.nodes[t],
                    ) by {
                        assert(!spec_in_subtrees(tree@.nodes, 0, 0, t));
                        assert(spec_in_subtree(tree@.nodes, 0, t));
                        lemma_in_subtrees_is_item(tree@.nodes, 0, 1, t);
                    }
                }
            }
            if complete {
                assert forall|t: int|
                    spec_in_subtree(tree@.nodes, 0, t) implies #[trigger] self.pass(
                    tree@,
                ).settled_item(t) by {
                    if tree@.nodes.len() > 0 {
                        assert(spec_in_subtrees(tree@.nodes, 0, 1, t));
                        assert(rendered.settled_item(t));
                    }
                }
            }
        }
        complete
    }
}

impl<'a, T: ItemRenderer + ItemRendererFeatures> ItemRenderer for PartialRenderer<'a, T> {
    /// Brings the cache entry of the item up to date, and says whether the
    /// item needs to be drawn: whether the part of its bounding rectangle that
    /// the clip of the actual renderer leaves, moved by the translation of
    /// the actual renderer, meets the dirty region.
    fn filter_item(&mut self, item: &ItemRc, cache: &mut CachedRenderingData) -> (r: (
        bool,
        LogicalRect,
    ))
        ensures
            r.1 == item.item.geometry,
            final(self).actual_renderer == old(self).actual_renderer,
            exists|clip: LogicalRect, translation: LogicalVector|
                call_ensures(T::get_current_clip, (&old(self).actual_renderer,), clip)
                    && call_ensures(T::translation, (&old(self).actual_renderer,), translation)
                    && r.0 == spec_should_draw(
                    old(self).dirty_region@,
                    clip,
                    spec_refreshed(
                        old(cache).spec_get_entry(old(self).cache),
                        item.item,
                        item.revision,
                        T::SUPPORTS_TRANSFORMATIONS,
                    ).data.spec_bounding_rect(),
                    translation,
                ),
            final(self).dirty_region == old(self).dirty_region,
            final(self).force_screen_refresh == old(self).force_screen_refresh,
            *final(final(self).cache) == *final(old(self).cache),
            final(self).cache.spec_generation() == old(self).cache.spec_generation(),
            spec_entry_set(
                *old(cache),
                old(self).cache@,
                old(self).cache.spec_generation(),
                *final(cache),
                final(self).cache@,
                spec_refreshed(
                    old(cache).spec_get_entry(old(self).cache),
                    item.item,
                    item.revision,
                    T::SUPPORTS_TRANSFORMATIONS,
                ),
            ),
    {
        let item_bounding_rect = refresh_geometry::<T>(
            &mut *self.cache,
            cache,
            &item.item,
            item.revision,
        );
        let clip = self.actual_renderer.get_current_clip();
        let translation = self.actual_renderer.translation();
        let draw = should_draw(&self.dirty_region, &clip, &item_bounding_rect, translation);
        (draw, item.geometry())
    }

    /// Hands the item on to the actual renderer, and records that the item
    /// was rendered. The actual renderer gets a copy of the rendering data:
    /// what it does to them does not count, since they belong to the cache of
    /// this renderer.
    fn draw_rectangle<R: RenderRectangle>(
        &mut self,
        rect: &R,
        self_rc: &ItemRc,
        size: LogicalSize,
        cache: &mut CachedRenderingData,
    )
        ensures
            final(self).dirty_region == old(self).dirty_region,
            final(self).force_screen_refresh == old(self).force_screen_refresh,
            *final(final(self).cache) == *final(old(self).cache),
            final(self).cache.spec_generation() == old(self).cache.spec_generation(),
            spec_entry_set(
                *old(cache),
                old(self).cache@,
                old(self).cache.spec_generation(),
                *final(cache),
                final(self).cache@,
                spec_rendered(
                    old(cache).spec_get_entry(old(self).cache),
                    CachedItemBoundingBoxAndTransform::spec_new(
                        self_rc.item,
                        T::SUPPORTS_TRANSFORMATIONS,
                    ),
                    self_rc.revision,
                ),
            ),
    {
        let mut handed_on = *cache;
        self.actual_renderer.draw_rectangle(rect, self_rc, size, &mut handed_on);
        let geometry = CachedItemBoundingBoxAndTransform::new::<T>(&self_rc.item);
        Self::do_rendering(&mut *self.cache, cache, geometry, self_rc.revision);
    }

    /// Hands the item on to the actual renderer, and records that the item
    /// was rendered. The actual renderer gets a copy of the rendering data:
    /// what it does to them does not count, since they belong to the cache of
    /// this renderer.
    fn draw_border_rectangle<R: RenderBorderRectangle>(
        &mut self,
        rect: &R,
        self_rc: &ItemRc,
        size: LogicalSize,
        cache: &mut CachedRenderingData,
    )
        ensures
            final(self).dirty_region == old(self).dirty_region,
            final(self).force_screen_refresh == old(self).force_screen_refresh,
            *final(final(self).cache) == *final(old(self).cache),
            final(self).cache.spec_generation() == old(self).cache.spec_generation(),
            spec_entry_set(
                *old(cache),
                old(self).cache@,
                old(self).cache.spec_generation(),
                *final(cache),
                final(self).cache@,
                spec_rendered(
                    old(cache).spec_get_entry(old(self).cache),
                    CachedItemBoundingBoxAndTransform::spec_new(
                        self_rc.item,
                        T::SUPPORTS_TRANSFORMATIONS,
                    ),
                    self_rc.revision,
                ),
            ),
    {
        let mut handed_on = *cache;
        self.actual_renderer.draw_border_rectangle(rect, self_rc, size, &mut handed_on);
        let geometry = CachedItemBoundingBoxAndTransform::new::<T>(&self_rc.item);
        Self::do_rendering(&mut *self.cache, cache, geometry, self_rc.revision);
    }

    /// Hands the item on to the actual renderer, and records that the item
    /// was rendered. The actual renderer gets a copy of the rendering data:
    /// what it does to them does not count, since they belong to the cache of
    /// this renderer.
    fn draw_window_background<R: RenderRectangle>(
        &mut self,
        rect: &R,
        self_rc: &ItemRc,
        size: LogicalSize,
        cache: &mut CachedRenderingData,
    )
        ensures
            final(self).dirty_region == old(self).dirty_region,
            final(self).force_screen_refresh == old(self).force_screen_refresh,
            *final(final(self).cache) == *final(old(self).cache),
            final(self).cache.spec_generation() == old(self).cache.spec_generation(),
            spec_entry_set(
                *old(cache),
                old(self).cache@,
                old(self).cache.spec_generation(),
                *final(cache),
                final(self).cache@,
                spec_rendered(
                    old(cache).spec_get_entry(old(self).cache),
                    CachedItemBoundingBoxAndTransform::spec_new(
                        self_rc.item,
                        T::SUPPORTS_TRANSFORMATIONS,
                    ),
                    self_rc.revision,
                ),
            ),
    {
        let mut handed_on = *cache;
        self.actual_renderer.draw_window_background(rect, self_rc, size, &mut handed_on);
        let geometry = CachedItemBoundingBoxAndTransform::new::<T>(&self_rc.item);
        Self::do_rendering(&mut *self.cache, cache, geometry, self_rc.revision);
    }

    /// Hands the item on to the actual renderer, and records that the item
    /// was rendered. The actual renderer gets a copy of the rendering data:
    /// what it does to them does not count, since they belong to the cache of
    /// this renderer.
    fn draw_image<I: RenderImage>(
        &mut self,
        image: &I,
        self_rc: &ItemRc,
        size: LogicalSize,
        cache: &mut CachedRenderingData,
    )
        ensures
            final(self).dirty_region == old(self).dirty_region,
            final(self).force_screen_refresh == old(self).force_screen_refresh,
            *final(final(self).cache) == *final(old(self).cache),
            final(self).cache.spec_generation() == old(self).cache.spec_generation(),
            spec_entry_set(
                *old(cache),
                old(self).cache@,
                old(self).cache.spec_generation(),
                *final(cache),
                final(self).cache@,
                spec_rendered(
                    old(cache).spec_get_entry(old(self).cache),
                    CachedItemBoundingBoxAndTransform::spec_new(
                        self_rc.item,
                        T::SUPPORTS_TRANSFORMATIONS,
                    ),
                    self_rc.revision,
                ),
            ),
    {
        let mut handed_on = *cache;
        self.actual_renderer.draw_image(image, self_rc, size, &mut handed_on);
        let geometry = CachedItemBoundingBoxAndTransform::new::<T>(&self_rc.item);
        Self::do_rendering(&mut *self.cache, cache, geometry, self_rc.revision);
    }

    /// Hands the item on to the actual renderer, and records that the item
    /// was rendered. The actual renderer gets a copy of the rendering data:
    /// what it does to them does not count, since they belong to the cache of
    /// this renderer.
    fn draw_text<X: RenderText>(
        &mut self,
        text: &X,
        self_rc: &ItemRc,
        size: LogicalSize,
        cache: &mut CachedRenderingData,
    )
        ensures
            final(self).dirty_region == old(self).dirty_region,
            final(self).force_screen_refresh == old(self).force_screen_refresh,
            *final(final(self).cache) == *final(old(self).cache),
            final(self).cache.spec_generation() == old(self).cache.spec_generation(),
            spec_entry_set(
                *old(cache),
                old(self).cache@,
                old(self).cache.spec_generation(),
                *final(cache),
                final(self).cache@,
                spec_rendered(
                    old(cache).spec_get_entry(old(self).cache),
                    CachedItemBoundingBoxAndTransform::spec_new(
                        self_rc.item,
                        T::SUPPORTS_TRANSFORMATIONS,
                    ),
                    self_rc.revision,
                ),
            ),
    {
        let mut handed_on = *cache;
        self.actual_renderer.draw_text(text, self_rc, size, &mut handed_on);
        let geometry = CachedItemBoundingBoxAndTransform::new::<T>(&self_rc.item);
        Self::do_rendering(&mut *self.cache, cache, geometry, self_rc.revision);
    }

    /// Hands the item on to the actual renderer, and records that the item
    /// was rendered. The actual renderer gets a copy of the rendering data:
    /// what it does to them does not count, since they belong to the cache of
    /// this renderer.
    fn draw_text_input(
        &mut self,
        text_input: &TextInput,
        self_rc: &ItemRc,
        size: LogicalSize,
        cache: &mut CachedRenderingData,
    )
        ensures
            final(self).dirty_region == old(self).dirty_region,
            final(self).force_screen_refresh == old(self).force_screen_refresh,
            *final(final(self).cache) == *final(old(self).cache),
            final(self).cache.spec_generation() == old(self).cache.spec_generation(),
            spec_entry_set(
                *old(cache),
                old(self).cache@,
                old(self).cache.spec_generation(),
                *final(cache),
                final(self).cache@,
                spec_rendered(
                    old(cache).spec_get_entry(old(self).cache),
                    CachedItemBoundingBoxAndTransform::spec_new(
                        self_rc.item,
                        T::SUPPORTS_TRANSFORMATIONS,
                    ),
                    self_rc.revision,
                ),
            ),
            exists|actual: &mut T, handed_on: &mut CachedRenderingData|
                *actual == old(self).actual_renderer && *final(actual)
                    == final(self).actual_renderer && *handed_on == *old(cache) && call_ensures(
                    T::draw_text_input,
                    (actual, text_input, self_rc, size, handed_on),
                    (),
                ),
    {
        let mut handed_on = *cache;
        self.actual_renderer.draw_text_input(text_input, self_rc, size, &mut handed_on);
        let geometry = CachedItemBoundingBoxAndTransform::new::<T>(&self_rc.item);
        Self::do_rendering(&mut *self.cache, cache, geometry, self_rc.revision);
    }

    /// Hands the item on to the actual renderer, and records that the item
    /// was rendered. The actual renderer gets a copy of the rendering data:
    /// what it does to them does not count, since they belong to the cache of
    /// this renderer.
    fn draw_path(
        &mut self,
        path: &Path,
        self_rc: &ItemRc,
        size: LogicalSize,
        cache: &mut CachedRenderingData,
    )
        ensures
            final(self).dirty_region == old(self).dirty_region,
            final(self).force_screen_refresh == old(self).force_screen_refresh,
            *final(final(self).cache) == *final(old(self).cache),
            final(self).cache.spec_generation() == old(self).cache.spec_generation(),
            spec_entry_set(
                *old(cache),
                old(self).cache@,
                old(self).cache.spec_generation(),
                *final(cache),
                final(self).cache@,
                spec_rendered(
                    old(cache).spec_get_entry(old(self).cache),
                    CachedItemBoundingBoxAndTransform::spec_new(
                        self_rc.item,
                        T::SUPPORTS_TRANSFORMATIONS,
                    ),
                    self_rc.revision,
                ),
            ),
            exists|actual: &mut T, handed_on: &mut CachedRenderingData|
                *actual == old(self).actual_renderer && *final(actual)
                    == final(self).actual_renderer && *handed_on == *old(cache) && call_ensures(
                    T::draw_path,
                    (actual, path, self_rc, size, handed_on),
                    (),
                ),
    {
        let mut handed_on = *cache;
        self.actual_renderer.draw_path(path, self_rc, size, &mut handed_on);
        let geometry = CachedItemBoundingBoxAndTransform::new::<T>(&self_rc.item);
        Self::do_rendering(&mut *self.cache, cache, geometry, self_rc.revision);
    }

    /// Hands the item on to the actual renderer, and records that the item
    /// was rendered. The actual renderer gets a copy of the rendering data:
    /// what it does to them does not count, since they belong to the cache of
    /// this renderer.
    fn draw_box_shadow(
        &mut self,
        box_shadow: &BoxShadow,
        self_rc: &ItemRc,
        size: LogicalSize,
        cache: &mut CachedRenderingData,
    )
        ensures
            final(self).dirty_region == old(self).dirty_region,
            final(self).force_screen_refresh == old(self).force_screen_refresh,
            *final(final(self).cache) == *final(old(self).cache),
            final(self).cache.spec_generation() == old(self).cache.spec_generation(),
            spec_entry_set(
                *old(cache),
                old(self).cache@,
                old(self).cache.spec_generation(),
                *final(cache),
                final(self).cache@,
                spec_rendered(
                    old(cache).spec_get_entry(old(self).cache),
                    CachedItemBoundingBoxAndTransform::spec_new(
                        self_rc.item,
                        T::SUPPORTS_TRANSFORMATIONS,
                    ),
                    self_rc.revision,
                ),
            ),
            exists|actual: &mut T, handed_on: &mut CachedRenderingData|
                *actual == old(self).actual_renderer && *final(actual)
                    == final(self).actual_renderer && *handed_on == *old(cache) && call_ensures(
                    T::draw_box_shadow,
                    (actual, box_shadow, self_rc, size, handed_on),
                    (),
                ),
    {
        let mut handed_on = *cache;
        self.actual_renderer.draw_box_shadow(box_shadow, self_rc, size, &mut handed_on);
        let geometry = CachedItemBoundingBoxAndTransform::new::<T>(&self_rc.item);
        Self::do_rendering(&mut *self.cache, cache, geometry, self_rc.revision);
    }

    /// Hands the item on to the actual renderer, records that the item was
    /// rendered, and returns what the actual renderer returned. The actual
    /// renderer gets a copy of the rendering data.
    fn visit_clip(
        &mut self,
        clip_item: &Clip,
        self_rc: &ItemRc,
        size: LogicalSize,
        cache: &mut CachedRenderingData,
    ) -> (r: RenderingResult)
        ensures
            final(self).dirty_region == old(self).dirty_region,
            final(self).force_screen_refresh == old(self).force_screen_refresh,
            *final(final(self).cache) == *final(old(self).cache),
            final(self).cache.spec_generation() == old(self).cache.spec_generation(),
            spec_entry_set(
                *old(cache),
                old(self).cache@,
                old(self).cache.spec_generation(),
                *final(cache),
                final(self).cache@,
                spec_rendered(
                    old(cache).spec_get_entry(old(self).cache),
                    CachedItemBoundingBoxAndTransform::spec_new(
                        self_rc.item,
                        T::SUPPORTS_TRANSFORMATIONS,
                    ),
                    self_rc.revision,
                ),
            ),
            exists|actual: &mut T, handed_on: &mut CachedRenderingData|
                *actual == old(self).actual_renderer && *final(actual)
                    == final(self).actual_renderer && *handed_on == *old(cache) && call_ensures(
                    T::visit_clip,
                    (actual, clip_item, self_rc, size, handed_on),
                    r,
                ),
    {
        let mut handed_on = *cache;
        let ret = self.actual_renderer.visit_clip(clip_item, self_rc, size, &mut handed_on);
        let geometry = CachedItemBoundingBoxAndTransform::new::<T>(&self_rc.item);
        Self::do_rendering(&mut *self.cache, cache, geometry, self_rc.revision);
        ret
    }

    /// Hands the item on to the actual renderer, records that the item was
    /// rendered, and returns what the actual renderer returned. The actual
    /// renderer gets a copy of the rendering data.
    fn visit_opacity(
        &mut self,
        opacity_item: &Opacity,
        self_rc: &ItemRc,
        size: LogicalSize,
        cache: &mut CachedRenderingData,
    ) -> (r: RenderingResult)
        ensures
            final(self).dirty_region == old(self).dirty_region,
            final(self).force_screen_refresh == old(self).force_screen_refresh,
            *final(final(self).cache) == *final(old(self).cache),
            final(self).cache.spec_generation() == old(self).cache.spec_generation(),
            spec_entry_set(
                *old(cache),
                old(self).cache@,
                old(self).cache.spec_generation(),
                *final(cache),
                final(self).cache@,
                spec_rendered(
                    old(cache).spec_get_entry(old(self).cache),
                    CachedItemBoundingBoxAndTransform::spec_new(
                        self_rc.item,
                        T::SUPPORTS_TRANSFORMATIONS,
                    ),
                    self_rc.revision,
                ),
            ),
            exists|actual: &mut T, handed_on: &mut CachedRenderingData|
                *actual == old(self).actual_renderer && *final(actual)
                    == final(self).actual_renderer && *handed_on == *old(cache) && call_ensures(
                    T::visit_opacity,
                    (actual, opacity_item, self_rc, size, handed_on),
                    r,
                ),
    {
        let mut handed_on = *cache;
        let ret = self.actual_renderer.visit_opacity(opacity_item, self_rc, size, &mut handed_on);
        let geometry = CachedItemBoundingBoxAndTransform::new::<T>(&self_rc.item);
        Self::do_rendering(&mut *self.cache, cache, geometry, self_rc.revision);
        ret
    }

    /// Layers are not supported: the children are rendered like any others.
    fn visit_layer(
        &mut self,
        layer_item: &Layer,
        self_rc: &ItemRc,
        size: LogicalSize,
        cache: &mut CachedRenderingData,
    ) -> (r: RenderingResult)
        ensures
            r == RenderingResult::ContinueRenderingChildren,
            *final(cache) == *old(cache),
            final(self).actual_renderer == old(self).actual_renderer,
            final(self).dirty_region == old(self).dirty_region,
            final(self).force_screen_refresh == old(self).force_screen_refresh,
            *final(self).cache == *old(self).cache,
            *final(final(self).cache) == *final(old(self).cache),
    {
        RenderingResult::ContinueRenderingChildren
    }

    /// Hands the clip on to the actual renderer and returns what it returned.
    fn combine_clip(
        &mut self,
        rect: LogicalRect,
        radius: LogicalBorderRadius,
        border_width: LogicalLength,
    ) -> (r: bool)
        ensures
            final(self).dirty_region == old(self).dirty_region,
            final(self).force_screen_refresh == old(self).force_screen_refresh,
            *final(self).cache == *old(self).cache,
            *final(final(self).cache) == *final(old(self).cache),
            exists|actual: &mut T|
                *actual == old(self).actual_renderer && *final(actual)
                    == final(self).actual_renderer && call_ensures(
                    T::combine_clip,
                    (actual, rect, radius, border_width),
                    r,
                ),
    {
        self.actual_renderer.combine_clip(rect, radius, border_width)
    }

    /// The current clip of the actual renderer.
    fn get_current_clip(&self) -> (r: LogicalRect)
        ensures
            call_ensures(T::get_current_clip, (&self.actual_renderer,), r),
    {
        self.actual_renderer.get_current_clip()
    }

    /// Hands the translation on to the actual renderer.
    fn translate(&mut self, distance: LogicalVector)
        ensures
            final(self).dirty_region == old(self).dirty_region,
            final(self).force_screen_refresh == old(self).force_screen_refresh,
            *final(self).cache == *old(self).cache,
            *final(final(self).cache) == *final(old(self).cache),
            exists|actual: &mut T|
                *actual == old(self).actual_renderer && *final(actual)
                    == final(self).actual_renderer && call_ensures(
                    T::translate,
                    (actual, distance),
                    (),
                ),
    {
        self.actual_renderer.translate(distance)
    }

    /// The translation of the actual renderer.
    fn translation(&self) -> (r: LogicalVector)
        ensures
            call_ensures(T::translation, (&self.actual_renderer,), r),
    {
        self.actual_renderer.translation()
    }

    /// Hands the rotation on to the actual renderer.
    fn rotate(&mut self, angle_in_degrees: Scalar)
        ensures
            final(self).dirty_region == old(self).dirty_region,
            final(self).force_screen_refresh == old(self).force_screen_refresh,
            *final(self).cache == *old(self).cache,
            *final(final(self).cache) == *final(old(self).cache),
            exists|actual: &mut T|
                *actual == old(self).actual_renderer && *final(actual)
                    == final(self).actual_renderer && call_ensures(
                    T::rotate,
                    (actual, angle_in_degrees),
                    (),
                ),
    {
        self.actual_renderer.rotate(angle_in_degrees)
    }

    /// Hands the opacity on to the actual renderer.
    fn apply_opacity(&mut self, opacity: Scalar)
        ensures
            final(self).dirty_region == old(self).dirty_region,
            final(self).force_screen_refresh == old(self).force_screen_refresh,
            *final(self).cache == *old(self).cache,
            *final(final(self).cache) == *final(old(self).cache),
            exists|actual: &mut T|
                *actual == old(self).actual_renderer && *final(actual)
                    == final(self).actual_renderer && call_ensures(
                    T::apply_opacity,
                    (actual, opacity),
                    (),
                ),
    {
        self.actual_renderer.apply_opacity(opacity)
    }

    /// Has the actual renderer save its state.
    fn save_state(&mut self)
        ensures
            final(self).dirty_region == old(self).dirty_region,
            final(self).force_screen_refresh == old(self).force_screen_refresh,
            *final(self).cache == *old(self).cache,
            *final(final(self).cache) == *final(old(self).cache),
            exists|actual: &mut T|
                *actual == old(self).actual_renderer && *final(actual)
                    == final(self).actual_renderer && call_ensures(T::save_state, (actual,), ()),
    {
        self.actual_renderer.save_state()
    }

    /// Has the actual renderer restore its state.
    fn restore_state(&mut self)
        ensures
            final(self).dirty_region == old(self).dirty_region,
            final(self).force_screen_refresh == old(self).force_screen_refresh,
            *final(self).cache == *old(self).cache,
            *final(final(self).cache) == *final(old(self).cache),
            exists|actual: &mut T|
                *actual == old(self).actual_renderer && *final(actual)
                    == final(self).actual_renderer && call_ensures(T::restore_state, (actual,), ()),
    {
        self.actual_renderer.restore_state()
    }

    /// The scale factor of the actual renderer.
    fn scale_factor(&self) -> (r: Scalar)
        ensures
            call_ensures(T::scale_factor, (&self.actual_renderer,), r),
    {
        self.actual_renderer.scale_factor()
    }

    /// Hands the pixmap on to the actual renderer.
    fn draw_cached_pixmap<P: PixmapSource>(&mut self, item_cache: &ItemRc, update: &P)
        ensures
            final(self).dirty_region == old(self).dirty_region,
            final(self).force_screen_refresh == old(self).force_screen_refresh,
            *final(self).cache == *old(self).cache,
            *final(final(self).cache) == *final(old(self).cache),
    {
        self.actual_renderer.draw_cached_pixmap(item_cache, update)
    }

    /// Hands the string on to the actual renderer.
    fn draw_string(&mut self, string: &str, color: Color)
        ensures
            final(self).dirty_region == old(self).dirty_region,
            final(self).force_screen_refresh == old(self).force_screen_refresh,
            *final(self).cache == *old(self).cache,
            *final(final(self).cache) == *final(old(self).cache),
            exists|actual: &mut T|
                *actual == old(self).actual_renderer && *final(actual)
                    == final(self).actual_renderer && call_ensures(
                    T::draw_string,
                    (actual, string, color),
                    (),
                ),
    {
        self.actual_renderer.draw_string(string, color)
    }

    /// Hands the image on to the actual renderer.
    fn draw_image_direct(&mut self, image: Image)
        ensures
            final(self).dirty_region == old(self).dirty_region,
            final(self).force_screen_refresh == old(self).force_screen_refresh,
            *final(self).cache == *old(self).cache,
            *final(final(self).cache) == *final(old(self).cache),
            exists|actual: &mut T|
                *actual == old(self).actual_renderer && *final(actual)
                    == final(self).actual_renderer && call_ensures(
                    T::draw_image_direct,
                    (actual, image),
                    (),
                ),
    {
        self.actual_renderer.draw_image_direct(image)
    }

    /// The window of the actual renderer.
    fn window(&self) -> (r: &Window)
        ensures
            call_ensures(T::window, (&self.actual_renderer,), r),
    {
        self.actual_renderer.window()
    }
}

} // verus!
