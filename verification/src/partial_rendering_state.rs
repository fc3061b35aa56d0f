//! What partial rendering keeps from one frame to the next, and the sequence
//! of a frame.

use crate::cached_geometry::{
    CachedItemBoundingBoxAndTransform, ItemRendererFeatures, PartialRenderingCache,
};
use crate::dirty_region::{
    spec_add_box, spec_add_boxes, spec_intersection, DirtyRegion,
};
use crate::graphics::CachedGraphicsData;
use crate::item_tree::{ItemTree, ItemTreeView};
use crate::lengths::{LogicalBox, LogicalPoint, LogicalRect, LogicalSize};
use crate::dirty_pass::{spec_initial_state, DirtyPass};
use crate::partial_renderer::PartialRenderer;
use crate::rendering_data::{
    lemma_release_keeps_handles_wf, spec_entry, spec_handles_wf, CachedRenderingData,
};
use vstd::prelude::*;

verus! {

/// This enum describes which parts of the buffer passed to the renderer may
/// be re-used to speed up painting.
#[derive(Clone, Copy, Debug, PartialEq, Eq, Structural)]
pub enum RepaintBufferType {
    /// The full window is always redrawn. No attempt at partial rendering
    /// will be made.
    NewBuffer,
    /// Only redraw the parts that have changed since the previous call to
    /// render.
    ///
    /// This variant assumes that the same buffer is passed on every call to
    /// render and that it still contains the previously rendered frame.
    ReusedBuffer,
    /// Redraw the part that have changed since the last two frames were
    /// drawn.
    ///
    /// This is used when using double buffering and swapping of the buffers.
    SwappedBuffers,
}

impl Default for RepaintBufferType {
    fn default() -> (r: RepaintBufferType)
        ensures
            r == RepaintBufferType::NewBuffer,
    {
        RepaintBufferType::NewBuffer
    }
}

/// The box of a window of the given size: from the origin to the size.
pub open spec fn spec_window_box(size: LogicalSize) -> LogicalBox {
    LogicalBox {
        min: LogicalPoint { x: 0, y: 0 },
        max: LogicalPoint { x: size.width, y: size.height },
    }
}

/// The region after the first `n` of the components were passed over, each a
/// tree at its origin, with the cache as it is.
pub open spec fn spec_compute_all(
    region: Seq<LogicalBox>,
    components: Seq<(ItemTreeView, LogicalPoint)>,
    n: int,
    slots: Seq<Option<CachedGraphicsData<CachedItemBoundingBoxAndTransform>>>,
    generation: u64,
    supports_transformations: bool,
    size: LogicalSize,
) -> Seq<LogicalBox>
    decreases n,
{
    if n <= 0 {
        region
    } else {
        (DirtyPass {
            nodes: components[n - 1].0.nodes,
            rendering_data: components[n - 1].0.rendering_data,
            slots,
            generation,
            supports_transformations,
        }).item(
            spec_compute_all(
                region,
                components,
                n - 1,
                slots,
                generation,
                supports_transformations,
                size,
            ),
            0,
            spec_initial_state(components[n - 1].1, size),
        )
    }
}

/// What a frame repaints: the whole window where that was asked for, else
/// what the passes over the components found.
pub open spec fn spec_region_to_repaint(
    found: Seq<LogicalBox>,
    force_screen_refresh: bool,
    size: LogicalSize,
) -> Seq<LogicalBox> {
    if force_screen_refresh {
        spec_add_box(Seq::<LogicalBox>::empty(), spec_window_box(size))
    } else {
        found
    }
}

/// What the renderer filters the drawing by: what the frame repaints,
/// together with what the buffer lacks from earlier frames, within the window.
pub open spec fn spec_effective_region(
    to_repaint: Seq<LogicalBox>,
    existing: Option<Seq<LogicalBox>>,
    size: LogicalSize,
) -> Seq<LogicalBox> {
    spec_intersection(
        match existing {
            Some(dirty) => spec_add_boxes(to_repaint, dirty, dirty.len() as int),
            None => to_repaint,
        },
        spec_window_box(size),
    )
}

/// The rendering data of the items in `items` after the entries of the first
/// `n` were released, and the slots of the cache.
pub open spec fn spec_release_all(
    rendering_data: Seq<CachedRenderingData>,
    slots: Seq<Option<CachedGraphicsData<CachedItemBoundingBoxAndTransform>>>,
    generation: u64,
    items: Seq<usize>,
    n: int,
) -> (Seq<CachedRenderingData>, Seq<Option<CachedGraphicsData<CachedItemBoundingBoxAndTransform>>>)
    decreases n,
{
    if n <= 0 {
        (rendering_data, slots)
    } else {
        let (data, slots) = spec_release_all(rendering_data, slots, generation, items, n - 1);
        let index = items[n - 1] as int;
        if index < data.len() && data[index].cache_generation == generation {
            (
                data.update(index, CachedRenderingData { cache_generation: 0, ..data[index] }),
                if spec_entry(data[index], slots, generation) is Some {
                    slots.update(data[index].cache_index as int, None)
                } else {
                    slots
                },
            )
        } else {
            (data, slots)
        }
    }
}

/// This struct holds the state of the partial renderer between different
/// frames, in particular the cache of the bounding rectangle of each item.
/// This permits a more fine-grained computation of the region that needs to
/// be repainted.
pub struct PartialRenderingState {
    /// What is known of the items from the frames before.
    pub partial_cache: PartialRenderingCache,
    /// This is the area which is going to be redrawn in the next frame, no
    /// matter if the items are dirty or not.
    pub force_dirty: DirtyRegion,
    /// Force a redraw in the next frame, no matter what's dirty. Use only as
    /// a last resort.
    pub force_screen_refresh: bool,
}

impl Default for PartialRenderingState {
    fn default() -> (r: PartialRenderingState)
        ensures
            r.partial_cache@.len() == 0,
            r.partial_cache.spec_generation() == 1,
            r.force_dirty@.len() == 0,
            !r.force_screen_refresh,
    {
        PartialRenderingState {
            partial_cache: PartialRenderingCache::new(),
            force_dirty: DirtyRegion::new(),
            force_screen_refresh: false,
        }
    }
}

impl PartialRenderingState {
    /// Creates a partial renderer that works on the cache of this state. It
    /// starts with the region that was marked dirty since the last frame, and
    /// knows whether the whole window is to be repainted; the state forgets
    /// both. Call [`Self::apply_dirty_region`] after this function to compute
    /// the region to repaint.
    pub fn create_partial_renderer<'a, T: crate::renderer::ItemRenderer + ItemRendererFeatures>(
        &'a mut self,
        renderer: T,
    ) -> (r: PartialRenderer<'a, T>)
        ensures
            *r.cache == old(self).partial_cache,
            *final(r.cache) == final(self).partial_cache,
            r.dirty_region == old(self).force_dirty,
            r.force_screen_refresh == old(self).force_screen_refresh,
            r.actual_renderer == renderer,
            final(self).force_dirty@.len() == 0,
            !final(self).force_screen_refresh,
    {
        let force_dirty = self.force_dirty;
        self.force_dirty = DirtyRegion::new();
        let force_screen_refresh = self.force_screen_refresh;
        self.force_screen_refresh = false;
        let mut partial_renderer = PartialRenderer::new(
            &mut self.partial_cache,
            force_dirty,
            renderer,
        );
        partial_renderer.force_screen_refresh = force_screen_refresh;
        partial_renderer
    }

    /// Compute the region to repaint from the components to be drawn and what
    /// changed in them, and returns it. The renderer is left with the region
    /// to filter the drawing by: the same region, together with what
    /// `dirty_region_of_existing_buffer` says the buffer lacks beyond this
    /// frame, if anything, cut down to the window.
    pub fn apply_dirty_region<T: crate::renderer::ItemRenderer + ItemRendererFeatures>(
        partial_renderer: &mut PartialRenderer<'_, T>,
        components: &[(&ItemTree, LogicalPoint)],
        logical_window_size: LogicalSize,
        dirty_region_of_existing_buffer: Option<DirtyRegion>,
    ) -> (region_to_repaint: DirtyRegion)
        ensures
            region_to_repaint@ == spec_region_to_repaint(
                spec_compute_all(
                    old(partial_renderer).dirty_region@,
                    components@.map_values(|c: (&ItemTree, LogicalPoint)| (c.0@, c.1)),
                    components@.len() as int,
                    old(partial_renderer).cache@,
                    old(partial_renderer).cache.spec_generation(),
                    T::SUPPORTS_TRANSFORMATIONS,
                    logical_window_size,
                ),
                old(partial_renderer).force_screen_refresh,
                logical_window_size,
            ),
            final(partial_renderer).dirty_region@ == spec_effective_region(
                region_to_repaint@,
                match dirty_region_of_existing_buffer {
                    Some(dirty) => Some(dirty@),
                    None => None,
                },
                logical_window_size,
            ),
            !final(partial_renderer).force_screen_refresh,
            *final(partial_renderer).cache == *old(partial_renderer).cache,
            *final(final(partial_renderer).cache) == *final(old(partial_renderer).cache),
            final(partial_renderer).actual_renderer == old(partial_renderer).actual_renderer,
    {
        let ghost views = components@.map_values(|c: (&ItemTree, LogicalPoint)| (c.0@, c.1));
        let mut i: usize = 0;
        while i < components.len()
            invariant
                i <= components@.len(),
                views == components@.map_values(|c: (&ItemTree, LogicalPoint)| (c.0@, c.1)),
                partial_renderer.dirty_region@ == spec_compute_all(
                    old(partial_renderer).dirty_region@,
                    views,
                    i as int,
                    old(partial_renderer).cache@,
                    old(partial_renderer).cache.spec_generation(),
                    T::SUPPORTS_TRANSFORMATIONS,
                    logical_window_size,
                ),
                *partial_renderer.cache == *old(partial_renderer).cache,
                *final(partial_renderer.cache) == *final(old(partial_renderer).cache),
                partial_renderer.actual_renderer == old(partial_renderer).actual_renderer,
                partial_renderer.force_screen_refresh == old(partial_renderer).force_screen_refresh,
            decreases components@.len() - i,
        {
            let component = components[i].0;
            let origin = components[i].1;
            assert(views[i as int] == (component@, origin));
            partial_renderer.compute_dirty_regions(component, origin, logical_window_size);
            i += 1;
        }
        let screen_region = LogicalRect::from_size(logical_window_size);
        if partial_renderer.force_screen_refresh {
            partial_renderer.force_screen_refresh = false;
            partial_renderer.dirty_region = DirtyRegion::from(screen_region);
        }
        let region_to_repaint = partial_renderer.dirty_region;
        partial_renderer.dirty_region = match dirty_region_of_existing_buffer {
            Some(dirty_region) => partial_renderer.dirty_region.union(&dirty_region),
            None => partial_renderer.dirty_region,
        }.intersection(screen_region);
        region_to_repaint
    }

    /// Add the specified region to the list of regions to include in the next
    /// rendering.
    pub fn mark_dirty_region(&mut self, region: DirtyRegion)
        ensures
            final(self).force_dirty@ == spec_add_boxes(
                old(self).force_dirty@,
                region@,
                region@.len() as int,
            ),
            final(self).partial_cache == old(self).partial_cache,
            final(self).force_screen_refresh == old(self).force_screen_refresh,
    {
        self.force_dirty = self.force_dirty.union(&region);
    }

    /// Call this when items of the tree are destroyed: the cached geometries
    /// of the items at the given positions are released. Where the items were
    /// on the screen cannot be told from what the cache holds, so the next
    /// frame repaints everything. A position beyond the tree is passed over.
    pub fn free_graphics_resources(&mut self, tree: &mut ItemTree, items: &[usize])
        ensures
            final(self).force_screen_refresh,
            final(self).force_dirty == old(self).force_dirty,
            final(self).partial_cache.spec_generation() == old(self).partial_cache.spec_generation(),
            final(tree)@.nodes == old(tree)@.nodes,
            final(tree)@.id == old(tree)@.id,
            (final(tree)@.rendering_data, final(self).partial_cache@) == spec_release_all(
                old(tree)@.rendering_data,
                old(self).partial_cache@,
                old(self).partial_cache.spec_generation(),
                items@,
                items@.len() as int,
            ),
            spec_handles_wf(
                old(tree)@.rendering_data,
                old(self).partial_cache@,
                old(self).partial_cache.spec_generation(),
            ) ==> spec_handles_wf(
                final(tree)@.rendering_data,
                final(self).partial_cache@,
                final(self).partial_cache.spec_generation(),
            ),
    {
        let len = tree.len();
        let generation = self.partial_cache.generation();
        let mut i: usize = 0;
        while i < items.len()
            invariant
                i <= items@.len(),
                len == tree@.nodes.len(),
                tree@.wf(),
                self.force_dirty == old(self).force_dirty,
                self.partial_cache.spec_generation() == old(self).partial_cache.spec_generation(),
                tree@.nodes == old(tree)@.nodes,
                tree@.id == old(tree)@.id,
                (tree@.rendering_data, self.partial_cache@) == spec_release_all(
                    old(tree)@.rendering_data,
                    old(self).partial_cache@,
                    old(self).partial_cache.spec_generation(),
                    items@,
                    i as int,
                ),
                generation == self.partial_cache.spec_generation(),
                generation != 0,
                tree@.rendering_data.len() == len,
                spec_handles_wf(
                    old(tree)@.rendering_data,
                    old(self).partial_cache@,
                    old(self).partial_cache.spec_generation(),
                ) ==> spec_handles_wf(tree@.rendering_data, self.partial_cache@, generation),
            decreases items@.len() - i,
        {
            let index = items[i];
            if index < len {
                let ghost data = tree@.rendering_data;
                let ghost slots = self.partial_cache@;
                let _ = tree.rendering_data_mut(index).release(&mut self.partial_cache);
                proof {
                    if spec_handles_wf(data, slots, generation) {
                        if data[index as int].cache_generation == generation {
                            lemma_release_keeps_handles_wf(data, slots, generation, index as int);
                            assert(tree@.rendering_data =~= data.update(
                                index as int,
                                CachedRenderingData { cache_generation: 0, ..data[index as int] },
                            ));
                        } else {
                            assert(tree@.rendering_data =~= data);
                        }
                    }
                }
            }
            i += 1;
        }
        self.force_screen_refresh = true;
    }

    /// Clears the partial rendering cache. Use this for example when the
    /// entire underlying window surface changes.
    pub fn clear_cache(&mut self)
        ensures
            final(self).partial_cache@.len() == 0,
            final(self).partial_cache.spec_generation() == crate::graphics::spec_next_generation(
                old(self).partial_cache.spec_generation(),
            ),
            final(self).force_dirty == old(self).force_dirty,
            final(self).force_screen_refresh == old(self).force_screen_refresh,
    {
        self.partial_cache.clear();
    }

    /// Force re-rendering of the entire window region the next time a partial
    /// renderer is created.
    pub fn force_screen_refresh(&mut self)
        ensures
            final(self).force_screen_refresh,
            final(self).force_dirty == old(self).force_dirty,
            final(self).partial_cache == old(self).partial_cache,
    {
        self.force_screen_refresh = true;
    }
}

} // verus!
