//! Partial rendering of a tree of items: the region of the screen that a frame
//! has to repaint, the caches that make it cheap to find, and the renderer
//! decorator that paints no more than that region.
//!
//! Coordinates are whole logical pixels. A frame goes like this:
//! [`PartialRenderingState::create_partial_renderer`] wraps the actual
//! renderer, [`PartialRenderingState::apply_dirty_region`] passes over the
//! items and finds the region to repaint, and [`PartialRenderer::render_tree`]
//! or [`render_component_items`] renders the items through the wrapper,
//! which leaves out what does not meet that region.

pub mod cached_geometry;
pub mod dirty_pass;
pub mod dirty_pass_proofs;
pub mod dirty_region;
pub mod dirty_region_proofs;
pub mod graphics;
pub mod item_cache;
pub mod item_tree;
pub mod items;
pub mod lengths;
pub mod partial_renderer;
pub mod partial_rendering_state;
pub mod properties;
pub mod renderer;
pub mod rendering_data;
pub mod transform;

pub use cached_geometry::{
    CachedItemBoundingBoxAndTransform, ItemRendererFeatures, PartialRenderingCache,
};
pub use dirty_region::DirtyRegion;
pub use graphics::{CachedGraphicsData, RenderingCache};
pub use item_cache::ItemCache;
pub use item_tree::{visit_items, ItemRc, ItemTree, ItemTreeNode, ItemVisitor, ItemVisitorResult};
pub use items::{RenderBorderRectangle, RenderImage, RenderRectangle, RenderText};
pub use partial_renderer::PartialRenderer;
pub use partial_rendering_state::{PartialRenderingState, RepaintBufferType};
pub use renderer::{
    item_children_bounding_rect, render_component_items, render_item_children, ItemRenderer,
    RenderingResult,
};
pub use rendering_data::CachedRenderingData;
