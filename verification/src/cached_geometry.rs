//! What is kept of an item's geometry from one frame to the next.

use crate::graphics::RenderingCache;
use crate::items::Item;
use crate::lengths::{LogicalRect, LogicalVector};
use crate::transform::ItemTransform;
use vstd::prelude::*;

verus! {

/// What an item renderer is able to do.
pub trait ItemRendererFeatures {
    /// The renderer supports applying 2D transformations to items.
    const SUPPORTS_TRANSFORMATIONS: bool;
}

/// After rendering an item, its geometry and the transformation that it
/// applies to its children are cached.
#[derive(Clone, Copy, Debug, PartialEq, Eq, Structural)]
pub enum CachedItemBoundingBoxAndTransform {
    /// A regular item with a translation.
    RegularItem {
        /// The item's bounding rectangle relative to its parent.
        bounding_rect: LogicalRect,
        /// The item's offset relative to its parent.
        offset: LogicalVector,
    },
    /// An item that defines an additional transformation.
    ItemWithTransform {
        /// The item's bounding rectangle relative to its parent.
        bounding_rect: LogicalRect,
        /// The transformation to apply to the children: that of the item,
        /// followed by the translation to the item's origin. There is none
        /// where its coefficients are too large.
        transform: Option<ItemTransform>,
    },
    /// A clip item.
    ClipItem {
        /// The item's geometry relative to its parent.
        geometry: LogicalRect,
    },
}

/// The cache that a window holds for partial rendering.
pub type PartialRenderingCache = RenderingCache<CachedItemBoundingBoxAndTransform>;

impl CachedItemBoundingBoxAndTransform {
    /// The rectangle that bounds the item; for a clip item, its geometry.
    pub open spec fn spec_bounding_rect(self) -> LogicalRect {
        match self {
            CachedItemBoundingBoxAndTransform::RegularItem { bounding_rect, .. } => bounding_rect,
            CachedItemBoundingBoxAndTransform::ItemWithTransform { bounding_rect, .. } => {
                bounding_rect
            },
            CachedItemBoundingBoxAndTransform::ClipItem { geometry } => geometry,
        }
    }

    /// The transformation that leads from the coordinates of the children to
    /// those of the parent.
    pub open spec fn spec_transform(self) -> Option<ItemTransform> {
        match self {
            CachedItemBoundingBoxAndTransform::RegularItem { offset, .. } => Some(
                ItemTransform::spec_translation(offset.x, offset.y),
            ),
            CachedItemBoundingBoxAndTransform::ItemWithTransform { transform, .. } => transform,
            CachedItemBoundingBoxAndTransform::ClipItem { geometry } => Some(
                ItemTransform::spec_translation(geometry.origin.x, geometry.origin.y),
            ),
        }
    }

    /// What is cached of an item. An item that clips its children is cached
    /// with its geometry. Any other is cached with its bounding rectangle, and
    /// with the transformation of its children where it has one and the
    /// renderer supports transformations, else with its offset.
    pub open spec fn spec_new(item: Item, supports_transformations: bool) -> Self {
        if item.spec_clips_children() {
            CachedItemBoundingBoxAndTransform::ClipItem { geometry: item.geometry }
        } else if supports_transformations && item.children_transform is Some {
            CachedItemBoundingBoxAndTransform::ItemWithTransform {
                bounding_rect: item.spec_bounding_rect(item.geometry),
                transform: item.children_transform->Some_0.spec_followed_by(
                    ItemTransform::spec_translation(item.geometry.origin.x, item.geometry.origin.y),
                ),
            }
        } else {
            CachedItemBoundingBoxAndTransform::RegularItem {
                bounding_rect: item.spec_bounding_rect(item.geometry),
                offset: LogicalVector { x: item.geometry.origin.x, y: item.geometry.origin.y },
            }
        }
    }

    /// The rectangle that bounds the item; for a clip item, its geometry.
    pub fn bounding_rect(&self) -> (r: &LogicalRect)
        ensures
            *r == self.spec_bounding_rect(),
    {
        match self {
            CachedItemBoundingBoxAndTransform::RegularItem { bounding_rect, .. } => bounding_rect,
            CachedItemBoundingBoxAndTransform::ItemWithTransform { bounding_rect, .. } => {
                bounding_rect
            },
            CachedItemBoundingBoxAndTransform::ClipItem { geometry } => geometry,
        }
    }

    /// The transformation that leads from the coordinates of the children to
    /// those of the parent: for a regular item the translation by its offset,
    /// for a clip item the translation to its origin.
    pub fn transform(&self) -> (r: Option<ItemTransform>)
        ensures
            r == self.spec_transform(),
    {
        match self {
            CachedItemBoundingBoxAndTransform::RegularItem { offset, .. } => Some(
                ItemTransform::translation(offset.x, offset.y),
            ),
            CachedItemBoundingBoxAndTransform::ItemWithTransform { transform, .. } => *transform,
            CachedItemBoundingBoxAndTransform::ClipItem { geometry } => Some(
                ItemTransform::translation(geometry.origin.x, geometry.origin.y),
            ),
        }
    }

    /// Computes what is cached of an item, for a renderer with the features
    /// `T`.
    pub fn new<T: ItemRendererFeatures>(item: &Item) -> (r: Self)
        ensures
            r == Self::spec_new(*item, T::SUPPORTS_TRANSFORMATIONS),
    {
        Self::for_item(item, T::SUPPORTS_TRANSFORMATIONS)
    }

    /// Computes what is cached of an item, for a renderer that supports
    /// transformations or does not.
    pub fn for_item(item: &Item, supports_transformations: bool) -> (r: Self)
        ensures
            r == Self::spec_new(*item, supports_transformations),
    {
        let geometry = item.geometry();
        if item.clips_children() {
            return CachedItemBoundingBoxAndTransform::ClipItem { geometry };
        }
        let bounding_rect = item.bounding_rect(&geometry);
        match item.children_transform() {
            Some(complex_child_transform) if supports_transformations => {
                CachedItemBoundingBoxAndTransform::ItemWithTransform {
                    bounding_rect,
                    transform: complex_child_transform.followed_by_translation(
                        geometry.origin.to_vector(),
                    ),
                }
            },
            _ => CachedItemBoundingBoxAndTransform::RegularItem {
                bounding_rect,
                offset: geometry.origin.to_vector(),
            },
        }
    }
}

} // verus!
