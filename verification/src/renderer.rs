//! What a renderer of items offers, and the traversal that renders a tree of
//! items with it.

use crate::item_tree::{
    lemma_subtree_in_subtrees, spec_in_subtree, spec_in_subtrees, spec_item_rc, spec_item_rc_of,
    ItemRc, ItemTree, ItemTreeNode,
};
use crate::items::{
    BoxShadow, Clip, Color, Image, Item, ItemKind, Layer, LogicalBorderRadius, LogicalLength,
    Opacity, Path, RenderBorderRectangle, RenderImage, RenderRectangle, RenderText, Scalar,
    TextInput, Window,
};
use crate::lengths::{LogicalPoint, LogicalRect, LogicalSize, LogicalVector};
use crate::rendering_data::CachedRenderingData;
use crate::lengths::WideBox;
use vstd::prelude::*;

verus! {

/// What the rendering of an item says about its children.
#[derive(Clone, Copy, Debug, PartialEq, Eq, Structural)]
pub enum RenderingResult {
    ContinueRenderingChildren,
    ContinueRenderingWithoutChildren,
}

impl Default for RenderingResult {
    fn default() -> (r: RenderingResult)
        ensures
            r == RenderingResult::ContinueRenderingChildren,
    {
        RenderingResult::ContinueRenderingChildren
    }
}

/// What a renderer has counted since it was created.
#[derive(Clone, Copy, Debug, PartialEq, Eq, Structural)]
pub struct RenderingMetrics {
    /// The number of layers that were created, where the renderer counts them.
    pub layers_created: Option<usize>,
}

impl Default for RenderingMetrics {
    fn default() -> (r: RenderingMetrics)
        ensures
            r == (RenderingMetrics { layers_created: None }),
    {
        RenderingMetrics { layers_created: None }
    }
}

/// A picture as rows of pixels: red, green, blue and alpha of each, the
/// colours multiplied by the alpha.
pub struct Pixmap {
    pub width: u32,
    pub height: u32,
    pub data: Vec<u8>,
}

/// Something that can paint itself into a pixmap.
pub trait PixmapSource {
    fn pixmap(&self) -> Pixmap;
}

/// Whether something drawn within `bounding_rect` shows within `clip`.
pub open spec fn spec_within_clip(clip: LogicalRect, bounding_rect: LogicalRect) -> bool {
    WideBox::spec_from_rect(clip).spec_intersects(WideBox::spec_from_rect(bounding_rect))
}

/// Whether something drawn within `bounding_rect` shows within `clip`.
pub fn within_clip(clip: &LogicalRect, bounding_rect: &LogicalRect) -> (r: bool)
    ensures
        r == spec_within_clip(*clip, *bounding_rect),
{
    WideBox::from_rect(clip).intersects(&WideBox::from_rect(bounding_rect))
}

/// What the rendering of a clip item says about its children, given
/// whether anything is left of the clip region.
pub open spec fn spec_clipped_result(clip_region_valid: bool) -> RenderingResult {
    if clip_region_valid {
        RenderingResult::ContinueRenderingChildren
    } else {
        RenderingResult::ContinueRenderingWithoutChildren
    }
}

/// What the rendering of a clip item says about its children, given
/// whether anything is left of the clip region: where the clip item is
/// outside the visible range, there is nothing to do, not even for the
/// children.
pub fn clipped_result(clip_region_valid: bool) -> (r: RenderingResult)
    ensures
        r == spec_clipped_result(clip_region_valid),
{
    if clip_region_valid {
        RenderingResult::ContinueRenderingChildren
    } else {
        RenderingResult::ContinueRenderingWithoutChildren
    }
}

/// Trait used to render each item.
///
/// The item is rendered relative to its position: what a renderer draws for
/// a rectangle at `(x, y)` lands at the current translation plus `(x, y)`.
pub trait ItemRenderer: Sized {
    fn draw_rectangle<R: RenderRectangle>(
        &mut self,
        rect: &R,
        self_rc: &ItemRc,
        size: LogicalSize,
        cache: &mut CachedRenderingData,
    );

    fn draw_border_rectangle<R: RenderBorderRectangle>(
        &mut self,
        rect: &R,
        self_rc: &ItemRc,
        size: LogicalSize,
        cache: &mut CachedRenderingData,
    );

    fn draw_window_background<R: RenderRectangle>(
        &mut self,
        rect: &R,
        self_rc: &ItemRc,
        size: LogicalSize,
        cache: &mut CachedRenderingData,
    );

    fn draw_image<I: RenderImage>(
        &mut self,
        image: &I,
        self_rc: &ItemRc,
        size: LogicalSize,
        cache: &mut CachedRenderingData,
    );

    fn draw_text<X: RenderText>(
        &mut self,
        text: &X,
        self_rc: &ItemRc,
        size: LogicalSize,
        cache: &mut CachedRenderingData,
    );

    fn draw_text_input(
        &mut self,
        text_input: &TextInput,
        self_rc: &ItemRc,
        size: LogicalSize,
        cache: &mut CachedRenderingData,
    );

    fn draw_path(
        &mut self,
        path: &Path,
        self_rc: &ItemRc,
        size: LogicalSize,
        cache: &mut CachedRenderingData,
    );

    fn draw_box_shadow(
        &mut self,
        box_shadow: &BoxShadow,
        self_rc: &ItemRc,
        size: LogicalSize,
        cache: &mut CachedRenderingData,
    );

    /// Applies the opacity of the item to what follows, and goes on with the
    /// children.
    fn visit_opacity(
        &mut self,
        opacity_item: &Opacity,
        self_rc: &ItemRc,
        size: LogicalSize,
        cache: &mut CachedRenderingData,
    ) -> (r: RenderingResult)
        default_ensures
            r == RenderingResult::ContinueRenderingChildren,
            *final(cache) == *old(cache),
            exists|renderer: &mut Self|
                *renderer == *old(self) && *final(renderer) == *final(self) && call_ensures(
                    Self::apply_opacity,
                    (renderer, opacity_item.opacity),
                    (),
                ),
    {
        self.apply_opacity(opacity_item.opacity);
        RenderingResult::ContinueRenderingChildren
    }

    /// Layers are not supported unless the renderer says otherwise.
    fn visit_layer(
        &mut self,
        layer_item: &Layer,
        self_rc: &ItemRc,
        size: LogicalSize,
        cache: &mut CachedRenderingData,
    ) -> (r: RenderingResult)
        default_ensures
            r == RenderingResult::ContinueRenderingChildren,
            *final(self) == *old(self),
            *final(cache) == *old(cache),
    {
        RenderingResult::ContinueRenderingChildren
    }

    /// Applies the bounds of the clip item, if it clips: the clip is combined
    /// with the rectangle of the item's size at the origin. Where nothing is
    /// left of the clip region, the children are not rendered.
    fn visit_clip(
        &mut self,
        clip_item: &Clip,
        item_rc: &ItemRc,
        size: LogicalSize,
        cache: &mut CachedRenderingData,
    ) -> (r: RenderingResult)
        default_ensures
            *final(cache) == *old(cache),
            !clip_item.clip ==> r == RenderingResult::ContinueRenderingChildren && *final(self)
                == *old(self),
            clip_item.clip ==> exists|renderer: &mut Self, clip_region_valid: bool|
                *renderer == *old(self) && *final(renderer) == *final(self) && call_ensures(
                    Self::combine_clip,
                    (
                        renderer,
                        LogicalRect {
                            origin: LogicalPoint { x: 0, y: 0 },
                            size: item_rc.item.geometry.size,
                        },
                        clip_item.border_radius,
                        clip_item.border_width,
                    ),
                    clip_region_valid,
                ) && r == spec_clipped_result(clip_region_valid),
    {
        if clip_item.clip {
            let geometry = item_rc.geometry();
            let clip_region_valid = self.combine_clip(
                LogicalRect::new(LogicalPoint::new(0, 0), geometry.size),
                clip_item.border_radius,
                clip_item.border_width,
            );
            return clipped_result(clip_region_valid);
        }
        RenderingResult::ContinueRenderingChildren
    }

    /// Clips what follows until the state is restored. Radius and border
    /// width make the clip that of a rectangle with a border. Returns whether
    /// the new clip region covers an area.
    fn combine_clip(
        &mut self,
        rect: LogicalRect,
        radius: LogicalBorderRadius,
        border_width: LogicalLength,
    ) -> (r: bool);

    /// The bounding box of the current clip, in the current coordinates.
    fn get_current_clip(&self) -> (r: LogicalRect);

    fn translate(&mut self, distance: LogicalVector);

    fn translation(&self) -> (r: LogicalVector);

    fn rotate(&mut self, angle_in_degrees: Scalar);

    /// Applies the opacity, between 0 and 1, to all that follows until the
    /// state is restored.
    fn apply_opacity(&mut self, opacity: Scalar);

    fn save_state(&mut self);

    fn restore_state(&mut self);

    /// Returns the scale factor.
    fn scale_factor(&self) -> (r: Scalar);

    /// Draws a pixmap at the current position. The pixmap is taken from the
    /// renderer's cache if it is there and valid; else the source is asked
    /// for it.
    fn draw_cached_pixmap<P: PixmapSource>(&mut self, item_cache: &ItemRc, update: &P);

    /// Draws the string with the given colour at the current position, in
    /// the default font.
    fn draw_string(&mut self, string: &str, color: Color);

    fn draw_image_direct(&mut self, image: Image);

    /// This is called before an item is rendered. Returns whether the item
    /// needs to be drawn, which it does not where it is clipped away, and the
    /// geometry of the item.
    fn filter_item(&mut self, item: &ItemRc, cache: &mut CachedRenderingData) -> (r: (
        bool,
        LogicalRect,
    ))
        default_ensures
            r.1 == item.item.geometry,
            *final(cache) == *old(cache),
            *final(self) == *old(self),
            exists|clip: LogicalRect|
                call_ensures(Self::get_current_clip, (&*old(self),), clip) && r.0
                    == spec_within_clip(clip, item.item.spec_bounding_rect(item.item.geometry)),
    {
        let item_geometry = item.geometry();
        let bounding_rect = item.item.bounding_rect(&item_geometry);
        (within_clip(&self.get_current_clip(), &bounding_rect), item_geometry)
    }

    fn window(&self) -> (r: &Window);

    /// What the renderer has counted since it was created.
    fn metrics(&self) -> (r: RenderingMetrics)
        default_ensures
            r == (RenderingMetrics { layers_created: None }),
    {
        RenderingMetrics::default()
    }
}

/// An item is rendered where it needs to be drawn, and also where it clips
/// its children or is a box shadow: the clip counts for the children, and a
/// shadow reaches beyond the geometry of its item.
pub open spec fn spec_renders_item(do_draw: bool, item: Item) -> bool {
    do_draw || item.spec_clips_children() || item.kind is BoxShadow
}

/// Whether an item is rendered, given whether it needs to be drawn.
pub fn renders_item(do_draw: bool, item: &Item) -> (r: bool)
    ensures
        r == spec_renders_item(do_draw, *item),
{
    do_draw || item.clips_children() || match item.kind {
        ItemKind::BoxShadow(_) => true,
        _ => false,
    }
}

/// Rendering the item can return `result`: for a clip, an opacity and a layer
/// there is a call of the function that visits them which returns it; for a
/// text input, a path and a box shadow there is a call of the function that
/// draws them, and the children are to be rendered, as they are for every
/// other item.
pub open spec fn spec_render_outcome<R: ItemRenderer>(
    item_rc: ItemRc,
    size: LogicalSize,
    result: RenderingResult,
) -> bool {
    match item_rc.item.kind {
        ItemKind::TextInput(text_input) => result == RenderingResult::ContinueRenderingChildren
            && exists|called: &mut R, handed_on: &mut CachedRenderingData|
            call_ensures(R::draw_text_input, (called, &text_input, &item_rc, size, handed_on), ()),
        ItemKind::Path(path) => result == RenderingResult::ContinueRenderingChildren && exists|
            called: &mut R,
            handed_on: &mut CachedRenderingData,
        |
            call_ensures(R::draw_path, (called, &path, &item_rc, size, handed_on), ()),
        ItemKind::BoxShadow(box_shadow) => result == RenderingResult::ContinueRenderingChildren
            && exists|called: &mut R, handed_on: &mut CachedRenderingData|
            call_ensures(R::draw_box_shadow, (called, &box_shadow, &item_rc, size, handed_on), ()),
        ItemKind::Clip(clip_item) => exists|called: &mut R, handed_on: &mut CachedRenderingData|
            call_ensures(R::visit_clip, (called, &clip_item, &item_rc, size, handed_on), result),
        ItemKind::Opacity(opacity_item) => exists|
            called: &mut R,
            handed_on: &mut CachedRenderingData,
        |
            call_ensures(
                R::visit_opacity,
                (called, &opacity_item, &item_rc, size, handed_on),
                result,
            ),
        ItemKind::Layer(layer_item) => exists|called: &mut R, handed_on: &mut CachedRenderingData|
            call_ensures(R::visit_layer, (called, &layer_item, &item_rc, size, handed_on), result),
        _ => result == RenderingResult::ContinueRenderingChildren,
    }
}

/// What comes of an item after it was filtered: where the filter or its kind
/// ask for it, the item is rendered, which can return `result`; otherwise it
/// is not, and its children are to be rendered.
pub open spec fn spec_rendered_or_not<R: ItemRenderer>(
    to_draw: bool,
    item_rc: ItemRc,
    size: LogicalSize,
    result: RenderingResult,
) -> bool {
    if spec_renders_item(to_draw, item_rc.item) {
        spec_render_outcome::<R>(item_rc, size, result)
    } else {
        result == RenderingResult::ContinueRenderingChildren
    }
}

/// The item at `index` was rendered, which came to `result`: the state of a
/// renderer was saved, the item was filtered, and a renderer was moved to the
/// origin of the geometry that the filter returned; the item was rendered,
/// with the size of that geometry, where the filter or the kind of the item
/// asks for it; and the state of a renderer was restored.
pub open spec fn spec_item_visited<R: ItemRenderer>(
    nodes: Seq<ItemTreeNode>,
    id: u64,
    index: int,
    result: RenderingResult,
) -> bool {
    exists|
        saved: &mut R,
        filtered: &mut R,
        handed_on: &mut CachedRenderingData,
        moved: &mut R,
        to_draw: bool,
        geometry: LogicalRect,
        restored: &mut R,
    |
        {
            &&& spec_item_begun(
                saved,
                filtered,
                handed_on,
                moved,
                spec_item_rc_of(nodes, id, index),
                to_draw,
                geometry,
            )
            &&& spec_rendered_or_not::<R>(
                to_draw,
                spec_item_rc_of(nodes, id, index),
                geometry.size,
                result,
            )
            &&& call_ensures(R::restore_state, (restored,), ())
        }
}

/// The item at `index` was rendered with everything below it: the item was
/// rendered, and unless that came to leaving the children out, its children
/// were rendered, each with everything below it.
pub open spec fn spec_subtree_rendered<R: ItemRenderer>(
    nodes: Seq<ItemTreeNode>,
    id: u64,
    index: int,
) -> bool
    decreases nodes.len() - index, 0int,
{
    0 <= index < nodes.len() && (spec_item_visited::<R>(
        nodes,
        id,
        index,
        RenderingResult::ContinueRenderingWithoutChildren,
    ) || (spec_item_visited::<R>(nodes, id, index, RenderingResult::ContinueRenderingChildren) && (
    index < nodes[index].children_index && nodes[index].children_index
        + nodes[index].children_count <= nodes.len() ==> spec_subtrees_rendered::<R>(
        nodes,
        id,
        nodes[index].children_index as int,
        nodes[index].children_count as int,
    ))))
}

/// The first `count` items from `first` on were rendered, each with
/// everything below it.
pub open spec fn spec_subtrees_rendered<R: ItemRenderer>(
    nodes: Seq<ItemTreeNode>,
    id: u64,
    first: int,
    count: int,
) -> bool
    decreases nodes.len() - first, count + 1,
{
    count <= 0 || first < 0 || first + count > nodes.len() || (spec_subtrees_rendered::<R>(
        nodes,
        id,
        first,
        count - 1,
    ) && spec_subtree_rendered::<R>(nodes, id, first + count - 1))
}

/// Renders one item with the function of the renderer that is meant for its
/// kind. An item that draws nothing is passed over: the renderer and the
/// rendering data stay as they are. A clip, an opacity or a layer returns
/// what the renderer returns for it; every other item has its children
/// rendered.
pub fn render_item<R: ItemRenderer>(
    renderer: &mut R,
    self_rc: &ItemRc,
    size: LogicalSize,
    cache: &mut CachedRenderingData,
) -> (r: RenderingResult)
    ensures
        !(self_rc.item.kind is Clip || self_rc.item.kind is Opacity || self_rc.item.kind is Layer)
            ==> r == RenderingResult::ContinueRenderingChildren,
        spec_render_outcome::<R>(*self_rc, size, r),
        self_rc.item.kind is Empty ==> *final(renderer) == *old(renderer) && *final(cache) == *old(
            cache,
        ),
        self_rc.item.kind matches ItemKind::TextInput(text_input) ==> exists|
            called: &mut R,
            handed_on: &mut CachedRenderingData,
        |
            *called == *old(renderer) && *final(called) == *final(renderer) && *handed_on == *old(
                cache,
            ) && *final(handed_on) == *final(cache) && call_ensures(
                R::draw_text_input,
                (called, &text_input, self_rc, size, handed_on),
                (),
            ),
        self_rc.item.kind matches ItemKind::Path(path) ==> exists|
            called: &mut R,
            handed_on: &mut CachedRenderingData,
        |
            *called == *old(renderer) && *final(called) == *final(renderer) && *handed_on == *old(
                cache,
            ) && *final(handed_on) == *final(cache) && call_ensures(
                R::draw_path,
                (called, &path, self_rc, size, handed_on),
                (),
            ),
        self_rc.item.kind matches ItemKind::BoxShadow(box_shadow) ==> exists|
            called: &mut R,
            handed_on: &mut CachedRenderingData,
        |
            *called == *old(renderer) && *final(called) == *final(renderer) && *handed_on == *old(
                cache,
            ) && *final(handed_on) == *final(cache) && call_ensures(
                R::draw_box_shadow,
                (called, &box_shadow, self_rc, size, handed_on),
                (),
            ),
        self_rc.item.kind matches ItemKind::Clip(clip_item) ==> exists|
            called: &mut R,
            handed_on: &mut CachedRenderingData,
        |
            *called == *old(renderer) && *final(called) == *final(renderer) && *handed_on == *old(
                cache,
            ) && *final(handed_on) == *final(cache) && call_ensures(
                R::visit_clip,
                (called, &clip_item, self_rc, size, handed_on),
                r,
            ),
        self_rc.item.kind matches ItemKind::Opacity(opacity_item) ==> exists|
            called: &mut R,
            handed_on: &mut CachedRenderingData,
        |
            *called == *old(renderer) && *final(called) == *final(renderer) && *handed_on == *old(
                cache,
            ) && *final(handed_on) == *final(cache) && call_ensures(
                R::visit_opacity,
                (called, &opacity_item, self_rc, size, handed_on),
                r,
            ),
        self_rc.item.kind matches ItemKind::Layer(layer_item) ==> exists|
            called: &mut R,
            handed_on: &mut CachedRenderingData,
        |
            *called == *old(renderer) && *final(called) == *final(renderer) && *handed_on == *old(
                cache,
            ) && *final(handed_on) == *final(cache) && call_ensures(
                R::visit_layer,
                (called, &layer_item, self_rc, size, handed_on),
                r,
            ),
{
    match self_rc.item.kind {
        ItemKind::Empty => RenderingResult::ContinueRenderingChildren,
        ItemKind::Rectangle(rect) => {
            renderer.draw_rectangle(&rect, self_rc, size, cache);
            RenderingResult::ContinueRenderingChildren
        },
        ItemKind::BorderRectangle(rect) => {
            renderer.draw_border_rectangle(&rect, self_rc, size, cache);
            RenderingResult::ContinueRenderingChildren
        },
        ItemKind::WindowBackground(rect) => {
            renderer.draw_window_background(&rect, self_rc, size, cache);
            RenderingResult::ContinueRenderingChildren
        },
        ItemKind::Image(image) => {
            renderer.draw_image(&image, self_rc, size, cache);
            RenderingResult::ContinueRenderingChildren
        },
        ItemKind::Text(text) => {
            renderer.draw_text(&text, self_rc, size, cache);
            RenderingResult::ContinueRenderingChildren
        },
        ItemKind::TextInput(text_input) => {
            renderer.draw_text_input(&text_input, self_rc, size, cache);
            RenderingResult::ContinueRenderingChildren
        },
        ItemKind::Path(path) => {
            renderer.draw_path(&path, self_rc, size, cache);
            RenderingResult::ContinueRenderingChildren
        },
        ItemKind::BoxShadow(box_shadow) => {
            renderer.draw_box_shadow(&box_shadow, self_rc, size, cache);
            RenderingResult::ContinueRenderingChildren
        },
        ItemKind::Clip(clip_item) => renderer.visit_clip(&clip_item, self_rc, size, cache),
        ItemKind::Opacity(opacity_item) => renderer.visit_opacity(
            &opacity_item,
            self_rc,
            size,
            cache,
        ),
        ItemKind::Layer(layer_item) => renderer.visit_layer(&layer_item, self_rc, size, cache),
    }
}

/// The three calls with which the rendering of an item begins: the state of
/// the renderer is saved, the item is filtered, and the renderer is moved to
/// the origin of the geometry that the filter returned.
#[verifier::inline]
pub open spec fn spec_item_begun<R: ItemRenderer>(
    saved: &mut R,
    filtered: &mut R,
    handed_on: &mut CachedRenderingData,
    moved: &mut R,
    item_rc: ItemRc,
    to_draw: bool,
    geometry: LogicalRect,
) -> bool {
    &&& call_ensures(R::save_state, (saved,), ())
    &&& call_ensures(R::filter_item, (filtered, &item_rc, handed_on), (to_draw, geometry))
    &&& call_ensures(
        R::translate,
        (moved, LogicalVector { x: geometry.origin.x, y: geometry.origin.y }),
        (),
    )
}

/// Renders `count` items from `first` on, each with everything below it.
///
/// For each item the state of the renderer is saved, the item is filtered,
/// the renderer is moved to the item, the item is rendered unless the filter
/// and its kind say otherwise, its children are rendered where the rendering
/// of the item asks for it, and the state of the renderer is restored. Items
/// outside the subtrees keep their rendering data.
fn render_items<R: ItemRenderer>(renderer: &mut R, tree: &mut ItemTree, first: usize, count: usize)
    requires
        first + count <= old(tree)@.nodes.len(),
    ensures
        final(tree)@.nodes == old(tree)@.nodes,
        final(tree)@.id == old(tree)@.id,
        final(tree)@.wf(),
        forall|i: int|
            0 <= i < old(tree)@.nodes.len() && !spec_in_subtrees(
                old(tree)@.nodes,
                first as int,
                count as int,
                i,
            ) ==> #[trigger] final(tree)@.rendering_data[i] == old(tree)@.rendering_data[i],
        count == 0 ==> *final(renderer) == *old(renderer) && final(tree)@ == old(tree)@,
        spec_subtrees_rendered::<R>(
            old(tree)@.nodes,
            old(tree)@.id,
            first as int,
            count as int,
        ),
        count > 0 ==> exists|
            saved: &mut R,
            filtered: &mut R,
            handed_on: &mut CachedRenderingData,
            moved: &mut R,
            to_draw: bool,
            geometry: LogicalRect,
        |
            {
                &&& *saved == *old(renderer)
                &&& *filtered == *final(saved)
                &&& *handed_on == old(tree)@.rendering_data[first as int]
                &&& *moved == *final(filtered)
                &&& spec_item_begun(
                    saved,
                    filtered,
                    handed_on,
                    moved,
                    spec_item_rc(old(tree)@, first as int),
                    to_draw,
                    geometry,
                )
            },
        count > 0 ==> exists|restored: &mut R|
            *final(restored) == *final(renderer) && call_ensures(
                R::restore_state,
                (restored,),
                (),
            ),
    decreases old(tree)@.nodes.len() - first,
{
    let len = tree.len();
    let mut k: usize = 0;
    while k < count
        invariant
            k <= count,
            first + count <= len == tree@.nodes.len(),
            tree@.nodes == old(tree)@.nodes,
            tree@.id == old(tree)@.id,
            tree@.wf(),
            forall|i: int|
                0 <= i < len && !spec_in_subtrees(tree@.nodes, first as int, count as int, i)
                    ==> #[trigger] tree@.rendering_data[i] == old(tree)@.rendering_data[i],
            k == 0 ==> *renderer == *old(renderer) && tree@ == old(tree)@,
            spec_subtrees_rendered::<R>(tree@.nodes, tree@.id, first as int, k as int),
            k > 0 ==> exists|
                saved: &mut R,
                filtered: &mut R,
                handed_on: &mut CachedRenderingData,
                moved: &mut R,
                to_draw: bool,
                geometry: LogicalRect,
            |
                {
                    &&& *saved == *old(renderer)
                    &&& *filtered == *final(saved)
                    &&& *handed_on == old(tree)@.rendering_data[first as int]
                    &&& *moved == *final(filtered)
                    &&& spec_item_begun(
                        saved,
                        filtered,
                        handed_on,
                        moved,
                        spec_item_rc(old(tree)@, first as int),
                        to_draw,
                        geometry,
                    )
                },
            k > 0 ==> exists|restored: &mut R|
                *final(restored) == *renderer && call_ensures(R::restore_state, (restored,), ()),
        decreases count - k,
    {
        let index = first + k;
        let ghost begun = tree@;
        renderer.save_state();
        let node = tree.node(index);
        let item_rc = tree.item_rc(index);
        let (do_draw, item_geometry) = renderer.filter_item(
            &item_rc,
            tree.rendering_data_mut(index),
        );
        renderer.translate(item_geometry.origin.to_vector());
        let ghost moved_tree = tree@;
        let render_result = if renders_item(do_draw, &node.item) {
            render_item(renderer, &item_rc, item_geometry.size, tree.rendering_data_mut(index))
        } else {
            RenderingResult::ContinueRenderingChildren
        };
        let ghost rendered_tree = tree@;
        if render_result == RenderingResult::ContinueRenderingChildren {
            render_items(renderer, tree, node.children_index, node.children_count);
        }
        renderer.restore_state();
        proof {
            assert(spec_rendered_or_not::<R>(
                do_draw,
                item_rc,
                item_geometry.size,
                render_result,
            ));
            assert(item_rc == spec_item_rc_of(tree@.nodes, tree@.id, index as int));
            assert(spec_item_visited::<R>(tree@.nodes, tree@.id, index as int, render_result));
            assert(spec_subtree_rendered::<R>(tree@.nodes, tree@.id, index as int));
            assert(spec_in_subtree(tree@.nodes, index as int, index as int));
            lemma_subtree_in_subtrees(
                tree@.nodes,
                first as int,
                count as int,
                k as int,
                index as int,
            );
            assert forall|i: int|
                0 <= i < len && !spec_in_subtrees(
                    tree@.nodes,
                    first as int,
                    count as int,
                    i,
                ) implies #[trigger] tree@.rendering_data[i] == old(tree)@.rendering_data[i] by {
                assert(i != index);
                assert(moved_tree.rendering_data[i] == begun.rendering_data[i]);
                assert(rendered_tree.rendering_data[i] == moved_tree.rendering_data[i]);
                if spec_in_subtrees(
                    tree@.nodes,
                    node.children_index as int,
                    node.children_count as int,
                    i,
                ) {
                    assert(spec_in_subtree(tree@.nodes, index as int, i));
                    lemma_subtree_in_subtrees(
                        tree@.nodes,
                        first as int,
                        count as int,
                        k as int,
                        i,
                    );
                }
            }
        }
        k += 1;
    }
}

/// Where the children of the item at `index` stand: the position of the first
/// and their number. What is above the root, at -1, has the root for its one
/// child.
pub open spec fn spec_children_of(nodes: Seq<ItemTreeNode>, index: int) -> (int, int) {
    if index < 0 {
        (
            0,
            if nodes.len() > 0 {
                1
            } else {
                0
            },
        )
    } else {
        (nodes[index].children_index as int, nodes[index].children_count as int)
    }
}

/// Renders the children of the item with the specified index into the
/// renderer, each with everything below it, in the order in which they stand.
/// The index -1 stands for what is above the root: its one child is the root.
///
/// Where there are no children, nothing happens. Otherwise the rendering
/// begins with the first child: the state of the renderer is saved, the child
/// is filtered, and the renderer is moved to it. It ends when the state of
/// the renderer is restored after the last child. Items that are not below
/// the children keep their rendering data.
pub fn render_item_children<R: ItemRenderer>(renderer: &mut R, tree: &mut ItemTree, index: isize)
    requires
        -1 <= index < old(tree)@.nodes.len(),
    ensures
        final(tree)@.nodes == old(tree)@.nodes,
        final(tree)@.id == old(tree)@.id,
        final(tree)@.wf(),
        forall|i: int|
            0 <= i < old(tree)@.nodes.len() && !spec_in_subtrees(
                old(tree)@.nodes,
                spec_children_of(old(tree)@.nodes, index as int).0,
                spec_children_of(old(tree)@.nodes, index as int).1,
                i,
            ) ==> #[trigger] final(tree)@.rendering_data[i] == old(tree)@.rendering_data[i],
        spec_children_of(old(tree)@.nodes, index as int).1 == 0 ==> *final(renderer) == *old(
            renderer,
        ) && final(tree)@ == old(tree)@,
        spec_subtrees_rendered::<R>(
            old(tree)@.nodes,
            old(tree)@.id,
            spec_children_of(old(tree)@.nodes, index as int).0,
            spec_children_of(old(tree)@.nodes, index as int).1,
        ),
        spec_children_of(old(tree)@.nodes, index as int).1 > 0 ==> exists|
            saved: &mut R,
            filtered: &mut R,
            handed_on: &mut CachedRenderingData,
            moved: &mut R,
            to_draw: bool,
            geometry: LogicalRect,
        |
            {
                &&& *saved == *old(renderer)
                &&& *filtered == *final(saved)
                &&& *handed_on == old(tree)@.rendering_data[spec_children_of(
                    old(tree)@.nodes,
                    index as int,
                ).0]
                &&& *moved == *final(filtered)
                &&& spec_item_begun(
                    saved,
                    filtered,
                    handed_on,
                    moved,
                    spec_item_rc(old(tree)@, spec_children_of(old(tree)@.nodes, index as int).0),
                    to_draw,
                    geometry,
                )
            },
        spec_children_of(old(tree)@.nodes, index as int).1 > 0 ==> exists|restored: &mut R|
            *final(restored) == *final(renderer) && call_ensures(
                R::restore_state,
                (restored,),
                (),
            ),
{
    if index < 0 {
        if tree.len() > 0 {
            render_items(renderer, tree, 0, 1);
        }
    } else {
        let node = tree.node(index as usize);
        render_items(renderer, tree, node.children_index, node.children_count);
    }
}

/// Renders the tree of items, using the specified renderer. Rendering is done
/// relative to the specified origin.
///
/// The state of the renderer is saved and the renderer is moved to the
/// origin; the root is rendered with everything below it; the state of the
/// renderer is restored. Where the tree is empty, these three calls are all
/// that happens.
pub fn render_component_items<R: ItemRenderer>(
    tree: &mut ItemTree,
    renderer: &mut R,
    origin: LogicalPoint,
)
    ensures
        final(tree)@.nodes == old(tree)@.nodes,
        final(tree)@.id == old(tree)@.id,
        final(tree)@.wf(),
        old(tree)@.nodes.len() == 0 ==> final(tree)@ == old(tree)@,
        old(tree)@.nodes.len() > 0 ==> spec_subtree_rendered::<R>(
            old(tree)@.nodes,
            old(tree)@.id,
            0,
        ),
        exists|saved: &mut R, moved: &mut R, restored: &mut R|
            {
                &&& *saved == *old(renderer)
                &&& call_ensures(R::save_state, (saved,), ())
                &&& *moved == *final(saved)
                &&& call_ensures(
                    R::translate,
                    (moved, LogicalVector { x: origin.x, y: origin.y }),
                    (),
                )
                &&& old(tree)@.nodes.len() == 0 ==> *restored == *final(moved)
                &&& call_ensures(R::restore_state, (restored,), ())
                &&& *final(restored) == *final(renderer)
            },
        old(tree)@.nodes.len() > 0 ==> exists|
            moved: &mut R,
            saved: &mut R,
            filtered: &mut R,
            handed_on: &mut CachedRenderingData,
            moved_to_root: &mut R,
            to_draw: bool,
            geometry: LogicalRect,
        |
            {
                &&& call_ensures(
                    R::translate,
                    (moved, LogicalVector { x: origin.x, y: origin.y }),
                    (),
                )
                &&& *saved == *final(moved)
                &&& *filtered == *final(saved)
                &&& *handed_on == old(tree)@.rendering_data[0]
                &&& *moved_to_root == *final(filtered)
                &&& spec_item_begun(
                    saved,
                    filtered,
                    handed_on,
                    moved_to_root,
                    spec_item_rc(old(tree)@, 0),
                    to_draw,
                    geometry,
                )
            },
{
    renderer.save_state();
    renderer.translate(origin.to_vector());
    render_item_children(renderer, tree, -1);
    renderer.restore_state();
}

/// The bounding box of one item, cut down to the clip, is joined to `acc`;
/// unless the item clips its children, the bounding box of its children is
/// joined as well, for which the clip is moved into the coordinates of the
/// item.
pub open spec fn spec_bounding_with_item(
    nodes: Seq<ItemTreeNode>,
    acc: WideBox,
    index: int,
    clip: WideBox,
) -> WideBox
    decreases nodes.len() - index, 0int,
{
    if 0 <= index < nodes.len() {
        let node = nodes[index];
        let geometry = node.item.geometry;
        let with_item = match WideBox::spec_from_rect(geometry).spec_intersection(clip) {
            Some(clipped) => acc.spec_union(clipped),
            None => acc,
        };
        if !node.item.spec_clips_children() && index < node.children_index && node.children_index
            + node.children_count <= nodes.len() {
            with_item.spec_union(
                spec_children_bounding_box(
                    nodes,
                    WideBox { min_x: 0, min_y: 0, max_x: 0, max_y: 0 },
                    node.children_index as int,
                    node.children_count as int,
                    clip.spec_translate(-geometry.origin.x, -geometry.origin.y),
                ),
            )
        } else {
            with_item
        }
    } else {
        acc
    }
}

/// The bounding boxes of the first `count` items from `first` on are joined
/// to `acc`, one after the other.
pub open spec fn spec_children_bounding_box(
    nodes: Seq<ItemTreeNode>,
    acc: WideBox,
    first: int,
    count: int,
    clip: WideBox,
) -> WideBox
    decreases nodes.len() - first, count + 1,
{
    if count <= 0 || first < 0 || first + count > nodes.len() {
        acc
    } else {
        spec_bounding_with_item(
            nodes,
            spec_children_bounding_box(nodes, acc, first, count - 1, clip),
            first + count - 1,
            clip,
        )
    }
}

/// The bounding box of `count` items from `first` on, and of what is below
/// them.
fn children_bounding_box(tree: &ItemTree, first: usize, count: usize, clip: &WideBox) -> (r:
    WideBox)
    requires
        first + count <= tree@.nodes.len(),
        clip.within((first + 1) * 0x2_0000_0000),
    ensures
        r == spec_children_bounding_box(
            tree@.nodes,
            WideBox { min_x: 0, min_y: 0, max_x: 0, max_y: 0 },
            first as int,
            count as int,
            *clip,
        ),
    decreases tree@.nodes.len() - first,
{
    let len = tree.len();
    let mut bounding = WideBox::zero();
    let mut k: usize = 0;
    while k < count
        invariant
            k <= count,
            first + count <= len == tree@.nodes.len(),
            clip.within((first + 1) * 0x2_0000_0000),
            bounding == spec_children_bounding_box(
                tree@.nodes,
                WideBox { min_x: 0, min_y: 0, max_x: 0, max_y: 0 },
                first as int,
                k as int,
                *clip,
            ),
        decreases count - k,
    {
        let index = first + k;
        let node = tree.node(index);
        let item_geometry = node.item.geometry();
        let ghost before = bounding;
        match WideBox::from_rect(&item_geometry).intersection(clip) {
            Some(clipped_item_geometry) => {
                bounding = bounding.union(&clipped_item_geometry);
            },
            None => {},
        }
        if !node.item.clips_children() {
            let local_clip_rect = clip.translate(
                -(item_geometry.origin.x as i128),
                -(item_geometry.origin.y as i128),
            );
            bounding = bounding.union(
                &children_bounding_box(
                    tree,
                    node.children_index,
                    node.children_count,
                    &local_clip_rect,
                ),
            );
        }
        assert(bounding == spec_bounding_with_item(tree@.nodes, before, index as int, *clip));
        k += 1;
    }
    bounding
}

/// Computes the bounding box of all children of the item with the specified
/// index, cut down to the clip. This does not include the item's own
/// bounding box. The index -1 stands for what is above the root.
pub fn item_children_bounding_rect(tree: &ItemTree, index: isize, clip_rect: &LogicalRect) -> (r:
    WideBox)
    requires
        -1 <= index < tree@.nodes.len(),
    ensures
        r == spec_children_bounding_box(
            tree@.nodes,
            WideBox { min_x: 0, min_y: 0, max_x: 0, max_y: 0 },
            if index < 0 {
                0
            } else {
                tree@.nodes[index as int].children_index as int
            },
            if index < 0 {
                if tree@.nodes.len() > 0 {
                    1
                } else {
                    0
                }
            } else {
                tree@.nodes[index as int].children_count as int
            },
            WideBox::spec_from_rect(*clip_rect),
        ),
{
    let clip = WideBox::from_rect(clip_rect);
    if index < 0 {
        if tree.len() > 0 {
            children_bounding_box(tree, 0, 1, &clip)
        } else {
            WideBox::zero()
        }
    } else {
        let node = tree.node(index as usize);
        children_bounding_box(tree, node.children_index, node.children_count, &clip)
    }
}

} // verus!
