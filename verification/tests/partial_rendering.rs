use item_rendering::cached_geometry::{CachedItemBoundingBoxAndTransform, ItemRendererFeatures};
use item_rendering::dirty_region::DirtyRegion;
use item_rendering::item_tree::{
    visit_items, ItemRc, ItemTree, ItemTreeNode, ItemTreeView, ItemVisitor, ItemVisitorResult,
};
use item_rendering::items::{
    BorderRectangle, BoxShadow, Brush, Clip, Color, Image, ImageFit, ImageHorizontalAlignment,
    ImageItem, ImageRendering, ImageTiling, ImageVerticalAlignment, Item, ItemKind, Layer,
    LogicalBorderRadius, LogicalLength, Opacity, Path, Rectangle, RenderBorderRectangle,
    RenderImage, RenderRectangle, RenderText, Scalar, Text, TextInput, TextWrap, Window,
};
use item_rendering::lengths::{LogicalBox, LogicalPoint, LogicalRect, LogicalSize, LogicalVector};
use item_rendering::dirty_pass::{dirty_box, visit_item, ComputeDirtyRegionState};
use item_rendering::partial_renderer::{refresh_geometry, should_draw, PartialRenderer};
use item_rendering::partial_rendering_state::{PartialRenderingState, RepaintBufferType};
use item_rendering::graphics::{CachedGraphicsData, RenderingCache};
use item_rendering::properties::PropertyTracker;
use item_rendering::renderer::{
    clipped_result, item_children_bounding_rect, render_component_items, render_item,
    render_item_children, renders_item, within_clip, ItemRenderer, PixmapSource, RenderingMetrics,
    RenderingResult,
};
use item_rendering::rendering_data::CachedRenderingData;
use item_rendering::lengths::WideBox;
use item_rendering::transform::ItemTransform;

fn rect(x: i32, y: i32, w: i32, h: i32) -> LogicalRect {
    LogicalRect::new(LogicalPoint::new(x, y), LogicalSize::new(w, h))
}

fn bx(x0: i32, y0: i32, x1: i32, y1: i32) -> LogicalBox {
    LogicalBox::new(LogicalPoint::new(x0, y0), LogicalPoint::new(x1, y1))
}

fn node(kind: ItemKind, geometry: LogicalRect, children_index: usize, children_count: usize) -> ItemTreeNode {
    ItemTreeNode { item: Item::new(kind, geometry), revision: 0, children_index, children_count }
}

const RED: Brush = Brush::SolidColor(Color { argb: 0xffff0000 });
const BLUE: Brush = Brush::SolidColor(Color { argb: 0xff0000ff });
const SQUARE: LogicalBorderRadius =
    LogicalBorderRadius { top_left: 0, top_right: 0, bottom_right: 0, bottom_left: 0 };

fn clip_kind(clip: bool) -> ItemKind {
    ItemKind::Clip(Clip { clip, border_radius: SQUARE, border_width: 0 })
}

fn rectangle() -> ItemKind {
    ItemKind::Rectangle(Rectangle { background: RED })
}

fn border_rectangle() -> BorderRectangle {
    BorderRectangle { background: RED, border_width: 2, border_radius: SQUARE, border_color: BLUE }
}

fn image() -> ImageItem {
    ImageItem {
        target_size: LogicalSize::new(50, 50),
        source: Image { id: 7 },
        source_clip: None,
        image_fit: ImageFit::Contain,
        rendering: ImageRendering::Smooth,
        colorize: BLUE,
        horizontal_alignment: ImageHorizontalAlignment::Center,
        vertical_alignment: ImageVerticalAlignment::Top,
        horizontal_tiling: ImageTiling::Off,
        vertical_tiling: ImageTiling::Repeat,
    }
}

fn text(text_size: LogicalSize) -> Text {
    Text { target_size: LogicalSize::new(20, 20), text_size, color: BLUE, wrap: TextWrap::WordWrap, letter_spacing: 1 }
}

fn box_shadow() -> ItemKind {
    ItemKind::BoxShadow(BoxShadow {
        border_radius: 0,
        offset_x: 3,
        offset_y: 3,
        color: Color { argb: 0x80000000 },
        blur: 5,
    })
}

fn path() -> ItemKind {
    ItemKind::Path(Path { fill: RED, stroke: BLUE, stroke_width: 1 })
}

fn opacity(value: f32) -> ItemKind {
    ItemKind::Opacity(Opacity { opacity: Scalar { bits: value.to_bits() } })
}

/// A renderer that writes down what it is asked to do.
struct Recorder {
    log: Vec<String>,
    translation: LogicalVector,
    clip: LogicalBox,
    saved: Vec<(LogicalVector, LogicalBox)>,
    window: Window,
}

impl Recorder {
    fn new(size: LogicalSize) -> Self {
        Recorder {
            log: Vec::new(),
            translation: LogicalVector::new(0, 0),
            clip: bx(0, 0, size.width, size.height),
            saved: Vec::new(),
            window: Window::new(Scalar { bits: 1.0f32.to_bits() }),
        }
    }
}

impl ItemRendererFeatures for Recorder {
    const SUPPORTS_TRANSFORMATIONS: bool = false;
}

impl ItemRenderer for Recorder {
    fn draw_rectangle<R: RenderRectangle>(&mut self, _: &R, rc: &ItemRc, _: LogicalSize, _: &mut CachedRenderingData) {
        self.log.push(format!("rectangle {}", rc.index));
    }
    fn draw_border_rectangle<R: RenderBorderRectangle>(&mut self, r: &R, rc: &ItemRc, _: LogicalSize, _: &mut CachedRenderingData) {
        assert_eq!((r.background(), r.border_color(), r.border_width(), r.border_radius()), (RED, BLUE, 2, SQUARE));
        self.log.push(format!("border_rectangle {}", rc.index));
    }
    fn draw_window_background<R: RenderRectangle>(&mut self, r: &R, rc: &ItemRc, _: LogicalSize, _: &mut CachedRenderingData) {
        assert_eq!(r.background(), BLUE);
        self.log.push(format!("window_background {}", rc.index));
    }
    fn draw_image<I: RenderImage>(&mut self, i: &I, rc: &ItemRc, _: LogicalSize, _: &mut CachedRenderingData) {
        assert_eq!((i.target_size(), i.source(), i.source_clip()), (LogicalSize::new(50, 50), Image { id: 7 }, None));
        assert_eq!((i.image_fit(), i.rendering(), i.colorize()), (ImageFit::Contain, ImageRendering::Smooth, BLUE));
        assert_eq!(i.alignment(), (ImageHorizontalAlignment::Center, ImageVerticalAlignment::Top));
        assert_eq!(i.tiling(), (ImageTiling::Off, ImageTiling::Repeat));
        self.log.push(format!("image {}", rc.index));
    }
    fn draw_text<X: RenderText>(&mut self, t: &X, rc: &ItemRc, _: LogicalSize, _: &mut CachedRenderingData) {
        assert_eq!((t.target_size(), t.color(), t.wrap(), t.letter_spacing()), (LogicalSize::new(20, 20), BLUE, TextWrap::WordWrap, 1));
        self.log.push(format!("text {} {}x{}", rc.index, t.text_size().width, t.text_size().height));
    }
    fn draw_text_input(&mut self, _: &TextInput, rc: &ItemRc, _: LogicalSize, _: &mut CachedRenderingData) {
        self.log.push(format!("text_input {}", rc.index));
    }
    fn draw_path(&mut self, _: &Path, rc: &ItemRc, _: LogicalSize, _: &mut CachedRenderingData) {
        self.log.push(format!("path {}", rc.index));
    }
    fn draw_box_shadow(&mut self, _: &BoxShadow, rc: &ItemRc, _: LogicalSize, _: &mut CachedRenderingData) {
        self.log.push(format!("box_shadow {}", rc.index));
    }
    fn combine_clip(&mut self, rect: LogicalRect, _: LogicalBorderRadius, _: LogicalLength) -> bool {
        let on_screen = bx(
            rect.origin.x + self.translation.x,
            rect.origin.y + self.translation.y,
            rect.origin.x + rect.size.width + self.translation.x,
            rect.origin.y + rect.size.height + self.translation.y,
        );
        self.log.push(format!("combine_clip {} {} {} {}", rect.origin.x, rect.origin.y, rect.size.width, rect.size.height));
        match self.clip.intersection(&on_screen) {
            Some(c) => {
                self.clip = c;
                true
            }
            None => {
                self.clip = bx(0, 0, 0, 0);
                false
            }
        }
    }
    fn get_current_clip(&self) -> LogicalRect {
        rect(
            self.clip.min.x - self.translation.x,
            self.clip.min.y - self.translation.y,
            self.clip.max.x - self.clip.min.x,
            self.clip.max.y - self.clip.min.y,
        )
    }
    fn translate(&mut self, distance: LogicalVector) {
        self.translation = LogicalVector::new(self.translation.x + distance.x, self.translation.y + distance.y);
    }
    fn translation(&self) -> LogicalVector {
        self.translation
    }
    fn rotate(&mut self, angle_in_degrees: Scalar) {
        self.log.push(format!("rotate {}", f32::from_bits(angle_in_degrees.bits)));
    }
    fn apply_opacity(&mut self, opacity: Scalar) {
        self.log.push(format!("opacity {}", f32::from_bits(opacity.bits)));
    }
    fn save_state(&mut self) {
        self.saved.push((self.translation, self.clip));
    }
    fn restore_state(&mut self) {
        let (translation, clip) = self.saved.pop().unwrap();
        self.translation = translation;
        self.clip = clip;
    }
    fn scale_factor(&self) -> Scalar {
        self.window.scale_factor
    }
    fn draw_cached_pixmap<P: PixmapSource>(&mut self, rc: &ItemRc, update: &P) {
        let pixmap = update.pixmap();
        self.log.push(format!("pixmap {} {}x{} {}", rc.index, pixmap.width, pixmap.height, pixmap.data.len()));
    }
    fn draw_string(&mut self, string: &str, color: Color) {
        self.log.push(format!("string {} {:x}", string, color.argb));
    }
    fn draw_image_direct(&mut self, image: Image) {
        self.log.push(format!("image_direct {}", image.id));
    }
    fn window(&self) -> &Window {
        &self.window
    }
}

/// A renderer like the recorder, that supports transformations.
struct Transforming;

impl ItemRendererFeatures for Transforming {
    const SUPPORTS_TRANSFORMATIONS: bool = true;
}

struct Frame {
    to_repaint: DirtyRegion,
    effective: DirtyRegion,
    log: Vec<String>,
}

fn frame_with(
    state: &mut PartialRenderingState,
    tree: &mut ItemTree,
    origin: LogicalPoint,
    size: LogicalSize,
    existing: Option<DirtyRegion>,
) -> Frame {
    let mut renderer = state.create_partial_renderer(Recorder::new(size));
    let to_repaint =
        PartialRenderingState::apply_dirty_region(&mut renderer, &[(&*tree, origin)], size, existing);
    let effective = renderer.dirty_region;
    render_component_items(tree, &mut renderer, origin);
    let recorder = renderer.into_inner();
    assert!(recorder.saved.is_empty());
    Frame { to_repaint, effective, log: recorder.log }
}

fn frame(state: &mut PartialRenderingState, tree: &mut ItemTree, size: LogicalSize) -> Frame {
    frame_with(state, tree, LogicalPoint::new(0, 0), size, None)
}

fn two_rectangles() -> ItemTree {
    ItemTree::new(
        1,
        vec![
            node(ItemKind::Empty, rect(0, 0, 200, 100), 1, 2),
            node(rectangle(), rect(0, 0, 10, 10), 3, 0),
            node(rectangle(), rect(100, 0, 10, 10), 3, 0),
        ],
    )
    .unwrap()
}

/// A frame that renders through the partial renderer itself.
fn frame_through(state: &mut PartialRenderingState, tree: &mut ItemTree, size: LogicalSize) -> (Frame, bool) {
    let origin = LogicalPoint::new(0, 0);
    let mut renderer = state.create_partial_renderer(Recorder::new(size));
    let to_repaint =
        PartialRenderingState::apply_dirty_region(&mut renderer, &[(&*tree, origin)], size, None);
    let effective = renderer.dirty_region;
    let complete = renderer.render_tree(tree, origin);
    let recorder = renderer.into_inner();
    assert!(recorder.saved.is_empty());
    (Frame { to_repaint, effective, log: recorder.log }, complete)
}

#[test]
fn rendering_through_the_partial_renderer_comes_to_every_item() {
    let mut state = PartialRenderingState::default();
    let mut tree = two_rectangles();
    let size = LogicalSize::new(200, 100);
    let (f, complete) = frame_through(&mut state, &mut tree, size);
    assert!(complete);
    assert_eq!(f.to_repaint.iter(), vec![bx(0, 0, 200, 100)]);
    assert_eq!(f.log, vec!["rectangle 1", "rectangle 2"]);
    for index in 0..3 {
        let entry = tree.rendering_data(index).peek_entry(&state.partial_cache).unwrap();
        assert_eq!(entry.dependency_tracker, Some(PropertyTracker { evaluated_at: Some(0) }));
    }
    let (f, complete) = frame_through(&mut state, &mut tree, size);
    assert!(complete);
    assert_eq!(f.to_repaint.len(), 0);
    assert_eq!(f.log, Vec::<String>::new());
    tree.set_item(2, Item::new(rectangle(), rect(100, 50, 10, 10)));
    let (f, complete) = frame_through(&mut state, &mut tree, size);
    assert!(complete);
    assert_eq!(f.to_repaint.iter(), vec![bx(100, 0, 110, 10), bx(100, 50, 110, 60)]);
    assert_eq!(f.log, vec!["rectangle 2"]);
}

#[test]
fn rendering_that_leaves_children_out_is_not_complete() {
    let mut state = PartialRenderingState::default();
    let mut tree = ItemTree::new(
        1,
        vec![
            node(ItemKind::Empty, rect(0, 0, 100, 100), 1, 2),
            node(clip_kind(true), rect(500, 500, 10, 10), 3, 1),
            node(clip_kind(true), rect(600, 600, 10, 10), 4, 0),
            node(rectangle(), rect(0, 0, 5, 5), 4, 0),
        ],
    )
    .unwrap();
    let (f, complete) = frame_through(&mut state, &mut tree, LogicalSize::new(100, 100));
    assert!(!complete);
    assert_eq!(f.log, vec!["combine_clip 0 0 10 10", "combine_clip 0 0 10 10"]);
    assert_eq!(tree.rendering_data(3), CachedRenderingData::default());
    assert!(tree.rendering_data(1).peek_entry(&state.partial_cache).is_some());
    assert!(tree.rendering_data(2).peek_entry(&state.partial_cache).is_some());
}

#[test]
fn first_frame_repaints_every_item() {
    let mut state = PartialRenderingState::default();
    let mut tree = two_rectangles();
    let size = LogicalSize::new(200, 100);
    let f = frame(&mut state, &mut tree, size);
    assert_eq!(f.to_repaint.iter(), vec![bx(0, 0, 200, 100)]);
    assert_eq!(f.effective.iter(), vec![bx(0, 0, 200, 100)]);
    assert_eq!(f.log, vec!["rectangle 1", "rectangle 2"]);
    for index in 0..3 {
        let data = tree.rendering_data(index);
        assert_eq!(data.cache_generation, state.partial_cache.generation());
        let entry = data.peek_entry(&state.partial_cache).unwrap();
        assert_eq!(entry.dependency_tracker, Some(PropertyTracker { evaluated_at: Some(0) }));
    }
}

#[test]
fn second_frame_without_changes_repaints_nothing() {
    let mut state = PartialRenderingState::default();
    let mut tree = two_rectangles();
    let size = LogicalSize::new(200, 100);
    frame(&mut state, &mut tree, size);
    let f = frame(&mut state, &mut tree, size);
    assert_eq!(f.to_repaint.len(), 0);
    assert_eq!(f.effective.len(), 0);
    assert_eq!(f.log, Vec::<String>::new());
}

#[test]
fn moved_item_repaints_old_and_new_place() {
    let mut state = PartialRenderingState::default();
    let mut tree = two_rectangles();
    let size = LogicalSize::new(200, 100);
    frame(&mut state, &mut tree, size);
    tree.set_item(1, Item::new(rectangle(), rect(20, 0, 10, 10)));
    let f = frame(&mut state, &mut tree, size);
    assert_eq!(f.to_repaint.bounding_rect(), rect(0, 0, 30, 10));
    assert_eq!(f.to_repaint.iter(), vec![bx(0, 0, 10, 10), bx(20, 0, 30, 10)]);
    assert_eq!(f.log, vec!["rectangle 1"]);
    let f = frame(&mut state, &mut tree, size);
    assert_eq!(f.to_repaint.len(), 0);
}

#[test]
fn clip_item_clips_what_its_children_make_dirty() {
    let mut state = PartialRenderingState::default();
    let mut tree = ItemTree::new(
        1,
        vec![
            node(clip_kind(true), rect(10, 10, 50, 50), 1, 1),
            node(rectangle(), rect(0, 0, 200, 200), 2, 0),
        ],
    )
    .unwrap();
    let size = LogicalSize::new(300, 300);
    let f = frame(&mut state, &mut tree, size);
    assert_eq!(f.to_repaint.iter(), vec![bx(10, 10, 60, 60)]);
    assert_eq!(f.log, vec!["combine_clip 0 0 50 50", "rectangle 1"]);
    // The child changes: what it makes dirty stays within the clip.
    tree.set_item(1, Item::new(rectangle(), rect(5, 5, 200, 200)));
    let f = frame(&mut state, &mut tree, size);
    assert_eq!(f.to_repaint.iter(), vec![bx(10, 10, 60, 60)]);
}

#[test]
fn item_without_clip_lets_its_children_out() {
    let mut state = PartialRenderingState::default();
    let mut tree = ItemTree::new(
        1,
        vec![
            node(clip_kind(false), rect(10, 10, 50, 50), 1, 1),
            node(rectangle(), rect(0, 0, 200, 200), 2, 0),
        ],
    )
    .unwrap();
    let f = frame(&mut state, &mut tree, LogicalSize::new(300, 300));
    assert_eq!(f.to_repaint.iter(), vec![bx(10, 10, 210, 210)]);
    assert_eq!(f.log, vec!["rectangle 1"]);
}

#[test]
fn freed_items_make_the_next_frame_repaint_the_window() {
    let mut state = PartialRenderingState::default();
    let mut tree = two_rectangles();
    let size = LogicalSize::new(200, 100);
    frame(&mut state, &mut tree, size);
    let released = tree.rendering_data(2);
    state.free_graphics_resources(&mut tree, &[2, 17]);
    assert!(state.force_screen_refresh);
    assert_eq!(tree.rendering_data(2).cache_generation, 0);
    assert!(!state.partial_cache.contains(released.cache_index));
    assert!(state.partial_cache.contains(tree.rendering_data(1).cache_index));
    let mut smaller = ItemTree::new(
        1,
        vec![
            node(ItemKind::Empty, rect(0, 0, 200, 100), 1, 1),
            node(rectangle(), rect(0, 0, 10, 10), 2, 0),
        ],
    )
    .unwrap();
    smaller.set_rendering_data(0, tree.rendering_data(0));
    smaller.set_rendering_data(1, tree.rendering_data(1));
    let f = frame(&mut state, &mut smaller, size);
    assert_eq!(f.to_repaint.bounding_rect(), rect(0, 0, 200, 100));
    assert_eq!(f.to_repaint.iter(), vec![bx(0, 0, 200, 100)]);
    assert!(!state.force_screen_refresh);
    let f = frame(&mut state, &mut smaller, size);
    assert_eq!(f.to_repaint.len(), 0);
}

#[test]
fn forced_refresh_repaints_the_window() {
    let mut state = PartialRenderingState::default();
    let mut tree = two_rectangles();
    let size = LogicalSize::new(200, 100);
    frame(&mut state, &mut tree, size);
    state.force_screen_refresh();
    let f = frame(&mut state, &mut tree, size);
    assert_eq!(f.to_repaint.iter(), vec![bx(0, 0, 200, 100)]);
    assert_eq!(f.to_repaint.bounding_rect(), LogicalRect::from_size(size));
    assert_eq!(f.log, vec!["rectangle 1", "rectangle 2"]);
    let f = frame(&mut state, &mut tree, size);
    assert_eq!(f.to_repaint.len(), 0);
}

#[test]
fn marked_region_is_repainted_once() {
    let mut state = PartialRenderingState::default();
    let mut tree = two_rectangles();
    let size = LogicalSize::new(200, 100);
    frame(&mut state, &mut tree, size);
    state.mark_dirty_region(DirtyRegion::from(rect(95, 0, 10, 10)));
    state.mark_dirty_region(DirtyRegion::from(rect(150, 50, 10, 10)));
    assert_eq!(state.force_dirty.iter(), vec![bx(95, 0, 105, 10), bx(150, 50, 160, 60)]);
    let f = frame(&mut state, &mut tree, size);
    assert_eq!(f.to_repaint.iter(), vec![bx(95, 0, 105, 10), bx(150, 50, 160, 60)]);
    assert_eq!(f.log, vec!["rectangle 2"]);
    assert_eq!(state.force_dirty.len(), 0);
    let f = frame(&mut state, &mut tree, size);
    assert_eq!(f.to_repaint.len(), 0);
}

#[test]
fn buffer_region_is_added_and_cut_to_the_window() {
    let mut state = PartialRenderingState::default();
    let mut tree = two_rectangles();
    let size = LogicalSize::new(200, 100);
    frame(&mut state, &mut tree, size);
    tree.set_item(1, Item::new(rectangle(), rect(20, 0, 10, 10)));
    let f = frame_with(
        &mut state,
        &mut tree,
        LogicalPoint::new(0, 0),
        size,
        Some(DirtyRegion::from(rect(190, 90, 50, 50))),
    );
    assert_eq!(f.to_repaint.iter(), vec![bx(0, 0, 10, 10), bx(20, 0, 30, 10)]);
    assert_eq!(f.effective.iter(), vec![bx(0, 0, 10, 10), bx(20, 0, 30, 10), bx(190, 90, 200, 100)]);
}

#[test]
fn cleared_cache_makes_everything_dirty_again() {
    let mut state = PartialRenderingState::default();
    let mut tree = two_rectangles();
    let size = LogicalSize::new(200, 100);
    frame(&mut state, &mut tree, size);
    state.clear_cache();
    assert_eq!(state.partial_cache.generation(), 2);
    let f = frame(&mut state, &mut tree, size);
    assert_eq!(f.to_repaint.iter(), vec![bx(0, 0, 200, 100)]);
    assert_eq!(tree.rendering_data(1).cache_generation, 2);
}

#[test]
fn tree_at_an_origin() {
    let mut state = PartialRenderingState::default();
    let mut tree = two_rectangles();
    let size = LogicalSize::new(150, 100);
    let f = frame_with(&mut state, &mut tree, LogicalPoint::new(30, 40), size, None);
    assert_eq!(f.to_repaint.iter(), vec![bx(30, 40, 150, 100)]);
    tree.set_item(2, Item::new(rectangle(), rect(100, 5, 10, 10)));
    let f = frame_with(&mut state, &mut tree, LogicalPoint::new(30, 40), size, None);
    assert_eq!(f.to_repaint.iter(), vec![bx(130, 40, 140, 50), bx(130, 45, 140, 55)]);
}

#[test]
fn moved_parent_repaints_its_children() {
    let mut state = PartialRenderingState::default();
    let mut tree = ItemTree::new(
        1,
        vec![
            node(ItemKind::Empty, rect(0, 0, 300, 300), 1, 1),
            node(rectangle(), rect(10, 10, 20, 20), 2, 1),
            node(rectangle(), rect(50, 0, 5, 5), 3, 0),
        ],
    )
    .unwrap();
    let size = LogicalSize::new(300, 300);
    frame(&mut state, &mut tree, size);
    tree.set_item(1, Item::new(rectangle(), rect(10, 100, 20, 20)));
    let f = frame(&mut state, &mut tree, size);
    assert_eq!(
        f.to_repaint.iter(),
        vec![bx(10, 10, 30, 30), bx(10, 100, 30, 120), bx(60, 10, 65, 105)]
    );
    for b in [bx(60, 10, 65, 15), bx(60, 100, 65, 105)] {
        assert!(f.to_repaint.iter().iter().any(|r| r.contains_box(&b)));
    }
}

#[test]
fn changed_opacity_repaints_all_children() {
    let mut state = PartialRenderingState::default();
    let half = opacity(0.5);
    let full = opacity(1.0);
    let mut tree = ItemTree::new(
        1,
        vec![
            node(half, rect(0, 0, 10, 10), 1, 1),
            node(rectangle(), rect(100, 100, 20, 20), 2, 0),
        ],
    )
    .unwrap();
    let size = LogicalSize::new(300, 300);
    let f = frame(&mut state, &mut tree, size);
    assert_eq!(f.log, vec!["opacity 0.5", "rectangle 1"]);
    tree.set_item(0, Item::new(full, rect(0, 0, 10, 10)));
    let f = frame(&mut state, &mut tree, size);
    assert_eq!(f.to_repaint.iter(), vec![bx(0, 0, 10, 10), bx(100, 100, 120, 120)]);
    assert_eq!(f.log, vec!["opacity 1", "rectangle 1"]);
}

#[test]
fn text_is_bounded_by_its_laid_out_size() {
    let mut state = PartialRenderingState::default();
    let content = text(LogicalSize::new(80, 5));
    let mut tree =
        ItemTree::new(1, vec![node(ItemKind::Text(content), rect(10, 10, 20, 20), 1, 0)]).unwrap();
    let f = frame(&mut state, &mut tree, LogicalSize::new(300, 300));
    assert_eq!(f.to_repaint.iter(), vec![bx(10, 10, 90, 30)]);
    assert_eq!(f.log, vec!["text 0 80x5"]);
    assert_eq!(content.text_bounding_rect(rect(10, 10, 20, 20)), rect(10, 10, 80, 20));
    assert_eq!(text(LogicalSize::new(5, 50)).text_bounding_rect(rect(1, 2, 20, 20)), rect(1, 2, 20, 50));
}

#[test]
fn box_shadow_is_rendered_outside_the_dirty_region() {
    let mut state = PartialRenderingState::default();
    let mut tree = ItemTree::new(
        1,
        vec![
            node(ItemKind::Empty, rect(0, 0, 200, 100), 1, 2),
            node(box_shadow(), rect(0, 0, 10, 10), 3, 0),
            node(rectangle(), rect(100, 0, 10, 10), 3, 0),
        ],
    )
    .unwrap();
    let size = LogicalSize::new(200, 100);
    frame(&mut state, &mut tree, size);
    tree.set_item(2, Item::new(rectangle(), rect(100, 0, 10, 12)));
    let f = frame(&mut state, &mut tree, size);
    assert_eq!(f.log, vec!["box_shadow 1", "rectangle 2"]);
    assert!(renders_item(false, &Item::new(box_shadow(), rect(0, 0, 1, 1))));
    assert!(renders_item(false, &Item::new(clip_kind(true), rect(0, 0, 1, 1))));
    assert!(!renders_item(false, &Item::new(clip_kind(false), rect(0, 0, 1, 1))));
    assert!(!renders_item(false, &Item::new(rectangle(), rect(0, 0, 1, 1))));
    assert!(renders_item(true, &Item::new(rectangle(), rect(0, 0, 1, 1))));
}

#[test]
fn empty_clip_region_leaves_the_children_out() {
    let mut tree = ItemTree::new(
        1,
        vec![
            node(ItemKind::Empty, rect(0, 0, 100, 100), 1, 1),
            node(clip_kind(true), rect(500, 500, 10, 10), 2, 1),
            node(rectangle(), rect(0, 0, 5, 5), 3, 0),
        ],
    )
    .unwrap();
    let mut recorder = Recorder::new(LogicalSize::new(100, 100));
    render_component_items(&mut tree, &mut recorder, LogicalPoint::new(0, 0));
    assert_eq!(recorder.log, vec!["combine_clip 0 0 10 10"]);
    assert_eq!(recorder.translation, LogicalVector::new(0, 0));
}

#[test]
fn clip_item_is_rendered_by_combining_the_clip() {
    assert_eq!(clipped_result(true), RenderingResult::ContinueRenderingChildren);
    assert_eq!(clipped_result(false), RenderingResult::ContinueRenderingWithoutChildren);
    let mut recorder = Recorder::new(LogicalSize::new(100, 100));
    let mut data = CachedRenderingData::default();
    let inside = ItemRc { component: 1, index: 3, revision: 0, item: Item::new(clip_kind(true), rect(90, 90, 30, 30)) };
    recorder.translate(LogicalVector::new(90, 90));
    assert_eq!(
        render_item(&mut recorder, &inside, LogicalSize::new(30, 30), &mut data),
        RenderingResult::ContinueRenderingChildren
    );
    assert_eq!(recorder.get_current_clip(), rect(0, 0, 10, 10));
    let mut recorder = Recorder::new(LogicalSize::new(100, 100));
    recorder.translate(LogicalVector::new(100, 0));
    let outside = ItemRc { item: Item::new(clip_kind(true), rect(100, 0, 30, 30)), ..inside };
    assert_eq!(
        render_item(&mut recorder, &outside, LogicalSize::new(30, 30), &mut data),
        RenderingResult::ContinueRenderingWithoutChildren
    );
    // An item that does not clip at present leaves the clip alone.
    let mut recorder = Recorder::new(LogicalSize::new(100, 100));
    let open = ItemRc { item: Item::new(clip_kind(false), rect(100, 0, 30, 30)), ..inside };
    assert_eq!(
        render_item(&mut recorder, &open, LogicalSize::new(30, 30), &mut data),
        RenderingResult::ContinueRenderingChildren
    );
    assert_eq!(recorder.log, Vec::<String>::new());
    let nothing = ItemRc { item: Item::new(ItemKind::Empty, rect(0, 0, 30, 30)), ..inside };
    assert_eq!(
        render_item(&mut recorder, &nothing, LogicalSize::new(30, 30), &mut data),
        RenderingResult::ContinueRenderingChildren
    );
    assert_eq!(data, CachedRenderingData::default());
}

#[test]
fn items_are_rendered_in_their_order_with_their_children() {
    let mut tree = ItemTree::new(
        1,
        vec![
            node(ItemKind::WindowBackground(Rectangle { background: BLUE }), rect(0, 0, 100, 100), 1, 2),
            node(ItemKind::BorderRectangle(border_rectangle()), rect(0, 0, 50, 50), 3, 2),
            node(ItemKind::Image(image()), rect(50, 0, 50, 50), 5, 1),
            node(ItemKind::TextInput(TextInput { color: RED }), rect(0, 0, 5, 5), 6, 0),
            node(path(), rect(5, 5, 5, 5), 6, 0),
            node(ItemKind::Layer(Layer { cache_rendering_hint: false }), rect(0, 0, 5, 5), 6, 0),
        ],
    )
    .unwrap();
    let mut recorder = Recorder::new(LogicalSize::new(100, 100));
    render_component_items(&mut tree, &mut recorder, LogicalPoint::new(0, 0));
    assert_eq!(
        recorder.log,
        vec!["window_background 0", "border_rectangle 1", "text_input 3", "path 4", "image 2"]
    );
    let mut recorder = Recorder::new(LogicalSize::new(100, 100));
    render_item_children(&mut recorder, &mut tree, 1);
    assert_eq!(recorder.log, vec!["text_input 3", "path 4"]);
    // The renderer by itself leaves out what its clip hides.
    let mut recorder = Recorder::new(LogicalSize::new(40, 40));
    render_item_children(&mut recorder, &mut tree, -1);
    assert_eq!(recorder.log, vec!["window_background 0", "border_rectangle 1", "text_input 3", "path 4"]);
    assert_eq!(recorder.metrics(), RenderingMetrics { layers_created: None });
    assert_eq!(RenderingResult::default(), RenderingResult::ContinueRenderingChildren);
    assert_eq!(RepaintBufferType::default(), RepaintBufferType::NewBuffer);
}

/// Writes down the positions of the items that it is shown, with the depth
/// at which they stand, and leaves out what is below the items in `stop_at`.
struct Lister {
    seen: Vec<(usize, u32)>,
    stop_at: Vec<usize>,
}

impl ItemVisitor for Lister {
    type State = u32;
    type Model = ();

    fn model(&self) {}

    fn after_visit(_: (), _: ItemTreeView, _: usize, _: u32) {}

    fn visit_result(_: (), _: ItemTreeView, _: usize, state: u32) -> ItemVisitorResult<u32> {
        ItemVisitorResult::Continue(state)
    }

    fn visit(&mut self, _: &ItemTree, index: usize, state: &u32) -> ItemVisitorResult<u32> {
        self.seen.push((index, *state));
        if self.stop_at.contains(&index) {
            ItemVisitorResult::Stop
        } else {
            ItemVisitorResult::Continue(*state + 1)
        }
    }
}

#[test]
fn items_are_visited_depth_first_in_their_order() {
    let tree = ItemTree::new(
        1,
        vec![
            node(ItemKind::Empty, rect(0, 0, 1, 1), 1, 3),
            node(ItemKind::Empty, rect(0, 0, 1, 1), 4, 2),
            node(ItemKind::Empty, rect(0, 0, 1, 1), 6, 0),
            node(ItemKind::Empty, rect(0, 0, 1, 1), 6, 1),
            node(ItemKind::Empty, rect(0, 0, 1, 1), 7, 0),
            node(ItemKind::Empty, rect(0, 0, 1, 1), 7, 0),
            node(ItemKind::Empty, rect(0, 0, 1, 1), 7, 0),
        ],
    )
    .unwrap();
    let mut lister = Lister { seen: vec![], stop_at: vec![] };
    visit_items(&tree, &mut lister, &0);
    assert_eq!(lister.seen, vec![(0, 0), (1, 1), (4, 2), (5, 2), (2, 1), (3, 1), (6, 2)]);
    let mut lister = Lister { seen: vec![], stop_at: vec![1] };
    visit_items(&tree, &mut lister, &10);
    assert_eq!(lister.seen, vec![(0, 10), (1, 11), (2, 11), (3, 11), (6, 12)]);
    let mut lister = Lister { seen: vec![], stop_at: vec![0] };
    visit_items(&tree, &mut lister, &0);
    assert_eq!(lister.seen, vec![(0, 0)]);
    let mut lister = Lister { seen: vec![], stop_at: vec![] };
    visit_items(&ItemTree::new(2, vec![]).unwrap(), &mut lister, &0);
    assert_eq!(lister.seen, vec![]);
}

#[test]
fn tree_needs_children_after_their_parent() {
    assert!(ItemTree::new(1, vec![]).is_some());
    assert!(ItemTree::new(1, vec![node(ItemKind::Empty, rect(0, 0, 1, 1), 1, 0)]).is_some());
    assert!(ItemTree::new(1, vec![node(ItemKind::Empty, rect(0, 0, 1, 1), 0, 0)]).is_none());
    assert!(ItemTree::new(1, vec![node(ItemKind::Empty, rect(0, 0, 1, 1), 1, 1)]).is_none());
    assert!(ItemTree::new(1, vec![node(ItemKind::Empty, rect(0, 0, 1, 1), usize::MAX, 2)]).is_none());
    let mut tree = two_rectangles();
    assert_eq!(tree.len(), 3);
    assert_eq!(tree.id(), 1);
    assert_eq!(tree.node(0).children_count, 2);
    assert_eq!(
        tree.item_rc(2),
        ItemRc { component: 1, index: 2, revision: 0, item: Item::new(rectangle(), rect(100, 0, 10, 10)) }
    );
    assert_eq!(tree.item_rc(2).index(), 2);
    assert_eq!(tree.item_rc(2).geometry(), rect(100, 0, 10, 10));
    tree.set_item(2, Item::new(path(), rect(1, 2, 3, 4)));
    assert_eq!(tree.node(2).item.kind, path());
    assert_eq!(tree.node(2).revision, 1);
    assert_eq!(tree.node(2).children_index, 3);
    tree.rendering_data_mut(1).cache_index = 9;
    assert_eq!(tree.rendering_data(1), CachedRenderingData { cache_index: 9, cache_generation: 0 });
}

#[test]
fn children_bounding_rect() {
    let tree = ItemTree::new(
        1,
        vec![
            node(ItemKind::Empty, rect(10, 10, 100, 100), 1, 2),
            node(rectangle(), rect(5, 5, 10, 10), 3, 1),
            node(clip_kind(true), rect(50, 50, 10, 10), 4, 1),
            node(rectangle(), rect(0, 0, 200, 2), 5, 0),
            node(rectangle(), rect(0, 0, 500, 500), 5, 0),
        ],
    )
    .unwrap();
    let all = rect(-1000, -1000, 5000, 5000);
    let w = |x0, y0, x1, y1| WideBox { min_x: x0, min_y: y0, max_x: x1, max_y: y1 };
    // The children of the first item, and what is below the one that does not clip.
    assert_eq!(item_children_bounding_rect(&tree, 0, &all), w(0, 0, 200, 60));
    assert_eq!(item_children_bounding_rect(&tree, -1, &all), w(0, 0, 200, 110));
    assert_eq!(item_children_bounding_rect(&tree, 2, &all), w(0, 0, 500, 500));
    assert_eq!(item_children_bounding_rect(&tree, 3, &all), w(0, 0, 0, 0));
    assert_eq!(item_children_bounding_rect(&tree, 0, &rect(0, 0, 12, 12)), w(0, 0, 12, 12));
    assert_eq!(item_children_bounding_rect(&tree, 0, &rect(7, 7, 2, 2)), w(7, 7, 9, 9));
    assert_eq!(item_children_bounding_rect(&tree, 0, &rect(6, 6, 2, 2)), w(1, 1, 8, 8));
}

#[test]
fn cached_geometry_of_an_item() {
    let plain = Item::new(rectangle(), rect(3, 4, 10, 20));
    assert_eq!(
        CachedItemBoundingBoxAndTransform::new::<Recorder>(&plain),
        CachedItemBoundingBoxAndTransform::RegularItem {
            bounding_rect: rect(3, 4, 10, 20),
            offset: LogicalVector::new(3, 4),
        }
    );
    let clip = Item::new(clip_kind(true), rect(3, 4, 10, 20));
    let cached = CachedItemBoundingBoxAndTransform::new::<Transforming>(&clip);
    assert_eq!(cached, CachedItemBoundingBoxAndTransform::ClipItem { geometry: rect(3, 4, 10, 20) });
    assert_eq!(*cached.bounding_rect(), rect(3, 4, 10, 20));
    assert_eq!(cached.transform(), Some(ItemTransform::translation(3, 4)));
    let turn = ItemTransform { m11: 0, m12: 1, m21: -1, m22: 0, m31: 0, m32: 0 };
    let turned = Item { children_transform: Some(turn), ..plain };
    let cached = CachedItemBoundingBoxAndTransform::new::<Transforming>(&turned);
    assert_eq!(
        cached,
        CachedItemBoundingBoxAndTransform::ItemWithTransform {
            bounding_rect: rect(3, 4, 10, 20),
            transform: Some(ItemTransform { m11: 0, m12: 1, m21: -1, m22: 0, m31: 3, m32: 4 }),
        }
    );
    assert_eq!(cached.transform(), Some(ItemTransform { m11: 0, m12: 1, m21: -1, m22: 0, m31: 3, m32: 4 }));
    // A renderer without transformations caches the offset alone.
    assert_eq!(
        CachedItemBoundingBoxAndTransform::new::<Recorder>(&turned).transform(),
        Some(ItemTransform::translation(3, 4))
    );
    let far = Item {
        children_transform: Some(ItemTransform::translation(i32::MAX, 0)),
        ..Item::new(rectangle(), rect(1, 0, 10, 10))
    };
    assert_eq!(CachedItemBoundingBoxAndTransform::new::<Transforming>(&far).transform(), None);
}

fn state(origin: (i32, i32), old_origin: (i32, i32), clipped: LogicalBox, refresh: bool) -> ComputeDirtyRegionState {
    ComputeDirtyRegionState {
        transform_to_screen: ItemTransform::translation(origin.0, origin.1),
        old_transform_to_screen: ItemTransform::translation(old_origin.0, old_origin.1),
        clipped,
        must_refresh_children: refresh,
    }
}

#[test]
fn visit_of_an_item_without_entry() {
    let s = state((10, 10), (0, 0), bx(0, 0, 100, 100), false);
    let n = node(rectangle(), rect(80, 80, 50, 50), 1, 0);
    let outcome = visit_item(&s, &n, None, false);
    assert_eq!(outcome.first, Some(bx(90, 90, 100, 100)));
    assert_eq!(outcome.second, None);
    assert_eq!(
        outcome.next,
        ItemVisitorResult::Continue(ComputeDirtyRegionState {
            transform_to_screen: ItemTransform::translation(90, 90),
            old_transform_to_screen: ItemTransform::translation(80, 80),
            clipped: bx(0, 0, 100, 100),
            must_refresh_children: false,
        })
    );
    // An entry without tracker counts as none.
    let untracked = CachedGraphicsData {
        data: CachedItemBoundingBoxAndTransform::new::<Recorder>(&n.item),
        dependency_tracker: None,
    };
    assert_eq!(visit_item(&s, &n, Some(&untracked), false), outcome);
}

#[test]
fn visit_of_a_clean_item() {
    let n = node(clip_kind(true), rect(20, 20, 50, 50), 1, 0);
    let entry = CachedGraphicsData::new(CachedItemBoundingBoxAndTransform::new::<Recorder>(&n.item), 0);
    let s = state((0, 0), (0, 0), bx(0, 0, 100, 100), false);
    let outcome = visit_item(&s, &n, Some(&entry), false);
    assert_eq!((outcome.first, outcome.second), (None, None));
    assert_eq!(
        outcome.next,
        ItemVisitorResult::Continue(ComputeDirtyRegionState {
            transform_to_screen: ItemTransform::translation(20, 20),
            old_transform_to_screen: ItemTransform::translation(20, 20),
            clipped: bx(20, 20, 70, 70),
            must_refresh_children: false,
        })
    );
    // The parent has moved: both places are dirty, and both count for the clip.
    let s = state((40, 0), (0, 0), bx(0, 0, 100, 100), false);
    let outcome = visit_item(&s, &n, Some(&entry), false);
    assert_eq!(outcome.first, Some(bx(20, 20, 70, 70)));
    assert_eq!(outcome.second, Some(bx(60, 20, 100, 70)));
    assert_eq!(
        outcome.next,
        ItemVisitorResult::Continue(ComputeDirtyRegionState {
            transform_to_screen: ItemTransform::translation(60, 20),
            old_transform_to_screen: ItemTransform::translation(20, 20),
            clipped: bx(20, 20, 100, 70),
            must_refresh_children: false,
        })
    );
    let s = state((0, 0), (0, 0), bx(0, 0, 100, 100), true);
    let outcome = visit_item(&s, &n, Some(&entry), false);
    assert_eq!(outcome.first, Some(bx(20, 20, 70, 70)));
    assert_eq!(outcome.second, Some(bx(20, 20, 70, 70)));
    // A clip outside what is left of the screen leaves nothing.
    let s = state((0, 0), (0, 0), bx(0, 0, 10, 10), false);
    match visit_item(&s, &n, Some(&entry), false).next {
        ItemVisitorResult::Continue(children) => assert_eq!(children.clipped, bx(0, 0, 0, 0)),
        ItemVisitorResult::Stop => panic!("the children are to be visited"),
    }
}

#[test]
fn visit_of_a_changed_item() {
    let before = node(clip_kind(true), rect(20, 20, 50, 50), 1, 0);
    let entry = CachedGraphicsData::new(CachedItemBoundingBoxAndTransform::new::<Recorder>(&before.item), 0);
    let now = ItemTreeNode { item: Item::new(clip_kind(true), rect(30, 20, 50, 50)), revision: 1, ..before };
    let s = state((0, 0), (0, 0), bx(0, 0, 100, 100), false);
    let outcome = visit_item(&s, &now, Some(&entry), false);
    assert_eq!(outcome.first, Some(bx(20, 20, 70, 70)));
    assert_eq!(outcome.second, Some(bx(30, 20, 80, 70)));
    assert_eq!(
        outcome.next,
        ItemVisitorResult::Continue(ComputeDirtyRegionState {
            transform_to_screen: ItemTransform::translation(30, 20),
            old_transform_to_screen: ItemTransform::translation(20, 20),
            clipped: bx(0, 0, 100, 100),
            must_refresh_children: true,
        })
    );
    let plain = ItemTreeNode { item: Item::new(rectangle(), rect(30, 20, 50, 50)), revision: 1, ..before };
    match visit_item(&s, &plain, Some(&entry), false).next {
        ItemVisitorResult::Continue(children) => assert!(!children.must_refresh_children),
        ItemVisitorResult::Stop => panic!("the children are to be visited"),
    }
}

#[test]
fn visit_gives_up_where_the_transformation_is_too_large() {
    let n = node(rectangle(), rect(i32::MAX, 0, 5, 5), 1, 0);
    let s = state((1, 0), (0, 0), bx(0, 0, 100, 100), false);
    let outcome = visit_item(&s, &n, None, false);
    assert_eq!(outcome.first, Some(bx(0, 0, 100, 100)));
    assert_eq!(outcome.second, None);
    assert_eq!(outcome.next, ItemVisitorResult::Stop);
    let nothing = state((1, 0), (0, 0), bx(0, 0, 0, 100), false);
    assert_eq!(visit_item(&nothing, &n, None, false).first, None);
    assert_eq!(
        s.adjust_transforms_for_child(&Some(ItemTransform::translation(1, 2)), &None),
        None
    );
}

#[test]
fn dirty_box_is_transformed_and_clipped() {
    let clip = bx(0, 0, 100, 100);
    assert_eq!(dirty_box(&rect(5, 5, 10, 10), &ItemTransform::translation(50, 90), &clip), Some(bx(55, 95, 65, 100)));
    assert_eq!(dirty_box(&rect(5, 5, 10, 0), &ItemTransform::translation(50, 50), &clip), None);
    assert_eq!(dirty_box(&rect(5, 5, 10, 10), &ItemTransform::translation(100, 100), &clip), None);
    let mut cache = RenderingCache::new();
    let mut renderer = PartialRenderer::new(&mut cache, DirtyRegion::default(), Recorder::new(LogicalSize::new(1, 1)));
    renderer.mark_dirty_rect(&rect(5, 5, 10, 10), ItemTransform::translation(50, 90), &clip);
    renderer.mark_dirty_rect(&rect(5, 5, 10, 10), ItemTransform::translation(500, 95), &clip);
    assert_eq!(renderer.dirty_region.iter(), vec![bx(55, 95, 65, 100)]);
}

#[test]
fn should_draw_what_meets_the_region() {
    let region = DirtyRegion::from(rect(100, 100, 10, 10));
    let clip = rect(0, 0, 50, 50);
    assert!(should_draw(&region, &clip, &rect(40, 40, 100, 100), LogicalVector::new(55, 55)));
    assert!(!should_draw(&region, &clip, &rect(40, 40, 100, 100), LogicalVector::new(50, 50)));
    assert!(!should_draw(&region, &clip, &rect(50, 40, 100, 100), LogicalVector::new(55, 55)));
    assert!(within_clip(&clip, &rect(49, 49, 5, 5)));
    assert!(!within_clip(&clip, &rect(50, 49, 5, 5)));
}

#[test]
fn geometry_is_refreshed_where_the_item_changed() {
    let mut cache: RenderingCache<CachedItemBoundingBoxAndTransform> = RenderingCache::new();
    let mut data = CachedRenderingData::default();
    let item = Item::new(rectangle(), rect(1, 2, 3, 4));
    assert_eq!(refresh_geometry::<Recorder>(&mut cache, &mut data, &item, 0), rect(1, 2, 3, 4));
    assert_eq!(data.cache_generation, 1);
    let moved = Item::new(rectangle(), rect(5, 6, 7, 8));
    // At the same revision the entry stays as it is.
    assert_eq!(refresh_geometry::<Recorder>(&mut cache, &mut data, &moved, 0), rect(1, 2, 3, 4));
    assert_eq!(refresh_geometry::<Recorder>(&mut cache, &mut data, &moved, 1), rect(5, 6, 7, 8));
    let entry = data.peek_entry(&cache).unwrap();
    assert_eq!(entry.dependency_tracker, Some(PropertyTracker { evaluated_at: Some(1) }));
    // Rendering marks the entry as up to date and leaves its geometry alone.
    PartialRenderer::<Recorder>::do_rendering(&mut cache, &mut data, CachedItemBoundingBoxAndTransform::new::<Recorder>(&item), 2);
    let entry = data.peek_entry(&cache).unwrap();
    assert_eq!(*entry.data.bounding_rect(), rect(5, 6, 7, 8));
    assert_eq!(entry.dependency_tracker, Some(PropertyTracker { evaluated_at: Some(2) }));
    let mut other = CachedRenderingData::default();
    PartialRenderer::<Recorder>::do_rendering(&mut cache, &mut other, CachedItemBoundingBoxAndTransform::new::<Recorder>(&item), 7);
    assert_ne!(other.cache_index, data.cache_index);
    assert_eq!(*other.peek_entry(&cache).unwrap().data.bounding_rect(), rect(1, 2, 3, 4));
}

struct Dot;

impl PixmapSource for Dot {
    fn pixmap(&self) -> item_rendering::renderer::Pixmap {
        item_rendering::renderer::Pixmap { width: 1, height: 1, data: vec![0, 0, 0, 255] }
    }
}

#[test]
fn partial_renderer_hands_on_to_the_actual_renderer() {
    let mut cache = RenderingCache::new();
    let size = LogicalSize::new(100, 100);
    let mut renderer = PartialRenderer::new(&mut cache, DirtyRegion::default(), Recorder::new(size));
    let rc = ItemRc { component: 1, index: 4, revision: 0, item: Item::new(ItemKind::Empty, rect(0, 0, 1, 1)) };
    renderer.save_state();
    renderer.translate(LogicalVector::new(10, 20));
    assert_eq!(renderer.translation(), LogicalVector::new(10, 20));
    assert_eq!(renderer.get_current_clip(), rect(-10, -20, 100, 100));
    let corners = SQUARE;
    assert!(renderer.combine_clip(rect(0, 0, 10, 10), corners, 0));
    assert!(!renderer.combine_clip(rect(200, 0, 10, 10), corners, 0));
    renderer.restore_state();
    assert_eq!(renderer.translation(), LogicalVector::new(0, 0));
    renderer.rotate(Scalar { bits: 90.0f32.to_bits() });
    renderer.apply_opacity(Scalar { bits: 0.25f32.to_bits() });
    renderer.draw_cached_pixmap(&rc, &Dot);
    renderer.draw_string("fps", Color { argb: 0xff00ff00 });
    renderer.draw_image_direct(Image { id: 3 });
    assert_eq!(renderer.scale_factor(), Scalar { bits: 1.0f32.to_bits() });
    assert_eq!(renderer.window().scale_factor(), Scalar { bits: 1.0f32.to_bits() });
    let recorder = renderer.into_inner();
    assert_eq!(
        recorder.log,
        vec![
            "combine_clip 0 0 10 10",
            "combine_clip 200 0 10 10",
            "rotate 90",
            "opacity 0.25",
            "pixmap 4 1x1 4",
            "string fps ff00ff00",
            "image_direct 3",
        ]
    );
}
