//! The items of a scene, as far as rendering them needs to know them.

use crate::lengths::{Coord, LogicalRect, LogicalSize};
use crate::transform::ItemTransform;
use vstd::prelude::*;

verus! {

/// A length in logical pixels.
pub type LogicalLength = Coord;

/// A number with a fraction, held as the 32 bits of its binary
/// representation. The library hands such numbers on and never computes
/// with them.
#[derive(Clone, Copy, Debug, PartialEq, Eq, Structural)]
pub struct Scalar {
    pub bits: u32,
}

/// The radii of the four corners of a rectangle with rounded corners.
#[derive(Clone, Copy, Debug, PartialEq, Eq, Structural)]
pub struct LogicalBorderRadius {
    pub top_left: Coord,
    pub top_right: Coord,
    pub bottom_right: Coord,
    pub bottom_left: Coord,
}

/// A colour: alpha, red, green and blue, eight bits each.
#[derive(Clone, Copy, Debug, PartialEq, Eq, Structural)]
pub struct Color {
    pub argb: u32,
}

/// What an area is filled with.
#[derive(Clone, Copy, Debug, PartialEq, Eq, Structural)]
pub enum Brush {
    SolidColor(Color),
}

/// A rectangle of whole pixels in an image.
#[derive(Clone, Copy, Debug, PartialEq, Eq, Structural)]
pub struct IntRect {
    pub x: i32,
    pub y: i32,
    pub width: i32,
    pub height: i32,
}

/// An image, known by the number under which its pixels are kept.
#[derive(Clone, Copy, Debug, PartialEq, Eq, Structural)]
pub struct Image {
    pub id: u64,
}

/// How an image is fitted into the size of its item.
#[derive(Clone, Copy, Debug, PartialEq, Eq, Structural)]
pub enum ImageFit {
    Fill,
    Contain,
    Cover,
    Preserve,
}

/// How an image is scaled.
#[derive(Clone, Copy, Debug, PartialEq, Eq, Structural)]
pub enum ImageRendering {
    Smooth,
    Pixelated,
}

#[derive(Clone, Copy, Debug, PartialEq, Eq, Structural)]
pub enum ImageHorizontalAlignment {
    Center,
    Left,
    Right,
}

#[derive(Clone, Copy, Debug, PartialEq, Eq, Structural)]
pub enum ImageVerticalAlignment {
    Center,
    Top,
    Bottom,
}

/// Whether and how an image is repeated to fill its item.
#[derive(Clone, Copy, Debug, PartialEq, Eq, Structural)]
pub enum ImageTiling {
    Off,
    Repeat,
    Round,
}

/// Whether a text is broken into lines.
#[derive(Clone, Copy, Debug, PartialEq, Eq, Structural)]
pub enum TextWrap {
    NoWrap,
    WordWrap,
    CharWrap,
}

/// The window that is rendered into, as far as rendering reads it.
#[derive(Clone, Copy, Debug, PartialEq, Eq, Structural)]
pub struct Window {
    /// How many physical pixels make one logical pixel.
    pub scale_factor: Scalar,
    /// Counts the changes of the window's properties.
    pub revision: u64,
}

impl Window {
    /// A window with the given scale factor, at its first revision.
    pub fn new(scale_factor: Scalar) -> (w: Window)
        ensures
            w == (Window { scale_factor, revision: 0 }),
    {
        Window { scale_factor, revision: 0 }
    }

    pub fn scale_factor(&self) -> (r: Scalar)
        ensures
            r == self.scale_factor,
    {
        self.scale_factor
    }

    /// Gives the window another scale factor, which counts as a change of
    /// its properties where the factor is another one than before.
    pub fn set_scale_factor(&mut self, scale_factor: Scalar)
        ensures
            final(self).scale_factor == scale_factor,
            scale_factor == old(self).scale_factor ==> final(self).revision == old(self).revision,
            scale_factor != old(self).scale_factor ==> final(self).revision != old(self).revision,
    {
        if scale_factor != self.scale_factor {
            self.scale_factor = scale_factor;
            self.revision = crate::properties::next_revision(self.revision);
        }
    }
}

/// Trait for an item that represents a rectangle to the renderer.
pub trait RenderRectangle {
    fn background(&self) -> Brush;
}

/// Trait for an item that represents a rectangle with a border to the
/// renderer.
pub trait RenderBorderRectangle {
    fn background(&self) -> Brush;

    fn border_width(&self) -> LogicalLength;

    fn border_radius(&self) -> LogicalBorderRadius;

    fn border_color(&self) -> Brush;
}

/// Trait for an item that represents an image towards the renderer.
pub trait RenderImage {
    fn target_size(&self) -> LogicalSize;

    fn source(&self) -> Image;

    fn source_clip(&self) -> Option<IntRect>;

    fn image_fit(&self) -> ImageFit;

    fn rendering(&self) -> ImageRendering;

    fn colorize(&self) -> Brush;

    fn alignment(&self) -> (ImageHorizontalAlignment, ImageVerticalAlignment);

    fn tiling(&self) -> (ImageTiling, ImageTiling);
}

/// The rectangle that a text needs: the geometry of its item, made as wide
/// and as high as the laid out text where that is larger.
pub open spec fn spec_text_bounding_rect(geometry: LogicalRect, text_size: LogicalSize) -> LogicalRect {
    LogicalRect { origin: geometry.origin, size: geometry.size.spec_max(text_size) }
}

/// Trait for an item that represents a text towards the renderer.
pub trait RenderText {
    /// The size that the text takes when it is laid out.
    spec fn spec_text_size(&self) -> LogicalSize;

    fn target_size(&self) -> LogicalSize;

    fn color(&self) -> Brush;

    fn wrap(&self) -> TextWrap;

    fn letter_spacing(&self) -> LogicalLength;

    /// The size that the text takes when it is laid out.
    fn text_size(&self) -> (r: LogicalSize)
        ensures
            r == self.spec_text_size(),
    ;

    /// The rectangle that the text needs: the geometry of its item, made as
    /// wide and as high as the laid out text where that is larger.
    fn text_bounding_rect(&self, geometry: LogicalRect) -> (r: LogicalRect)
        ensures
            r == spec_text_bounding_rect(geometry, self.spec_text_size()),
    {
        let mut geometry = geometry;
        geometry.size = geometry.size.max(&self.text_size());
        geometry
    }
}

/// An item that fills its geometry.
#[derive(Clone, Copy, Debug, PartialEq, Eq, Structural)]
pub struct Rectangle {
    pub background: Brush,
}

/// An item that fills its geometry and draws a border around it.
#[derive(Clone, Copy, Debug, PartialEq, Eq, Structural)]
pub struct BorderRectangle {
    pub background: Brush,
    pub border_width: LogicalLength,
    pub border_radius: LogicalBorderRadius,
    pub border_color: Brush,
}

/// An item that shows an image.
#[derive(Clone, Copy, Debug, PartialEq, Eq, Structural)]
pub struct ImageItem {
    pub target_size: LogicalSize,
    pub source: Image,
    pub source_clip: Option<IntRect>,
    pub image_fit: ImageFit,
    pub rendering: ImageRendering,
    pub colorize: Brush,
    pub horizontal_alignment: ImageHorizontalAlignment,
    pub vertical_alignment: ImageVerticalAlignment,
    pub horizontal_tiling: ImageTiling,
    pub vertical_tiling: ImageTiling,
}

/// An item that shows a text.
#[derive(Clone, Copy, Debug, PartialEq, Eq, Structural)]
pub struct Text {
    pub target_size: LogicalSize,
    /// The size that the text takes when it is laid out.
    pub text_size: LogicalSize,
    pub color: Brush,
    pub wrap: TextWrap,
    pub letter_spacing: LogicalLength,
}

/// An item in which a text is edited.
#[derive(Clone, Copy, Debug, PartialEq, Eq, Structural)]
pub struct TextInput {
    pub color: Brush,
}

/// An item that draws a path.
#[derive(Clone, Copy, Debug, PartialEq, Eq, Structural)]
pub struct Path {
    pub fill: Brush,
    pub stroke: Brush,
    pub stroke_width: LogicalLength,
}

/// An item that draws the shadow of a box.
#[derive(Clone, Copy, Debug, PartialEq, Eq, Structural)]
pub struct BoxShadow {
    pub border_radius: LogicalLength,
    pub offset_x: LogicalLength,
    pub offset_y: LogicalLength,
    pub color: Color,
    pub blur: LogicalLength,
}

/// An item that clips its children to its geometry.
#[derive(Clone, Copy, Debug, PartialEq, Eq, Structural)]
pub struct Clip {
    /// Whether the item clips at present.
    pub clip: bool,
    pub border_radius: LogicalBorderRadius,
    pub border_width: LogicalLength,
}

/// An item that makes its children translucent.
#[derive(Clone, Copy, Debug, PartialEq, Eq, Structural)]
pub struct Opacity {
    pub opacity: Scalar,
}

/// An item whose children are rendered into a layer of their own.
#[derive(Clone, Copy, Debug, PartialEq, Eq, Structural)]
pub struct Layer {
    pub cache_rendering_hint: bool,
}

impl RenderRectangle for Rectangle {
    fn background(&self) -> (r: Brush)
        ensures
            r == self.background,
    {
        self.background
    }
}

impl RenderBorderRectangle for BorderRectangle {
    fn background(&self) -> (r: Brush)
        ensures
            r == self.background,
    {
        self.background
    }

    fn border_width(&self) -> (r: LogicalLength)
        ensures
            r == self.border_width,
    {
        self.border_width
    }

    fn border_radius(&self) -> (r: LogicalBorderRadius)
        ensures
            r == self.border_radius,
    {
        self.border_radius
    }

    fn border_color(&self) -> (r: Brush)
        ensures
            r == self.border_color,
    {
        self.border_color
    }
}

impl RenderImage for ImageItem {
    fn target_size(&self) -> (r: LogicalSize)
        ensures
            r == self.target_size,
    {
        self.target_size
    }

    fn source(&self) -> (r: Image)
        ensures
            r == self.source,
    {
        self.source
    }

    fn source_clip(&self) -> (r: Option<IntRect>)
        ensures
            r == self.source_clip,
    {
        self.source_clip
    }

    fn image_fit(&self) -> (r: ImageFit)
        ensures
            r == self.image_fit,
    {
        self.image_fit
    }

    fn rendering(&self) -> (r: ImageRendering)
        ensures
            r == self.rendering,
    {
        self.rendering
    }

    fn colorize(&self) -> (r: Brush)
        ensures
            r == self.colorize,
    {
        self.colorize
    }

    fn alignment(&self) -> (r: (ImageHorizontalAlignment, ImageVerticalAlignment))
        ensures
            r == (self.horizontal_alignment, self.vertical_alignment),
    {
        (self.horizontal_alignment, self.vertical_alignment)
    }

    fn tiling(&self) -> (r: (ImageTiling, ImageTiling))
        ensures
            r == (self.horizontal_tiling, self.vertical_tiling),
    {
        (self.horizontal_tiling, self.vertical_tiling)
    }
}

impl RenderText for Text {
    open spec fn spec_text_size(&self) -> LogicalSize {
        self.text_size
    }

    fn target_size(&self) -> (r: LogicalSize)
        ensures
            r == self.target_size,
    {
        self.target_size
    }

    fn color(&self) -> (r: Brush)
        ensures
            r == self.color,
    {
        self.color
    }

    fn wrap(&self) -> (r: TextWrap)
        ensures
            r == self.wrap,
    {
        self.wrap
    }

    fn letter_spacing(&self) -> (r: LogicalLength)
        ensures
            r == self.letter_spacing,
    {
        self.letter_spacing
    }

    fn text_size(&self) -> (r: LogicalSize) {
        self.text_size
    }
}

/// What an item is, with the properties that belong to its kind.
#[derive(Clone, Copy, Debug, PartialEq, Eq, Structural)]
pub enum ItemKind {
    /// An item that draws nothing itself.
    Empty,
    Rectangle(Rectangle),
    BorderRectangle(BorderRectangle),
    WindowBackground(Rectangle),
    Image(ImageItem),
    Text(Text),
    TextInput(TextInput),
    Path(Path),
    BoxShadow(BoxShadow),
    Clip(Clip),
    Opacity(Opacity),
    Layer(Layer),
}

/// An item: what it is, where it is, and what it does to its children.
#[derive(Clone, Copy, Debug, PartialEq, Eq, Structural)]
pub struct Item {
    pub kind: ItemKind,
    /// The place of the item, relative to its parent.
    pub geometry: LogicalRect,
    /// A transformation other than a translation that the item imposes on its
    /// children, if it has one.
    pub children_transform: Option<ItemTransform>,
}

impl Item {
    /// The item restricts the painting of its children to its geometry.
    pub open spec fn spec_clips_children(self) -> bool {
        self.kind matches ItemKind::Clip(c) && c.clip
    }

    /// The rectangle that encloses what the item paints, relative to its
    /// parent like the geometry.
    pub open spec fn spec_bounding_rect(self, geometry: LogicalRect) -> LogicalRect {
        match self.kind {
            ItemKind::Text(text) => spec_text_bounding_rect(geometry, text.text_size),
            _ => geometry,
        }
    }

    pub fn new(kind: ItemKind, geometry: LogicalRect) -> (item: Item)
        ensures
            item == (Item { kind, geometry, children_transform: None }),
    {
        Item { kind, geometry, children_transform: None }
    }

    pub fn geometry(&self) -> (r: LogicalRect)
        ensures
            r == self.geometry,
    {
        self.geometry
    }

    /// Whether the item restricts the painting of its children to its
    /// geometry.
    pub fn clips_children(&self) -> (r: bool)
        ensures
            r == self.spec_clips_children(),
    {
        match self.kind {
            ItemKind::Clip(c) => c.clip,
            _ => false,
        }
    }

    /// The rectangle that encloses what the item paints, given its geometry.
    pub fn bounding_rect(&self, geometry: &LogicalRect) -> (r: LogicalRect)
        ensures
            r == self.spec_bounding_rect(*geometry),
    {
        match self.kind {
            ItemKind::Text(text) => text.text_bounding_rect(*geometry),
            _ => *geometry,
        }
    }

    pub fn children_transform(&self) -> (r: Option<ItemTransform>)
        ensures
            r == self.children_transform,
    {
        self.children_transform
    }
}

} // verus!
