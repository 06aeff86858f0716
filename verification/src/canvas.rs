//! Plain values for what is drawn: colours, rectangles and drawing steps.

use vstd::prelude::*;

verus! {

/// A colour with an alpha channel, eight bits each.
#[derive(Clone, Copy, Debug, PartialEq, Eq, Structural)]
pub struct Color {
    pub r: u8,
    pub g: u8,
    pub b: u8,
    pub a: u8,
}

impl Color {
    /// An opaque colour.
    pub fn rgb(r: u8, g: u8, b: u8) -> (c: Color)
        ensures
            c == (Color { r, g, b, a: 255 }),
    {
        Color { r, g, b, a: 255 }
    }

    /// A colour with the given alpha.
    pub fn rgba(r: u8, g: u8, b: u8, a: u8) -> (c: Color)
        ensures
            c == (Color { r, g, b, a }),
    {
        Color { r, g, b, a }
    }
}

/// A rectangle on the screen: its top-left corner and its size, in pixels.
/// `y` grows downwards, so a bar that scrolls up has a falling `y`.
#[derive(Clone, Copy, Debug, PartialEq, Eq, Structural)]
pub struct Rect {
    pub x: i32,
    pub y: i32,
    pub w: i32,
    pub h: i32,
}

/// The mathematical rectangle that a `Rect` stands for.
pub struct RectView {
    pub x: int,
    pub y: int,
    pub w: int,
    pub h: int,
}

impl RectView {
    /// The `y` of the lower edge.
    pub open spec fn bottom(self) -> int {
        self.y + self.h
    }

    /// The rectangle moved up by `step` pixels.
    pub open spec fn raised(self, step: int) -> RectView {
        RectView { x: self.x, y: self.y - step, w: self.w, h: self.h }
    }

    /// The rectangle with `step` pixels added to its height.
    pub open spec fn grown(self, step: int) -> RectView {
        RectView { x: self.x, y: self.y, w: self.w, h: self.h + step }
    }

    /// All four numbers can be held by a `Rect`.
    pub open spec fn representable(self) -> bool {
        &&& i32::MIN <= self.x <= i32::MAX
        &&& i32::MIN <= self.y <= i32::MAX
        &&& i32::MIN <= self.w <= i32::MAX
        &&& i32::MIN <= self.h <= i32::MAX
    }
}

impl View for Rect {
    type V = RectView;

    open spec fn view(&self) -> RectView {
        RectView { x: self.x as int, y: self.y as int, w: self.w as int, h: self.h as int }
    }
}

impl DeepView for Rect {
    type V = RectView;

    open spec fn deep_view(&self) -> RectView {
        self@
    }
}

impl Rect {
    /// The rectangle with the given corner and size.
    pub fn new(x: i32, y: i32, w: i32, h: i32) -> (r: Rect)
        ensures
            r@ == (RectView { x: x as int, y: y as int, w: w as int, h: h as int }),
    {
        Rect { x, y, w, h }
    }
}

/// One step of drawing a frame, to be carried out in order on a canvas that
/// keeps a current colour.
#[derive(Clone, Copy, Debug, PartialEq, Eq, Structural)]
pub enum DrawOp {
    /// Make this the current colour.
    SetColor(Color),
    /// Fill the whole canvas with the current colour.
    Clear,
    /// Fill the rectangle with the current colour.
    FillRect(Rect),
    /// Draw the one-pixel outline of the rectangle in the current colour.
    DrawRect(Rect),
    /// Copy the glyph of the key with this index into the rectangle,
    /// stretched to its size.
    Glyph { key: u32, area: Rect },
    /// Show the finished frame.
    Present,
}

/// What a `DrawOp` stands for.
pub enum DrawOpView {
    SetColor(Color),
    Clear,
    FillRect(RectView),
    DrawRect(RectView),
    Glyph { key: nat, area: RectView },
    Present,
}

impl View for DrawOp {
    type V = DrawOpView;

    open spec fn view(&self) -> DrawOpView {
        match *self {
            DrawOp::SetColor(c) => DrawOpView::SetColor(c),
            DrawOp::Clear => DrawOpView::Clear,
            DrawOp::FillRect(r) => DrawOpView::FillRect(r@),
            DrawOp::DrawRect(r) => DrawOpView::DrawRect(r@),
            DrawOp::Glyph { key, area } => DrawOpView::Glyph { key: key as nat, area: area@ },
            DrawOp::Present => DrawOpView::Present,
        }
    }
}

impl DeepView for DrawOp {
    type V = DrawOpView;

    open spec fn deep_view(&self) -> DrawOpView {
        self@
    }
}

} // verus!
