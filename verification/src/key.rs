//! One watched key: whether it is down, and the bars that record when it was.
//!
//! A bar is appended at the tile when the key goes down, grows while the key
//! stays down, and keeps its height once the key is up. Every bar scrolls
//! upwards frame by frame, from the frame that appends it on, and the oldest
//! is dropped once it has left the window.

use crate::canvas::{Color, DrawOp, DrawOpView, Rect, RectView};
use crate::config::{Config, ConfigView};
use crate::keycode::keycode_eq;
use crate::layout::{border_rect, check_tile, glyph_rect, tile, tile_fits, tile_rect};
use device_query::Keycode;
use vstd::prelude::*;

verus! {

/// What stays of a key for its whole life: its place in the row, its tile,
/// and the configuration that says how it is drawn.
struct Tile {
    container: Rect,
    config: Config,
    index: u32,
}

impl Tile {
    /// The tile is where the layout puts it, and it can be drawn.
    #[verifier::type_invariant]
    spec fn fits(&self) -> bool {
        &&& self.container@ == tile_rect(
            self.index as nat,
            self.config@.key.size,
            self.config@.window.height,
        )
        &&& tile_fits(
            self.index as nat,
            self.config@.key.size,
            self.config@.key.border_width,
            self.config@.window.height,
        )
    }
}

/// A key of the overlay.
pub struct Key {
    is_pressed: bool,
    changed: bool,
    bars: Vec<Rect>,
    tile: Tile,
    keycode: Keycode,
}

/// What a `Key` holds.
pub struct KeyView {
    /// The key was down when it was last sampled.
    pub is_pressed: bool,
    /// The last sample differed from the one before.
    pub changed: bool,
    /// The bars, oldest first.
    pub bars: Seq<RectView>,
    /// The key's tile.
    pub container: RectView,
    /// The configuration that the key was made with.
    pub config: ConfigView,
    /// The key that is watched.
    pub keycode: Keycode,
    /// The key's place in the row of tiles, counted from 0.
    pub index: nat,
}

impl KeyView {
    /// A key that has not been sampled yet: up, and without bars.
    pub open spec fn fresh(index: nat, config: ConfigView, keycode: Keycode) -> KeyView {
        KeyView {
            is_pressed: false,
            changed: false,
            bars: Seq::empty(),
            container: tile_rect(index, config.key.size, config.window.height),
            config,
            keycode,
            index,
        }
    }

    /// The tile is where the layout puts it, and it can be drawn.
    pub open spec fn wf(self) -> bool {
        &&& self.container == tile_rect(self.index, self.config.key.size, self.config.window.height)
        &&& tile_fits(
            self.index,
            self.config.key.size,
            self.config.key.border_width,
            self.config.window.height,
        )
    }

    /// The key after a sample that found it down (`pressed`) or up.
    pub open spec fn sampled(self, pressed: bool) -> KeyView {
        KeyView { is_pressed: pressed, changed: self.is_pressed != pressed, ..self }
    }

    /// The key has just gone down.
    pub open spec fn press_edge(self) -> bool {
        self.changed && self.is_pressed
    }

    /// The key is down and was down before.
    pub open spec fn held(self) -> bool {
        !self.changed && self.is_pressed
    }

    /// The oldest bar has left the window: its lower edge is at or above
    /// the window's upper edge.
    pub open spec fn oldest_is_gone(self) -> bool {
        self.bars.len() > 0 && self.bars[0].bottom() <= 0
    }

    /// The key without its oldest bar, if that bar has left the window.
    pub open spec fn pruned(self) -> KeyView {
        if self.oldest_is_gone() {
            KeyView { bars: self.bars.drop_first(), ..self }
        } else {
            self
        }
    }

    /// The bar that a press starts, before it scrolls: as wide as the
    /// tile, at the tile's upper edge, without height.
    pub open spec fn new_bar(self) -> RectView {
        RectView {
            x: self.container.x,
            y: self.container.y,
            w: self.config.key.size as int,
            h: 0,
        }
    }

    /// The bars, each moved up by `step`.
    pub open spec fn raised_bars(self, step: int) -> Seq<RectView> {
        Seq::new(self.bars.len(), |i: int| self.bars[i].raised(step))
    }

    /// The bars of a frame before they scroll: a key that has just gone
    /// down has a new bar at its tile, and a key that is held has its newest
    /// bar grown by `step`; if it has no bar, there is nothing to grow.
    pub open spec fn grown_bars(self, step: int) -> Seq<RectView> {
        if self.press_edge() {
            self.bars.push(self.new_bar())
        } else if self.held() && self.bars.len() > 0 {
            self.bars.update(self.bars.len() - 1, self.bars.last().grown(step))
        } else {
            self.bars
        }
    }

    /// The bars after a frame in which everything scrolls up by `step`:
    /// the bars of `grown_bars`, each moved up by `step`. The bar that the
    /// frame appends moves with the others, so it ends the frame `step`
    /// above the tile's upper edge.
    pub open spec fn advanced_bars(self, step: int) -> Seq<RectView> {
        (KeyView { bars: self.grown_bars(step), ..self }).raised_bars(step)
    }

    /// The key after such a frame.
    pub open spec fn advanced(self, step: int) -> KeyView {
        KeyView { bars: self.advanced_bars(step), ..self }
    }

    /// A frame that scrolls by `step` can be taken: every bar can still be
    /// held in a `Rect` afterwards.
    pub open spec fn can_advance(self, step: int) -> bool {
        forall|i: int|
            0 <= i < self.advanced_bars(step).len() ==> (#[trigger] self.advanced_bars(
                step,
            )[i]).representable()
    }

    /// The steps that draw the first `count` outlines of the border, from
    /// the outermost inwards.
    pub open spec fn border_ops(self, count: nat) -> Seq<DrawOpView>
        decreases count,
    {
        if count == 0 {
            Seq::empty()
        } else {
            let inset = (count - 1) as nat;
            self.border_ops(inset) + seq![
                DrawOpView::SetColor(self.config.key.border_color),
                DrawOpView::DrawRect(border_rect(self.container, self.config.key.size, inset)),
            ]
        }
    }

    /// The step that draws the key's glyph in the middle of the tile.
    pub open spec fn glyph_op(self) -> DrawOpView {
        DrawOpView::Glyph {
            key: self.index,
            area: glyph_rect(self.container, self.config.key.size),
        }
    }

    /// The steps that draw the tile: filled with `color` if the key is
    /// down, then the border, then the glyph.
    pub open spec fn tile_ops(self, color: Color) -> Seq<DrawOpView> {
        let fill = if self.is_pressed {
            seq![DrawOpView::SetColor(color), DrawOpView::FillRect(self.container)]
        } else {
            Seq::empty()
        };
        fill + self.border_ops(self.config.key.border_width) + seq![self.glyph_op()]
    }

    /// The steps that draw the first `count` bars, oldest first: each is
    /// outlined and filled in the tile colour.
    pub open spec fn bar_ops(self, count: nat) -> Seq<DrawOpView>
        decreases count,
    {
        if count == 0 {
            Seq::empty()
        } else {
            let bar = self.bars[count - 1];
            self.bar_ops((count - 1) as nat) + seq![
                DrawOpView::SetColor(self.config.key.tile_color),
                DrawOpView::DrawRect(bar),
                DrawOpView::FillRect(bar),
            ]
        }
    }

    /// The steps that draw the key: its tile, then its bars.
    pub open spec fn draw_ops(self) -> Seq<DrawOpView> {
        self.tile_ops(self.config.key.tile_color) + self.bar_ops(self.bars.len())
    }
}

impl View for Key {
    type V = KeyView;

    closed spec fn view(&self) -> KeyView {
        KeyView {
            is_pressed: self.is_pressed,
            changed: self.changed,
            bars: self.bars.deep_view(),
            container: self.tile.container@,
            config: self.tile.config@,
            keycode: self.keycode,
            index: self.tile.index as nat,
        }
    }
}

impl DeepView for Key {
    type V = KeyView;

    open spec fn deep_view(&self) -> KeyView {
        self@
    }
}

impl Key {
    /// The key at `index` of the row, watching `keycode`. It is up and has
    /// no bars.
    pub fn new(index: u32, config: Config, keycode: Keycode) -> (key: Key)
        requires
            tile_fits(
                index as nat,
                config@.key.size,
                config@.key.border_width,
                config@.window.height,
            ),
        ensures
            key@ == KeyView::fresh(index as nat, config@, keycode),
            key@.wf(),
    {
        let container = tile(index, config.key.size, config.window.height);
        let key = Key {
            is_pressed: false,
            changed: false,
            bars: Vec::new(),
            tile: Tile { container, config, index },
            keycode,
        };
        assert(key.bars.deep_view() =~= Seq::empty());
        key
    }

    /// Whether `Key::new` can be called with this index and configuration.
    pub fn fits(index: u32, config: &Config) -> (ok: bool)
        ensures
            ok == tile_fits(
                index as nat,
                config@.key.size,
                config@.key.border_width,
                config@.window.height,
            ),
    {
        check_tile(index, config.key.size, config.key.border_width, config.window.height)
    }

    /// Takes a sample of the keyboard: the key is down if it is among the
    /// keys in `state`.
    pub fn update_state(&mut self, state: &Vec<Keycode>)
        ensures
            final(self)@ == old(self)@.sampled(state@.contains(old(self)@.keycode)),
    {
        let prev_state = self.is_pressed;
        let found = self.watches_one_of(state);
        self.is_pressed = found;
        self.changed = prev_state != self.is_pressed;
    }

    /// Drops the oldest bar if it has left the window. No other bar is
    /// looked at.
    pub fn remove_invisible_bar(&mut self)
        ensures
            final(self)@ == old(self)@.pruned(),
    {
        if self.bars.len() > 0 {
            let bar = self.bars[0];
            if bar.y as i64 + bar.h as i64 <= 0 {
                self.bars.remove(0);
                assert(self.bars.deep_view() =~= old(self).bars.deep_view().drop_first());
            }
        }
    }

    /// Lets a frame pass in which everything scrolls up by `step` pixels.
    /// A key that has just gone down gets a new bar of height 0 at its
    /// tile, and a key that is held has its newest bar grow by `step`; a
    /// held key without bars stays without. Then every bar moves up by
    /// `step`, the new one too.
    pub fn update_bars(&mut self, step: i32)
        requires
            old(self)@.can_advance(step as int),
        ensures
            final(self)@ == old(self)@.advanced(step as int),
    {
        let ghost before = self@;
        let ghost grown = before.grown_bars(step as int);
        let ghost after = before.advanced_bars(step as int);
        if self.changed && self.is_pressed {
            assert(after[before.bars.len() as int].representable());
            let bar = Rect::new(
                self.tile.container.x,
                self.tile.container.y,
                self.tile.config.key.size as i32,
                0,
            );
            self.bars.push(bar);
        } else if !self.changed && self.is_pressed && self.bars.len() > 0 {
            let n = self.bars.len();
            let last = self.bars[n - 1];
            assert(after[n - 1].representable());
            self.bars.set(n - 1, Rect { x: last.x, y: last.y, w: last.w, h: last.h + step });
        }
        assert(self@.bars =~= grown);
        assert forall|i: int| 0 <= i < grown.len() implies (#[trigger] self@.raised_bars(
            step as int,
        )[i]).representable() by {
            assert(after[i].representable());
        }
        self.update_bars_pos(step);
    }

    /// Whether `update_bars` can be called with this `step`.
    pub fn can_advance(&self, step: i32) -> (ok: bool)
        ensures
            ok == self@.can_advance(step as int),
    {
        assert(self@.bars.skip(0) =~= self@.bars);
        self.check_advance(self.is_pressed, self.changed, 0, step)
    }

    /// Whether the key can take a whole frame: the sample `state`, the
    /// dropping of a bar that has left the window, and the scrolling by
    /// `step`.
    pub fn can_take_frame(&self, state: &Vec<Keycode>, step: i32) -> (ok: bool)
        ensures
            ok == self@.sampled(state@.contains(self@.keycode)).pruned().can_advance(step as int),
    {
        let pressed = self.watches_one_of(state);
        let changed = self.is_pressed != pressed;
        let mut from: usize = 0;
        if self.bars.len() > 0 {
            let bar = self.bars[0];
            if bar.y as i64 + bar.h as i64 <= 0 {
                from = 1;
            }
        }
        assert(from == 0 ==> self@.bars.skip(0) =~= self@.bars);
        self.check_advance(pressed, changed, from, step)
    }

    /// The steps that draw the key: the tile, filled if the key is down,
    /// with its border and glyph, then every bar, oldest first.
    pub fn draw(&self) -> (ops: Vec<DrawOp>)
        ensures
            ops.deep_view() == self@.draw_ops(),
    {
        proof {
            use_type_invariant(&self.tile);
        }
        let mut ops = self.draw_key(self.tile.config.key.tile_color);
        let ghost tile = ops.deep_view();
        let mut i: usize = 0;
        while i < self.bars.len()
            invariant
                i <= self.bars.len(),
                ops.deep_view() == tile + self@.bar_ops(i as nat),
            decreases self.bars.len() - i,
        {
            let bar = self.bars[i];
            let ghost before = ops.deep_view();
            ops.push(DrawOp::SetColor(self.tile.config.key.tile_color));
            ops.push(DrawOp::DrawRect(bar));
            ops.push(DrawOp::FillRect(bar));
            assert(ops.deep_view() =~= before + seq![
                DrawOpView::SetColor(self@.config.key.tile_color),
                DrawOpView::DrawRect(self@.bars[i as int]),
                DrawOpView::FillRect(self@.bars[i as int]),
            ]);
            i += 1;
        }
        ops
    }

    /// Whether the key was down at the last sample.
    pub fn is_pressed(&self) -> (pressed: bool)
        ensures
            pressed == self@.is_pressed,
    {
        self.is_pressed
    }

    /// Whether the last sample differed from the one before.
    pub fn changed(&self) -> (changed: bool)
        ensures
            changed == self@.changed,
    {
        self.changed
    }

    /// The bars, oldest first.
    pub fn bars(&self) -> (bars: &Vec<Rect>)
        ensures
            bars.deep_view() == self@.bars,
    {
        &self.bars
    }

    /// The key's tile.
    pub fn container(&self) -> (tile: Rect)
        ensures
            tile@ == self@.container,
    {
        self.tile.container
    }

    /// The key that is watched.
    pub fn keycode(&self) -> (keycode: Keycode)
        ensures
            keycode == self@.keycode,
    {
        self.keycode
    }

    /// Moves every bar up by `step` pixels.
    fn update_bars_pos(&mut self, step: i32)
        requires
            forall|i: int|
                0 <= i < old(self)@.bars.len() ==> (#[trigger] old(self)@.raised_bars(
                    step as int,
                )[i]).representable(),
        ensures
            final(self)@ == (KeyView { bars: old(self)@.raised_bars(step as int), ..old(self)@ }),
    {
        let ghost before = self@;
        let mut i: usize = 0;
        while i < self.bars.len()
            invariant
                i <= self.bars.len(),
                self.bars.len() == before.bars.len(),
                self@ == (KeyView { bars: self@.bars, ..before }),
                before == old(self)@,
                forall|j: int|
                    0 <= j < i ==> (#[trigger] self.bars@[j])@ == before.raised_bars(
                        step as int,
                    )[j],
                forall|j: int|
                    i <= j < self.bars.len() ==> #[trigger] self.bars@[j] == old(self).bars@[j],
                forall|j: int|
                    0 <= j < before.bars.len() ==> (#[trigger] before.raised_bars(
                        step as int,
                    )[j]).representable(),
            decreases self.bars.len() - i,
        {
            let bar = self.bars[i];
            assert(before.raised_bars(step as int)[i as int] == bar@.raised(step as int));
            self.bars.set(i, Rect { x: bar.x, y: bar.y - step, w: bar.w, h: bar.h });
            i += 1;
        }
        assert(self@.bars =~= before.raised_bars(step as int));
    }

    /// Whether a key like this one, but with the given two flags and
    /// without its `from` oldest bars, can take a frame that scrolls by
    /// `step`.
    fn check_advance(&self, pressed: bool, changed: bool, from: usize, step: i32) -> (ok: bool)
        requires
            from <= self@.bars.len(),
        ensures
            ok == (KeyView {
                is_pressed: pressed,
                changed,
                bars: self@.bars.skip(from as int),
                ..self@
            }).can_advance(step as int),
    {
        let ghost key = KeyView {
            is_pressed: pressed,
            changed,
            bars: self@.bars.skip(from as int),
            ..self@
        };
        let ghost after = key.advanced_bars(step as int);
        let n = self.bars.len();
        let press_edge = changed && pressed;
        let held = !changed && pressed;
        let mut i: usize = from;
        while i < n
            invariant
                from <= i <= n,
                n == self.bars.len(),
                key == (KeyView {
                    is_pressed: pressed,
                    changed,
                    bars: self@.bars.skip(from as int),
                    ..self@
                }),
                after == key.advanced_bars(step as int),
                forall|j: int|
                    0 <= j < i - from ==> i32::MIN <= (#[trigger] after[j]).y <= i32::MAX,
            decreases n - i,
        {
            let bar = self.bars[i];
            let y = bar.y as i64 - step as i64;
            assert(after[i - from].y == bar@.y - step);
            if y < i32::MIN as i64 || y > i32::MAX as i64 {
                assert(!after[i - from].representable());
                return false;
            }
            i += 1;
        }
        let ghost count = n - from;
        // What is left to ask is the bar that the frame appends or grows.
        let fits = if press_edge {
            let y = self.tile.container.y as i64 - step as i64;
            self.tile.config.key.size <= i32::MAX as u32 && i32::MIN as i64 <= y && y
                <= i32::MAX as i64
        } else if held && n > from {
            let h = self.bars[n - 1].h as i64 + step as i64;
            i32::MIN as i64 <= h && h <= i32::MAX as i64
        } else {
            true
        };
        proof {
            let newest = after.len() - 1;
            if fits {
                assert forall|j: int| 0 <= j < after.len() implies (
                #[trigger] after[j]).representable() by {
                    if j < count {
                        assert(key.bars[j] == self.bars@[j + from]@);
                    }
                }
            } else {
                assert(!after[newest].representable());
            }
        }
        fits
    }

    /// Whether the watched key is among the keys in `state`.
    fn watches_one_of(&self, state: &Vec<Keycode>) -> (found: bool)
        ensures
            found == state@.contains(self@.keycode),
    {
        let mut found = false;
        let mut i: usize = 0;
        while i < state.len()
            invariant
                i <= state.len(),
                found == exists|j: int| 0 <= j < i && state@[j] == self.keycode,
            decreases state.len() - i,
        {
            if keycode_eq(&state[i], &self.keycode) {
                found = true;
            }
            i += 1;
        }
        found
    }

    /// The steps that draw the tile: filled with `color` if the key is
    /// down, then the border, one outline inside the other, then the glyph.
    fn draw_key(&self, color: Color) -> (ops: Vec<DrawOp>)
        ensures
            ops.deep_view() == self@.tile_ops(color),
    {
        proof {
            use_type_invariant(&self.tile);
        }
        let size = self.tile.config.key.size;
        let mut ops: Vec<DrawOp> = Vec::new();
        if self.is_pressed {
            let r = Rect::new(
                self.tile.container.x,
                self.tile.container.y,
                size as i32,
                size as i32,
            );
            ops.push(DrawOp::SetColor(color));
            ops.push(DrawOp::FillRect(r));
        }
        let ghost fill = ops.deep_view();
        let border_width = self.tile.config.key.border_width;
        let mut i: u32 = 0;
        while i < border_width
            invariant
                i <= border_width,
                self@.wf(),
                size == self.tile.config.key.size,
                border_width == self.tile.config.key.border_width,
                ops.deep_view() == fill + self@.border_ops(i as nat),
            decreases border_width - i,
        {
            assert(border_rect(self@.container, size as nat, i as nat).representable());
            let side = size - 2 * i;
            let r = Rect::new(
                self.tile.container.x + i as i32,
                self.tile.container.y + i as i32 + 1,
                side as i32,
                side as i32,
            );
            let ghost before = ops.deep_view();
            ops.push(DrawOp::SetColor(self.tile.config.key.border_color));
            ops.push(DrawOp::DrawRect(r));
            assert(ops.deep_view() =~= before + seq![
                DrawOpView::SetColor(self@.config.key.border_color),
                DrawOpView::DrawRect(border_rect(self@.container, size as nat, i as nat)),
            ]);
            i += 1;
        }
        let ghost before = ops.deep_view();
        let glyph = self.draw_code();
        ops.push(glyph);
        assert(ops.deep_view() =~= before + seq![self@.glyph_op()]);
        ops
    }

    /// The step that draws the glyph in the middle of the tile.
    fn draw_code(&self) -> (op: DrawOp)
        ensures
            op@ == self@.glyph_op(),
    {
        proof {
            use_type_invariant(&self.tile);
        }
        let size = self.tile.config.key.size;
        let w = size / 5;
        let h = size / 3;
        let area = Rect::new(
            self.tile.container.x + ((size - w) / 2) as i32,
            self.tile.container.y + ((size - h) / 2) as i32,
            w as i32,
            h as i32,
        );
        DrawOp::Glyph { key: self.tile.index, area }
    }
}

} // verus!
