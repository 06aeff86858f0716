//! The overlay as a whole: its keys, and what happens in one turn of the
//! frame loop.
//!
//! The loop itself belongs to the program: it looks for a request to quit,
//! polls the keyboard, hands both to `App::run`, carries out the drawing
//! steps it gets back, and reports with `App::set_delta` how far the bars
//! are to scroll for the time that the frame took.

use crate::canvas::{Color, DrawOp, DrawOpView};
use crate::config::{Config, ConfigView};
use crate::key::{Key, KeyView};
use crate::keycode::{all_known, keycodes_named, parse_keycodes, unknown_key_message};
use crate::layout::{check_row, row_fits, tile_fits, width_of_window, window_width};
use crate::timeline::Frame;
use device_query::Keycode;
use vstd::prelude::*;

verus! {

/// The overlay.
pub struct App {
    keys: Vec<Key>,
    width: u32,
    delta: i32,
}

/// What an `App` holds.
pub struct AppView {
    /// The keys, left to right.
    pub keys: Seq<KeyView>,
    /// The width of the window, in pixels.
    pub width: nat,
    /// How far the bars scroll in the next frame, in pixels.
    pub delta: int,
}

/// The colour that a frame is cleared to.
pub open spec fn background() -> Color {
    Color { r: 0, g: 0, b: 0, a: 255 }
}

impl AppView {
    /// The overlay before its first frame: one fresh key for each keycode,
    /// and nothing to scroll yet.
    pub open spec fn started(config: ConfigView, keycodes: Seq<Keycode>) -> AppView {
        AppView {
            keys: Seq::new(
                keycodes.len(),
                |i: int| KeyView::fresh(i as nat, config, keycodes[i]),
            ),
            width: window_width(keycodes.len(), config.key.size),
            delta: 0,
        }
    }

    /// The frame that the sample `state` and the scrolling by `step` make
    /// for the key at `i`.
    pub open spec fn frame_of(self, i: int, state: Seq<Keycode>, step: int) -> Frame {
        Frame { pressed: state.contains(self.keys[i].keycode), step }
    }

    /// The overlay after every key has taken that frame.
    pub open spec fn updated(self, state: Seq<Keycode>, step: int) -> AppView {
        AppView {
            keys: Seq::new(
                self.keys.len(),
                |i: int| self.keys[i].after_frame(self.frame_of(i, state, step)),
            ),
            ..self
        }
    }

    /// Every key can take that frame.
    pub open spec fn can_update(self, state: Seq<Keycode>, step: int) -> bool {
        forall|i: int|
            0 <= i < self.keys.len() ==> (#[trigger] self.keys[i]).sampled(
                state.contains(self.keys[i].keycode),
            ).pruned().can_advance(step)
    }

    /// The overlay after one turn of the frame loop: unchanged by a
    /// request to quit, else updated by the sample, scrolling as far as
    /// `delta` says.
    pub open spec fn after_turn(self, quit: bool, state: Seq<Keycode>) -> AppView {
        if quit {
            self
        } else {
            self.updated(state, self.delta)
        }
    }

    /// The steps that draw the first `count` keys, left to right.
    pub open spec fn key_ops(self, count: nat) -> Seq<DrawOpView>
        decreases count,
    {
        if count == 0 {
            Seq::empty()
        } else {
            self.key_ops((count - 1) as nat) + self.keys[count - 1].draw_ops()
        }
    }

    /// The steps that draw a frame: clear to black, draw every key, show.
    pub open spec fn draw_ops(self) -> Seq<DrawOpView> {
        seq![DrawOpView::SetColor(background()), DrawOpView::Clear] + self.key_ops(self.keys.len())
            + seq![DrawOpView::Present]
    }
}

impl View for App {
    type V = AppView;

    closed spec fn view(&self) -> AppView {
        AppView { keys: self.keys.deep_view(), width: self.width as nat, delta: self.delta as int }
    }
}

impl App {
    /// The overlay for a configuration. It fails, with the text
    /// "failed to parse keycode", if one of the configured names is not
    /// the name of a key, and then nothing else has been done.
    pub fn new(config: Config) -> (r: Result<App, String>)
        requires
            row_fits(
                config@.key.codes.len(),
                config@.key.size,
                config@.key.border_width,
                config@.window.height,
            ),
        ensures
            match r {
                Ok(app) => {
                    &&& all_known(config@.key.codes)
                    &&& app@ == AppView::started(config@, keycodes_named(config@.key.codes))
                },
                Err(e) => !all_known(config@.key.codes) && e@ == unknown_key_message(),
            },
    {
        match parse_keycodes(&config.key.codes) {
            Ok(keycodes) => Ok(App::with_keycodes(config, keycodes)),
            Err(e) => Err(e),
        }
    }

    /// Whether an overlay can be made of this configuration: see `row_fits`.
    pub fn fits(config: &Config) -> (ok: bool)
        ensures
            ok == row_fits(
                config@.key.codes.len(),
                config@.key.size,
                config@.key.border_width,
                config@.window.height,
            ),
    {
        check_row(
            config.key.codes.len(),
            config.key.size,
            config.key.border_width,
            config.window.height,
        )
    }

    /// The overlay that watches `keycodes`, one tile for each, in their
    /// order. The key names of the configuration are not looked at.
    pub fn with_keycodes(config: Config, keycodes: Vec<Keycode>) -> (app: App)
        requires
            row_fits(
                keycodes@.len(),
                config@.key.size,
                config@.key.border_width,
                config@.window.height,
            ),
        ensures
            app@ == AppView::started(config@, keycodes@),
    {
        let ghost started = AppView::started(config@, keycodes@);
        let width = width_of_window(keycodes.len(), config.key.size);
        let mut keys: Vec<Key> = Vec::new();
        let mut i: usize = 0;
        while i < keycodes.len()
            invariant
                i <= keycodes.len(),
                row_fits(
                    keycodes@.len(),
                    config@.key.size,
                    config@.key.border_width,
                    config@.window.height,
                ),
                started == AppView::started(config@, keycodes@),
                keys@.len() == i,
                forall|j: int| 0 <= j < i ==> (#[trigger] keys@[j])@ == started.keys[j],
            decreases keycodes.len() - i,
        {
            let key = Key::new(i as u32, config.clone(), keycodes[i]);
            keys.push(key);
            i += 1;
        }
        let app = App { keys, width, delta: 0 };
        assert(app@.keys =~= started.keys);
        app
    }

    /// One turn of the frame loop. A request to quit ends the loop: nothing
    /// changes and nothing is drawn. Otherwise every key takes a frame,
    /// scrolling by the distance that was last given to `set_delta` (by
    /// nothing, if none was given yet), and the steps that draw the frame
    /// are returned.
    pub fn run(&mut self, quit: bool, state: &Vec<Keycode>) -> (frame: Option<Vec<DrawOp>>)
        requires
            !quit ==> old(self)@.can_update(state@, old(self)@.delta),
        ensures
            final(self)@ == old(self)@.after_turn(quit, state@),
            match frame {
                Some(ops) => !quit && ops.deep_view() == final(self)@.draw_ops(),
                None => quit,
            },
    {
        if quit {
            return None;
        }
        self.update(state, self.delta);
        Some(self.draw())
    }

    /// Whether `run` can be called with this request and sample.
    pub fn can_run(&self, quit: bool, state: &Vec<Keycode>) -> (ok: bool)
        ensures
            ok == (!quit ==> self@.can_update(state@, self@.delta)),
    {
        quit || self.can_update(state, self.delta)
    }

    /// Sets how far the bars scroll in the next frame: the pixels that
    /// they cover in the time that the last frame took.
    pub fn set_delta(&mut self, step: i32)
        ensures
            final(self)@ == (AppView { delta: step as int, ..old(self)@ }),
    {
        self.delta = step;
    }

    /// Lets every key take a frame: the sample `state` of the keyboard,
    /// the dropping of a bar that has left the window, and the scrolling by
    /// `step` pixels.
    pub fn update(&mut self, state: &Vec<Keycode>, step: i32)
        requires
            old(self)@.can_update(state@, step as int),
        ensures
            final(self)@ == old(self)@.updated(state@, step as int),
    {
        let ghost before = self@;
        let mut i: usize = 0;
        while i < self.keys.len()
            invariant
                i <= self.keys.len(),
                before == old(self)@,
                before.can_update(state@, step as int),
                self.keys@.len() == before.keys.len(),
                self.width == old(self).width,
                self.delta == old(self).delta,
                forall|j: int|
                    0 <= j < i ==> (#[trigger] self.keys@[j])@ == before.keys[j].after_frame(
                        before.frame_of(j, state@, step as int),
                    ),
                forall|j: int|
                    i <= j < self.keys.len() ==> (#[trigger] self.keys@[j])@ == before.keys[j],
            decreases self.keys.len() - i,
        {
            let key = &mut self.keys[i];
            key.update_state(state);
            key.remove_invisible_bar();
            key.update_bars(step);
            i += 1;
        }
        assert(self@.keys =~= before.updated(state@, step as int).keys);
    }

    /// Whether `update` can be called with this sample and step.
    pub fn can_update(&self, state: &Vec<Keycode>, step: i32) -> (ok: bool)
        ensures
            ok == self@.can_update(state@, step as int),
    {
        let mut i: usize = 0;
        while i < self.keys.len()
            invariant
                i <= self.keys.len(),
                forall|j: int|
                    0 <= j < i ==> (#[trigger] self@.keys[j]).sampled(
                        state@.contains(self@.keys[j].keycode),
                    ).pruned().can_advance(step as int),
            decreases self.keys.len() - i,
        {
            if !self.keys[i].can_take_frame(state, step) {
                assert(!self@.keys[i as int].sampled(
                    state@.contains(self@.keys[i as int].keycode),
                ).pruned().can_advance(step as int));
                return false;
            }
            i += 1;
        }
        true
    }

    /// The steps that draw a frame: clear to black, draw every key from
    /// left to right, show the frame.
    pub fn draw(&self) -> (ops: Vec<DrawOp>)
        ensures
            ops.deep_view() == self@.draw_ops(),
    {
        let mut ops: Vec<DrawOp> = Vec::new();
        ops.push(DrawOp::SetColor(Color::rgb(0, 0, 0)));
        ops.push(DrawOp::Clear);
        let ghost head = ops.deep_view();
        let mut i: usize = 0;
        while i < self.keys.len()
            invariant
                i <= self.keys.len(),
                ops.deep_view() == head + self@.key_ops(i as nat),
            decreases self.keys.len() - i,
        {
            let mut key_ops = self.keys[i].draw();
            let ghost before = ops.deep_view();
            let ghost added = key_ops.deep_view();
            ops.append(&mut key_ops);
            assert(ops.deep_view() =~= before + added);
            i += 1;
        }
        let ghost before = ops.deep_view();
        ops.push(DrawOp::Present);
        assert(ops.deep_view() =~= before + seq![DrawOpView::Present]);
        ops
    }

    /// The keys, left to right.
    pub fn keys(&self) -> (keys: &Vec<Key>)
        ensures
            keys.deep_view() == self@.keys,
    {
        &self.keys
    }

    /// The width of the window, in pixels.
    pub fn width(&self) -> (width: u32)
        ensures
            width == self@.width,
    {
        self.width
    }

    /// How far the bars scroll in the next frame.
    pub fn delta(&self) -> (step: i32)
        ensures
            step == self@.delta,
    {
        self.delta
    }
}

} // verus!
