//! What holds of a key and its bars over time.
//!
//! A frame does three things to a key, in this order: it samples the
//! keyboard, drops the oldest bar if that bar has left the window, and lets
//! the bars scroll. The statements here are about single frames and about
//! any run of them. They are proved of `KeyView`, which is what the functions
//! of `Key` are specified by.

use crate::canvas::RectView;
use crate::config::ConfigView;
use crate::key::KeyView;
use crate::layout::tile_rect;
use device_query::Keycode;
use vstd::prelude::*;

verus! {

/// What one frame brings to a key: whether the key is found down, and how
/// far everything scrolls.
pub struct Frame {
    pub pressed: bool,
    pub step: int,
}

impl KeyView {
    /// The key after one frame.
    pub open spec fn after_frame(self, frame: Frame) -> KeyView {
        self.sampled(frame.pressed).pruned().advanced(frame.step)
    }

    /// The key after a run of frames.
    pub open spec fn after_frames(self, frames: Seq<Frame>) -> KeyView
        decreases frames.len(),
    {
        if frames.len() == 0 {
            self
        } else {
            self.after_frames(frames.drop_last()).after_frame(frames.last())
        }
    }

    /// How many frames of the run found the key going down.
    pub open spec fn press_edges(self, frames: Seq<Frame>) -> nat
        decreases frames.len(),
    {
        if frames.len() == 0 {
            0
        } else {
            let before = self.after_frames(frames.drop_last());
            let edge: nat = if before.sampled(frames.last().pressed).press_edge() {
                1
            } else {
                0
            };
            self.press_edges(frames.drop_last()) + edge
        }
    }

    /// How many frames of the run dropped a bar.
    pub open spec fn prunings(self, frames: Seq<Frame>) -> nat
        decreases frames.len(),
    {
        if frames.len() == 0 {
            0
        } else {
            let before = self.after_frames(frames.drop_last());
            let gone: nat = if before.oldest_is_gone() {
                1
            } else {
                0
            };
            self.prunings(frames.drop_last()) + gone
        }
    }
}

/// A frame adds a bar exactly when the key has just gone down, and never
/// takes one away by scrolling.
pub proof fn lemma_bar_added_on_press_only(key: KeyView, step: int)
    ensures
        key.press_edge() ==> key.advanced(step).bars.len() == key.bars.len() + 1,
        !key.press_edge() ==> key.advanced(step).bars.len() == key.bars.len(),
{
}

/// Over any run of frames, the bars of a key are those it had, plus one for
/// each time it went down, less one for each bar dropped. A key that began
/// without bars so never has more bars than it had presses.
pub proof fn lemma_bar_count(key: KeyView, frames: Seq<Frame>)
    ensures
        key.after_frames(frames).bars.len() + key.prunings(frames) == key.bars.len()
            + key.press_edges(frames),
        key.bars.len() == 0 ==> key.after_frames(frames).bars.len() <= key.press_edges(frames)
            - key.prunings(frames),
    decreases frames.len(),
{
    if frames.len() > 0 {
        lemma_bar_count(key, frames.drop_last());
        let before = key.after_frames(frames.drop_last());
        let sampled = before.sampled(frames.last().pressed);
        lemma_bar_added_on_press_only(sampled.pruned(), frames.last().step);
    }
}

/// A frame that scrolls by nothing leaves every bar as it is. The number of
/// bars changes only if the key has just gone down: the new bar is then
/// added behind the others.
pub proof fn lemma_zero_step_keeps_bars(key: KeyView)
    ensures
        forall|i: int|
            0 <= i < key.bars.len() ==> #[trigger] key.advanced(0).bars[i] == key.bars[i],
        !key.press_edge() ==> key.advanced(0) == key,
        key.press_edge() ==> key.advanced(0).bars == key.bars.push(key.new_bar()),
{
    assert(key.raised_bars(0) =~= key.bars);
    if key.held() && key.bars.len() > 0 {
        assert(key.advanced_bars(0) =~= key.bars);
    }
}

/// A whole frame that scrolls by nothing changes no bar if the key does not
/// go down in it and the oldest bar is still in the window.
pub proof fn lemma_idle_frame_keeps_bars(key: KeyView, pressed: bool)
    requires
        !key.sampled(pressed).press_edge(),
        !key.oldest_is_gone(),
    ensures
        key.after_frame(Frame { pressed, step: 0 }).bars == key.bars,
{
    lemma_zero_step_keeps_bars(key.sampled(pressed).pruned());
}

/// Scrolling moves every bar up by the step and changes nothing else of its
/// place or width. Only the newest bar of a held key changes its height: it
/// grows by the step, so that its lower edge stays where it is.
pub proof fn lemma_bars_scroll(key: KeyView, step: int)
    ensures
        forall|i: int|
            0 <= i < key.bars.len() ==> {
                let bar = #[trigger] key.advanced(step).bars[i];
                &&& bar.x == key.bars[i].x
                &&& bar.y == key.bars[i].y - step
                &&& bar.w == key.bars[i].w
                &&& bar.h == if key.held() && i == key.bars.len() - 1 {
                    key.bars[i].h + step
                } else {
                    key.bars[i].h
                }
            },
        key.held() && key.bars.len() > 0 ==> key.advanced(step).bars.last().bottom()
            == key.bars.last().bottom(),
{
}

/// Scrolling by a step that is not negative shrinks no bar: while a key is
/// held, the height of its bar does not fall from frame to frame.
pub proof fn lemma_heights_do_not_shrink(key: KeyView, step: int)
    requires
        step >= 0,
    ensures
        forall|i: int|
            0 <= i < key.bars.len() ==> (#[trigger] key.advanced(step).bars[i]).h >= key.bars[i].h,
{
    lemma_bars_scroll(key, step);
}

/// A bar is dropped exactly when it is the oldest and its lower edge is at
/// or above the window's upper edge. Every other bar stays, in its order.
pub proof fn lemma_pruning(key: KeyView)
    ensures
        key.pruned().bars.len() == key.bars.len() - 1 <==> key.bars.len() > 0
            && key.bars[0].bottom() <= 0,
        key.pruned().bars.len() != key.bars.len() - 1 ==> key.pruned() == key,
        key.pruned().bars.len() == key.bars.len() - 1 ==> forall|i: int|
            1 <= i < key.bars.len() ==> #[trigger] key.bars[i] == key.pruned().bars[i - 1],
{
}

impl KeyView {
    /// A key that is down has a bar, and the lower edge of its newest bar is
    /// still in the window: it is the bar of the press that lasts.
    pub open spec fn growing(self) -> bool {
        self.is_pressed ==> self.bars.len() > 0 && self.bars.last().bottom() > 0
    }
}

/// A key that is `growing` stays so over a frame, and is not held without a
/// bar in it, unless the frame is one in which the key goes down and which
/// scrolls by the height above the tile or more: the new bar then leaves
/// the window in the frame that appends it, and the next frame drops it.
pub proof fn lemma_held_key_has_its_bar(key: KeyView, frame: Frame)
    requires
        key.growing(),
        key.sampled(frame.pressed).press_edge() ==> frame.step < key.container.y,
    ensures
        key.sampled(frame.pressed).pruned().held() ==> key.sampled(
            frame.pressed,
        ).pruned().bars.len() > 0,
        key.after_frame(frame).growing(),
{
}

/// Over a whole frame in which such a key stays down, the bar of the press
/// is still its newest bar, and has grown by the step of the frame: by
/// nothing or more, if the step is not negative. Its lower edge stays where
/// it is.
pub proof fn lemma_held_bar_grows(key: KeyView, step: int)
    requires
        key.growing(),
        key.is_pressed,
    ensures
        key.after_frame(Frame { pressed: true, step }).bars.len() > 0,
        key.after_frame(Frame { pressed: true, step }).bars.last().h == key.bars.last().h + step,
        key.after_frame(Frame { pressed: true, step }).bars.last().x == key.bars.last().x,
        key.after_frame(Frame { pressed: true, step }).bars.last().w == key.bars.last().w,
        key.after_frame(Frame { pressed: true, step }).bars.last().bottom()
            == key.bars.last().bottom(),
{
    lemma_bars_scroll(key.sampled(true).pruned(), step);
}

/// The steps of a run of frames, added up.
pub open spec fn total_step(frames: Seq<Frame>) -> int
    decreases frames.len(),
{
    if frames.len() == 0 {
        0
    } else {
        total_step(frames.drop_last()) + frames.last().step
    }
}

/// Over a run of frames in which such a key stays down, its bar grows by
/// the steps of the frames added up: what counts is how far everything
/// scrolled in all, not in how many frames.
pub proof fn lemma_height_is_total_step(key: KeyView, frames: Seq<Frame>)
    requires
        key.growing(),
        key.is_pressed,
        forall|i: int| 0 <= i < frames.len() ==> (#[trigger] frames[i]).pressed,
    ensures
        key.after_frames(frames).is_pressed,
        key.after_frames(frames).growing(),
        key.after_frames(frames).bars.len() > 0,
        key.after_frames(frames).bars.last().h == key.bars.last().h + total_step(frames),
    decreases frames.len(),
{
    if frames.len() > 0 {
        let earlier = frames.drop_last();
        assert forall|i: int| 0 <= i < earlier.len() implies (#[trigger] earlier[i]).pressed by {}
        lemma_height_is_total_step(key, earlier);
        let before = key.after_frames(earlier);
        lemma_held_key_has_its_bar(before, frames.last());
        lemma_held_bar_grows(before, frames.last().step);
    }
}

/// The frame in which a key goes down leaves the new bar behind the others,
/// without height, as far above the tile's upper edge as the frame scrolls.
pub proof fn lemma_new_bar_scrolls_at_once(key: KeyView, step: int)
    requires
        key.press_edge(),
    ensures
        key.advanced(step).bars.len() == key.bars.len() + 1,
        key.advanced(step).bars.last() == (RectView {
            x: key.container.x,
            y: key.container.y - step,
            w: key.config.key.size as int,
            h: 0,
        }),
{
}

impl KeyView {
    /// Each bar ends at least twice `gap` above every newer bar.
    pub open spec fn spaced(self, gap: int) -> bool {
        forall|i: int, j: int|
            0 <= i < j < self.bars.len() ==> (#[trigger] self.bars[i]).bottom() + 2 * gap <= (
            #[trigger] self.bars[j]).bottom()
    }

    /// The most bars that a key has at a time if every frame scrolls by
    /// `gap` or more: those that find room between the window's upper
    /// edge and the tile, twice `gap` apart, and one that waits to be
    /// dropped.
    pub open spec fn most_bars(self, gap: int) -> int {
        (self.container.y - 1) / (2 * gap) + 2
    }

    /// What holds of a key all of whose frames scrolled by `gap` or more:
    /// its bars are `spaced`, the newest ends `gap` or more above the tile,
    /// and twice `gap` or more once the key is up, and there are no more
    /// bars than `most_bars`.
    pub open spec fn settled(self, gap: int) -> bool {
        &&& self.spaced(gap)
        &&& self.bars.len() > 0 ==> self.bars.last().bottom() + gap <= self.container.y
        &&& !self.is_pressed && self.bars.len() > 0 ==> self.bars.last().bottom() + 2 * gap
            <= self.container.y
        &&& self.bars.len() <= self.most_bars(gap)
    }
}

/// Bars that are `spaced`, the oldest of which is still in the window and the
/// newest of which ends at the tile or above it, are fewer than `most_bars`.
pub proof fn lemma_spaced_bars_are_few(key: KeyView, gap: int)
    requires
        gap >= 1,
        key.spaced(gap),
        key.bars.len() > 0,
        key.bars[0].bottom() > 0,
        key.bars.last().bottom() <= key.container.y,
    ensures
        key.bars.len() < key.most_bars(gap),
{
    let n = key.bars.len() as int;
    lemma_spaced_bars_climb(key, gap, n - 1);
    let reach = key.container.y - 1;
    assert(n - 1 <= reach / (2 * gap)) by (nonlinear_arith)
        requires
            gap >= 1,
            2 * gap * (n - 1) <= reach,
    ;
}

/// The bar at `k` of `spaced` bars ends `k` times twice `gap` below the
/// oldest, or lower.
pub proof fn lemma_spaced_bars_climb(key: KeyView, gap: int, k: int)
    requires
        gap >= 1,
        key.spaced(gap),
        0 <= k < key.bars.len(),
    ensures
        key.bars[0].bottom() + 2 * gap * k <= key.bars[k].bottom(),
    decreases k,
{
    if k > 0 {
        lemma_spaced_bars_climb(key, gap, k - 1);
        assert(2 * gap * k == 2 * gap * (k - 1) + 2 * gap) by (nonlinear_arith);
    } else {
        assert(2 * gap * k == 0) by (nonlinear_arith)
            requires
                k == 0,
        ;
    }
}

/// A frame that scrolls by `gap` or more keeps a key `settled`, if its tile
/// lies below the window's upper edge.
pub proof fn lemma_frame_keeps_settled(key: KeyView, frame: Frame, gap: int)
    requires
        gap >= 1,
        frame.step >= gap,
        key.container.y > 0,
        key.settled(gap),
    ensures
        key.after_frame(frame).settled(gap),
        key.after_frame(frame).container == key.container,
{
    let top = key.container.y;
    let ready = key.sampled(frame.pressed).pruned();
    let after = ready.advanced(frame.step);
    let n = ready.bars.len() as int;
    // Without the oldest bar the others are as far apart as they were.
    assert(ready.spaced(gap)) by {
        if key.oldest_is_gone() {
            assert forall|i: int, j: int| 0 <= i < j < ready.bars.len() implies (
            #[trigger] ready.bars[i]).bottom() + 2 * gap <= (
            #[trigger] ready.bars[j]).bottom() by {
                assert(ready.bars[i] == key.bars[i + 1]);
                assert(ready.bars[j] == key.bars[j + 1]);
            }
        }
    }
    assert(n > 0 ==> ready.bars.last() == key.bars.last());
    // Either a bar was dropped, or all bars are in the window: in both
    // cases there is room for one more.
    assert(n < key.most_bars(gap)) by {
        if !key.oldest_is_gone() {
            if n > 0 {
                lemma_spaced_bars_are_few(key, gap);
            } else {
                assert((top - 1) / (2 * gap) >= 0) by (nonlinear_arith)
                    requires
                        top >= 1,
                        gap >= 1,
                ;
            }
        }
    }
    // The bars that were there move up together, but for the one that a
    // held key grows: its lower edge stays. A new bar ends `step` above the
    // tile; the newest of the others had left the tile by twice `gap`
    // before, and moves by `step` as well.
    lemma_bars_scroll(ready, frame.step);
    assert forall|i: int, j: int| 0 <= i < j < after.bars.len() implies (
    #[trigger] after.bars[i]).bottom() + 2 * gap <= (#[trigger] after.bars[j]).bottom() by {
        if j < n {
            assert(ready.bars[i].bottom() + 2 * gap <= ready.bars[j].bottom());
        } else if i < n - 1 {
            assert(ready.bars[i].bottom() + 2 * gap <= ready.bars[n - 1].bottom());
        }
    }
}

/// Over any run of frames that each scroll by `gap` or more, a key whose tile
/// lies below the window's upper edge stays `settled`: it never has more
/// bars than find room above the tile, twice `gap` apart, and two more.
pub proof fn lemma_bars_are_bounded(key: KeyView, frames: Seq<Frame>, gap: int)
    requires
        gap >= 1,
        key.container.y > 0,
        key.settled(gap),
        forall|i: int| 0 <= i < frames.len() ==> (#[trigger] frames[i]).step >= gap,
    ensures
        key.after_frames(frames).settled(gap),
        key.after_frames(frames).container == key.container,
        key.after_frames(frames).bars.len() <= (key.container.y - 1) / (2 * gap) + 2,
    decreases frames.len(),
{
    if frames.len() > 0 {
        let earlier = frames.drop_last();
        assert forall|i: int| 0 <= i < earlier.len() implies (#[trigger] earlier[i]).step
            >= gap by {}
        lemma_bars_are_bounded(key, earlier, gap);
        lemma_frame_keeps_settled(key.after_frames(earlier), frames.last(), gap);
    }
}

/// A key that has not been sampled yet is `settled`, whatever the `gap`.
pub proof fn lemma_fresh_key_is_settled(
    index: nat,
    config: ConfigView,
    keycode: Keycode,
    gap: int,
)
    requires
        gap >= 1,
        KeyView::fresh(index, config, keycode).container.y > 0,
    ensures
        KeyView::fresh(index, config, keycode).settled(gap),
{
    let top = KeyView::fresh(index, config, keycode).container.y;
    assert((top - 1) / (2 * gap) >= 0) by (nonlinear_arith)
        requires
            top >= 1,
            gap >= 1,
    ;
}

/// A key that has not been sampled yet is `growing`, as it is up.
pub proof fn lemma_fresh_key_is_growing(index: nat, config: ConfigView, keycode: Keycode)
    ensures
        KeyView::fresh(index, config, keycode).growing(),
{
}

/// The tile of a key is a function of its place in the row, the tile size
/// and the window height, and of nothing else.
pub proof fn lemma_layout_is_a_function(
    index: nat,
    a: ConfigView,
    b: ConfigView,
    first: Keycode,
    second: Keycode,
)
    requires
        a.key.size == b.key.size,
        a.window.height == b.window.height,
    ensures
        KeyView::fresh(index, a, first).container == KeyView::fresh(index, b, second).container,
        KeyView::fresh(index, a, first).container == tile_rect(index, a.key.size, a.window.height),
{
}

/// A frame changes neither the tile nor the configuration of a key, so a
/// key that can be drawn can still be drawn after it.
pub proof fn lemma_frame_keeps_tile(key: KeyView, frame: Frame)
    ensures
        key.after_frame(frame).container == key.container,
        key.after_frame(frame).config == key.config,
        key.after_frame(frame).index == key.index,
        key.after_frame(frame).keycode == key.keycode,
        key.wf() ==> key.after_frame(frame).wf(),
{
}

} // verus!
