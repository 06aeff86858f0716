use device_query::Keycode;
use kye::canvas::{Color, DrawOp, Rect};
use kye::config::Config;
use kye::key::Key;

fn key_z() -> Key {
    Key::new(0, Config::default(), Keycode::Z)
}

fn frame(key: &mut Key, down: bool, step: i32) {
    let state = if down { vec![Keycode::Z] } else { Vec::new() };
    key.update_state(&state);
    key.remove_invisible_bar();
    assert!(key.can_advance(step));
    key.update_bars(step);
}

fn step_of(speed: f64, delta: f64) -> i32 {
    (speed * delta).round() as i32
}

#[test]
fn new_key_is_up_and_has_no_bars() {
    let key = Key::new(1, Config::default(), Keycode::X);
    assert!(!key.is_pressed());
    assert!(!key.changed());
    assert!(key.bars().is_empty());
    assert_eq!(key.container(), Rect { x: 200, y: 650, w: 100, h: 100 });
    assert_eq!(key.keycode(), Keycode::X);
}

#[test]
fn sample_finds_the_key_among_those_down() {
    let mut key = key_z();
    key.update_state(&vec![Keycode::A, Keycode::Z, Keycode::X]);
    assert!(key.is_pressed());
    assert!(key.changed());
    key.update_state(&vec![Keycode::Z]);
    assert!(key.is_pressed());
    assert!(!key.changed());
    key.update_state(&vec![Keycode::A, Keycode::X]);
    assert!(!key.is_pressed());
    assert!(key.changed());
    key.update_state(&Vec::new());
    assert!(!key.is_pressed());
    assert!(!key.changed());
}

#[test]
fn sample_tells_keys_apart() {
    let mut key = Key::new(0, Config::default(), Keycode::Key1);
    key.update_state(&vec![Keycode::Key2, Keycode::Numpad1, Keycode::F1]);
    assert!(!key.is_pressed());
    key.update_state(&vec![Keycode::Key2, Keycode::Key1]);
    assert!(key.is_pressed());
}

#[test]
fn press_starts_a_bar_without_height_that_scrolls_at_once() {
    let mut key = key_z();
    frame(&mut key, true, 17);
    assert_eq!(key.bars(), &vec![Rect { x: 50, y: 633, w: 100, h: 0 }]);
}

#[test]
fn press_in_a_frame_that_scrolls_nothing_starts_the_bar_at_the_tile() {
    let mut key = key_z();
    frame(&mut key, true, 0);
    assert_eq!(key.bars(), &vec![Rect { x: 50, y: 650, w: 100, h: 0 }]);
    assert_eq!(key.bars()[0].y, key.container().y);
}

#[test]
fn new_bar_moves_with_the_bars_that_are_there() {
    let mut key = key_z();
    frame(&mut key, true, 0);
    frame(&mut key, false, 0);
    // the old bar is at the tile still; both move by the step of the frame
    // in which the key goes down again
    frame(&mut key, true, 40);
    assert_eq!(
        key.bars(),
        &vec![Rect { x: 50, y: 610, w: 100, h: 0 }, Rect { x: 50, y: 610, w: 100, h: 0 }]
    );
}

#[test]
fn held_key_grows_its_bar_as_fast_as_it_scrolls() {
    let mut key = key_z();
    frame(&mut key, true, 0);
    frame(&mut key, true, 10);
    assert_eq!(key.bars(), &vec![Rect { x: 50, y: 640, w: 100, h: 10 }]);
    frame(&mut key, true, 25);
    assert_eq!(key.bars(), &vec![Rect { x: 50, y: 615, w: 100, h: 35 }]);
}

#[test]
fn height_counts_the_time_held_not_the_frames() {
    // held for one second at 1000 pixels a second, seen as two frames
    let mut twice = key_z();
    frame(&mut twice, true, 0);
    frame(&mut twice, true, step_of(1000.0, 0.5));
    frame(&mut twice, true, step_of(1000.0, 0.5));
    assert_eq!(twice.bars().len(), 1);
    assert_eq!(twice.bars()[0].h, 1000);

    // the same second seen as four frames
    let mut four = key_z();
    frame(&mut four, true, 0);
    for _ in 0..4 {
        frame(&mut four, true, step_of(1000.0, 0.25));
    }
    assert_eq!(four.bars()[0].h, 1000);
    assert_eq!(four.bars()[0], twice.bars()[0]);
}

#[test]
fn height_is_off_by_at_most_one_pixel_a_frame() {
    // a third of a second, three times: 333 + 333 + 333
    let mut key = key_z();
    frame(&mut key, true, 0);
    for _ in 0..3 {
        frame(&mut key, true, step_of(1000.0, 1.0 / 3.0));
    }
    let h = key.bars()[0].h;
    assert_eq!(h, 999);
    assert!((h - 1000).abs() <= 3);
}

#[test]
fn short_press_leaves_one_bar_that_only_scrolls() {
    let mut key = key_z();
    frame(&mut key, true, 5);
    assert_eq!(key.bars(), &vec![Rect { x: 50, y: 645, w: 100, h: 0 }]);
    frame(&mut key, false, 5);
    assert_eq!(key.bars(), &vec![Rect { x: 50, y: 640, w: 100, h: 0 }]);
    frame(&mut key, false, 5);
    assert_eq!(key.bars(), &vec![Rect { x: 50, y: 635, w: 100, h: 0 }]);
    frame(&mut key, false, 40);
    assert_eq!(key.bars(), &vec![Rect { x: 50, y: 595, w: 100, h: 0 }]);
}

#[test]
fn release_freezes_the_height() {
    let mut key = key_z();
    frame(&mut key, true, 0);
    frame(&mut key, true, 30);
    frame(&mut key, true, 30);
    frame(&mut key, false, 30);
    assert_eq!(key.bars(), &vec![Rect { x: 50, y: 560, w: 100, h: 60 }]);
    frame(&mut key, false, 30);
    assert_eq!(key.bars(), &vec![Rect { x: 50, y: 530, w: 100, h: 60 }]);
}

#[test]
fn each_press_has_its_own_bar() {
    let mut key = key_z();
    frame(&mut key, true, 10);
    frame(&mut key, true, 10);
    frame(&mut key, false, 10);
    frame(&mut key, true, 10);
    frame(&mut key, true, 10);
    assert_eq!(
        key.bars(),
        &vec![Rect { x: 50, y: 600, w: 100, h: 10 }, Rect { x: 50, y: 630, w: 100, h: 10 }]
    );
}

#[test]
fn bars_are_as_many_as_the_presses_less_those_dropped() {
    let downs = [
        true, true, false, true, false, false, true, true, true, false, true, false, true, true,
        false, false, true, false, true, false, false, false, false, false, false, false, false,
    ];
    let mut key = key_z();
    let mut presses = 0;
    let mut dropped = 0;
    let mut was_down = false;
    for down in downs {
        let before = key.bars().len();
        key.update_state(&if down { vec![Keycode::Z] } else { Vec::new() });
        key.remove_invisible_bar();
        dropped += before - key.bars().len();
        if down && !was_down {
            presses += 1;
        }
        was_down = down;
        assert!(key.can_advance(90));
        key.update_bars(90);
        assert_eq!(key.bars().len(), presses - dropped);
    }
    assert_eq!(presses, 7);
    assert!(dropped > 0);
}

#[test]
fn bars_stay_few_when_every_frame_scrolls() {
    // the tile is 650 pixels below the window's upper edge, and every
    // frame scrolls by 50 or more: room for 649 / 100 bars, and two more
    let most = (650 - 1) / (2 * 50) + 2;
    let mut key = key_z();
    let mut seen = 0;
    for i in 0..200 {
        let down = i % 2 == 0;
        let step = if i % 7 == 3 { 120 } else { 50 };
        frame(&mut key, down, step);
        seen = seen.max(key.bars().len());
        assert!(key.bars().len() <= most);
    }
    assert!(seen >= 6);
}

#[test]
fn bars_pile_up_when_no_frame_scrolls() {
    let mut key = key_z();
    for i in 0..100 {
        frame(&mut key, i % 2 == 0, 0);
    }
    assert_eq!(key.bars().len(), 50);
}

#[test]
fn frame_without_time_changes_no_bar() {
    let mut key = key_z();
    frame(&mut key, true, 20);
    frame(&mut key, true, 20);
    frame(&mut key, false, 20);
    frame(&mut key, true, 20);
    let before = key.bars().clone();
    // held, and no time has passed
    key.update_state(&vec![Keycode::Z]);
    key.update_bars(0);
    assert_eq!(key.bars(), &before);
    key.update_bars(0);
    assert_eq!(key.bars(), &before);
    // released
    key.update_state(&Vec::new());
    key.update_bars(0);
    assert_eq!(key.bars(), &before);
}

#[test]
fn press_in_a_frame_without_time_only_adds_its_bar() {
    let mut key = key_z();
    frame(&mut key, true, 20);
    frame(&mut key, false, 20);
    let before = key.bars().clone();
    key.update_state(&vec![Keycode::Z]);
    key.update_bars(0);
    assert_eq!(key.bars().len(), before.len() + 1);
    assert_eq!(key.bars()[0], before[0]);
    assert_eq!(key.bars()[1], Rect { x: 50, y: 650, w: 100, h: 0 });
}

#[test]
fn height_of_a_held_bar_never_falls() {
    let mut key = key_z();
    frame(&mut key, true, 0);
    let mut last = 0;
    for step in [0, 3, 0, 16, 17, 1, 0, 250] {
        frame(&mut key, true, step);
        let h = key.bars()[0].h;
        assert!(h >= last);
        assert_eq!(h, last + step);
        last = h;
    }
}

#[test]
fn oldest_bar_is_dropped_once_it_has_left_the_window() {
    let mut key = key_z();
    frame(&mut key, true, 0);
    frame(&mut key, true, 100);
    frame(&mut key, false, 0);
    // the bar spans 550..650; move it to -100..0
    key.update_bars(650);
    assert_eq!(key.bars(), &vec![Rect { x: 50, y: -100, w: 100, h: 100 }]);
    key.remove_invisible_bar();
    assert!(key.bars().is_empty());
}

#[test]
fn bar_with_a_pixel_in_the_window_stays() {
    let mut key = key_z();
    frame(&mut key, true, 0);
    frame(&mut key, true, 100);
    frame(&mut key, false, 0);
    key.update_bars(649);
    assert_eq!(key.bars(), &vec![Rect { x: 50, y: -99, w: 100, h: 100 }]);
    key.remove_invisible_bar();
    assert_eq!(key.bars().len(), 1);
    key.update_bars(1);
    key.remove_invisible_bar();
    assert!(key.bars().is_empty());
}

#[test]
fn only_the_oldest_bar_is_looked_at() {
    let mut key = key_z();
    frame(&mut key, true, 0);
    frame(&mut key, true, 100);
    // scroll down, so that the old bar ends below the tile
    frame(&mut key, false, -200);
    key.update_state(&vec![Keycode::Z]);
    key.update_bars(700);
    // the old bar spans 50..150, the new one is at -50: only the new one
    // has left the window
    assert_eq!(
        key.bars(),
        &vec![Rect { x: 50, y: 50, w: 100, h: 100 }, Rect { x: 50, y: -50, w: 100, h: 0 }]
    );
    key.remove_invisible_bar();
    assert_eq!(key.bars().len(), 2);
}

#[test]
fn one_bar_is_dropped_in_a_frame() {
    let mut key = key_z();
    frame(&mut key, true, 1);
    frame(&mut key, false, 1);
    frame(&mut key, true, 1);
    frame(&mut key, false, 1);
    key.update_bars(10_000);
    assert_eq!(key.bars().len(), 2);
    key.remove_invisible_bar();
    assert_eq!(key.bars().len(), 1);
    key.remove_invisible_bar();
    assert_eq!(key.bars().len(), 0);
    key.remove_invisible_bar();
    assert_eq!(key.bars().len(), 0);
}

#[test]
fn held_key_without_a_bar_has_nothing_to_grow() {
    let mut key = key_z();
    key.update_state(&vec![Keycode::Z]);
    key.update_state(&vec![Keycode::Z]);
    assert!(key.is_pressed() && !key.changed());
    assert!(key.can_advance(10));
    key.update_bars(10);
    assert!(key.bars().is_empty());
}

#[test]
fn bars_must_stay_within_reach() {
    let mut key = key_z();
    frame(&mut key, true, 0);
    frame(&mut key, true, 1000);
    // y = -350, h = 1000: the height is the first to leave the range
    assert!(key.can_advance(i32::MAX - 1000));
    assert!(!key.can_advance(i32::MAX - 999));
    assert!(key.can_advance(i32::MIN));
    key.update_state(&Vec::new());
    // released: only y moves
    assert!(key.can_advance(i32::MAX - 349));
    assert!(!key.can_advance(i32::MAX - 348));
    assert!(key.can_advance(i32::MIN));
}

#[test]
fn bars_must_stay_within_reach_downwards() {
    let mut low = Config::default();
    low.window.height = 151;
    let mut key = Key::new(0, low, Keycode::Z);
    frame(&mut key, true, 0);
    frame(&mut key, true, -5);
    assert_eq!(key.bars(), &vec![Rect { x: 50, y: 6, w: 100, h: -5 }]);
    // scrolling down by 2^31 - 7 is the most that y can take
    assert!(key.can_advance(-(i32::MAX - 6)));
    assert!(!key.can_advance(-(i32::MAX - 5)));
}

#[test]
fn tile_at_the_upper_edge_loses_the_bar_of_a_held_key() {
    let mut low = Config::default();
    low.window.height = 150;
    let mut key = Key::new(0, low, Keycode::Z);
    assert_eq!(key.container().y, 0);
    frame(&mut key, true, 0);
    assert_eq!(key.bars().len(), 1);
    // the new bar ends at the window's upper edge, so the next frame drops
    // it, and the held key then has no bar to grow
    frame(&mut key, true, 10);
    assert!(key.is_pressed());
    assert!(key.bars().is_empty());
    frame(&mut key, true, 10);
    assert!(key.bars().is_empty());
    // the next press starts a bar again
    frame(&mut key, false, 10);
    frame(&mut key, true, 10);
    assert_eq!(key.bars(), &vec![Rect { x: 50, y: -10, w: 100, h: 0 }]);
}

#[test]
fn press_in_a_frame_that_scrolls_past_the_window_loses_its_bar() {
    let mut key = key_z();
    // the tile is 650 below the window's upper edge
    frame(&mut key, true, 650);
    assert_eq!(key.bars(), &vec![Rect { x: 50, y: 0, w: 100, h: 0 }]);
    frame(&mut key, true, 10);
    assert!(key.is_pressed());
    assert!(key.bars().is_empty());

    let mut other = key_z();
    frame(&mut other, true, 649);
    frame(&mut other, true, 10);
    assert_eq!(other.bars(), &vec![Rect { x: 50, y: -9, w: 100, h: 10 }]);
}

#[test]
fn new_bar_must_be_within_reach() {
    let mut key = key_z();
    key.update_state(&vec![Keycode::Z]);
    assert!(key.is_pressed() && key.changed());
    // the new bar would be at 650 - step
    assert!(key.can_advance(i32::MAX));
    assert!(key.can_advance(-(i32::MAX - 650)));
    assert!(!key.can_advance(-(i32::MAX - 649)));
    assert!(!key.can_advance(i32::MIN));
    assert!(key.can_take_frame(&Vec::new(), i32::MIN));
}

#[test]
fn tile_too_wide_for_a_bar() {
    let mut wide = Config::default();
    wide.key.size = 0x8000_0000;
    wide.key.border_width = 0;
    assert!(!Key::fits(0, &wide));
}

#[test]
fn frame_check_looks_past_the_bar_that_will_be_dropped() {
    let mut key = key_z();
    frame(&mut key, true, 0);
    frame(&mut key, false, i32::MAX);
    // the bar is far above the window: it cannot move further, but the
    // next frame drops it first
    assert!(!key.can_advance(i32::MAX));
    assert!(key.can_take_frame(&Vec::new(), i32::MAX));
    frame(&mut key, false, i32::MAX);
    assert!(key.bars().is_empty());
}

#[test]
fn step_may_be_negative() {
    let mut key = key_z();
    frame(&mut key, true, 0);
    frame(&mut key, true, -20);
    assert_eq!(key.bars(), &vec![Rect { x: 50, y: 670, w: 100, h: -20 }]);
}

#[test]
fn drawing_a_key_that_is_up() {
    let mut config = Config::default();
    config.key.border_width = 2;
    let key = Key::new(1, config, Keycode::X);
    let white = Color { r: 255, g: 255, b: 255, a: 255 };
    assert_eq!(
        key.draw(),
        vec![
            DrawOp::SetColor(white),
            DrawOp::DrawRect(Rect { x: 200, y: 651, w: 100, h: 100 }),
            DrawOp::SetColor(white),
            DrawOp::DrawRect(Rect { x: 201, y: 652, w: 98, h: 98 }),
            DrawOp::Glyph { key: 1, area: Rect { x: 240, y: 683, w: 20, h: 33 } },
        ]
    );
}

#[test]
fn drawing_a_key_that_is_down_with_its_bars() {
    let mut config = Config::default();
    config.key.border_width = 1;
    config.key.tile_color = Color { r: 10, g: 20, b: 30, a: 40 };
    config.key.border_color = Color { r: 50, g: 60, b: 70, a: 80 };
    let mut key = Key::new(0, config, Keycode::Z);
    frame(&mut key, true, 0);
    frame(&mut key, true, 15);
    frame(&mut key, false, 5);
    frame(&mut key, true, 5);
    let tile_color = Color { r: 10, g: 20, b: 30, a: 40 };
    let border_color = Color { r: 50, g: 60, b: 70, a: 80 };
    let old = Rect { x: 50, y: 625, w: 100, h: 15 };
    let young = Rect { x: 50, y: 645, w: 100, h: 0 };
    assert_eq!(
        key.draw(),
        vec![
            DrawOp::SetColor(tile_color),
            DrawOp::FillRect(Rect { x: 50, y: 650, w: 100, h: 100 }),
            DrawOp::SetColor(border_color),
            DrawOp::DrawRect(Rect { x: 50, y: 651, w: 100, h: 100 }),
            DrawOp::Glyph { key: 0, area: Rect { x: 90, y: 683, w: 20, h: 33 } },
            DrawOp::SetColor(tile_color),
            DrawOp::DrawRect(old),
            DrawOp::FillRect(old),
            DrawOp::SetColor(tile_color),
            DrawOp::DrawRect(young),
            DrawOp::FillRect(young),
        ]
    );
}

#[test]
fn border_of_the_default_key_has_eight_outlines() {
    let key = key_z();
    let ops = key.draw();
    assert_eq!(ops.len(), 2 * 8 + 1);
    for i in 0..8 {
        assert_eq!(
            ops[2 * i + 1],
            DrawOp::DrawRect(Rect {
                x: 50 + i as i32,
                y: 651 + i as i32,
                w: 100 - 2 * i as i32,
                h: 100 - 2 * i as i32
            })
        );
    }
}

#[test]
fn drawing_changes_nothing() {
    let mut key = key_z();
    frame(&mut key, true, 0);
    frame(&mut key, true, 12);
    let bars = key.bars().clone();
    let first = key.draw();
    let second = key.draw();
    assert_eq!(first, second);
    assert_eq!(key.bars(), &bars);
    assert!(key.is_pressed());
}

#[test]
fn rect_is_what_it_is_made_of() {
    assert_eq!(Rect::new(-1, 2, 3, 0), Rect { x: -1, y: 2, w: 3, h: 0 });
}
