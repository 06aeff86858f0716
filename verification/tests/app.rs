use device_query::Keycode;
use kye::app::App;
use kye::canvas::{Color, DrawOp, Rect};
use kye::config::Config;
use kye::keycode::parse_keycodes;

const BLACK: Color = Color { r: 0, g: 0, b: 0, a: 255 };

fn names(list: &[&str]) -> Vec<String> {
    list.iter().map(|name| name.to_string()).collect()
}

fn turn(app: &mut App, state: &Vec<Keycode>) -> Vec<DrawOp> {
    assert!(app.can_run(false, state));
    app.run(false, state).unwrap()
}

#[test]
fn names_of_keys_are_looked_up() {
    assert_eq!(parse_keycodes(&names(&["Z", "X"])), Ok(vec![Keycode::Z, Keycode::X]));
    assert_eq!(
        parse_keycodes(&names(&["Key1", "Space", "LShift", "F12", "Numpad0", "Slash", "A"])),
        Ok(vec![
            Keycode::Key1,
            Keycode::Space,
            Keycode::LShift,
            Keycode::F12,
            Keycode::Numpad0,
            Keycode::Slash,
            Keycode::A
        ])
    );
    assert_eq!(parse_keycodes(&Vec::new()), Ok(Vec::new()));
}

#[test]
fn unknown_name_fails_the_list() {
    let wrong = Err("failed to parse keycode".to_string());
    assert_eq!(parse_keycodes(&names(&["NotAKey"])), wrong);
    assert_eq!(parse_keycodes(&names(&["Z", "NotAKey", "X"])), wrong);
    assert_eq!(parse_keycodes(&names(&["Z", "X", ""])), wrong);
    assert_eq!(parse_keycodes(&names(&["z"])), wrong);
    assert_eq!(parse_keycodes(&names(&[" Z"])), wrong);
}

#[test]
fn overlay_of_the_default_configuration() {
    let config = Config::default();
    assert!(App::fits(&config));
    let app = App::new(config).unwrap();
    assert_eq!(app.width(), 350);
    assert_eq!(app.delta(), 0);
    assert_eq!(app.keys().len(), 2);
    assert_eq!(app.keys()[0].keycode(), Keycode::Z);
    assert_eq!(app.keys()[1].keycode(), Keycode::X);
    assert_eq!(app.keys()[0].container(), Rect { x: 50, y: 650, w: 100, h: 100 });
    assert_eq!(app.keys()[1].container(), Rect { x: 200, y: 650, w: 100, h: 100 });
    assert!(app.keys().iter().all(|key| !key.is_pressed() && key.bars().is_empty()));
}

#[test]
fn unknown_key_code_fails_the_start() {
    let mut config = Config::default();
    config.key.codes = names(&["Z", "NotAKey"]);
    assert!(App::fits(&config));
    assert_eq!(App::new(config).err(), Some("failed to parse keycode".to_string()));
}

#[test]
fn overlay_without_keys() {
    let mut config = Config::default();
    config.key.codes = Vec::new();
    let mut app = App::new(config).unwrap();
    assert_eq!(app.width(), 50);
    assert_eq!(app.keys().len(), 0);
    assert_eq!(
        turn(&mut app, &vec![Keycode::Z]),
        vec![DrawOp::SetColor(BLACK), DrawOp::Clear, DrawOp::Present]
    );
}

#[test]
fn overlay_for_given_keycodes() {
    let mut config = Config::default();
    config.key.codes = names(&["A", "S", "D"]);
    config.key.size = 60;
    config.window.height = 400;
    let app = App::with_keycodes(config, vec![Keycode::A, Keycode::S, Keycode::D]);
    assert_eq!(app.width(), 3 * 90 + 30);
    assert_eq!(app.keys().len(), 3);
    for (i, key) in app.keys().iter().enumerate() {
        assert_eq!(key.container(), Rect { x: 30 + 90 * i as i32, y: 310, w: 60, h: 60 });
    }
    assert_eq!(app.keys()[2].keycode(), Keycode::D);
}

#[test]
fn overlay_too_large_does_not_fit() {
    let mut config = Config::default();
    config.key.size = 2_000_000_000;
    config.key.border_width = 0;
    config.window.height = 0x7fff_ffff;
    assert!(!App::fits(&config));
    config.key.codes = names(&["Z"]);
    assert!(App::fits(&config));
}

#[test]
fn first_frame_scrolls_nothing() {
    let mut app = App::new(Config::default()).unwrap();
    turn(&mut app, &vec![Keycode::Z]);
    assert_eq!(app.keys()[0].bars(), &vec![Rect { x: 50, y: 650, w: 100, h: 0 }]);
    // still no time reported: the bar neither moves nor grows
    turn(&mut app, &vec![Keycode::Z]);
    assert_eq!(app.keys()[0].bars(), &vec![Rect { x: 50, y: 650, w: 100, h: 0 }]);
}

#[test]
fn frame_scrolls_by_what_the_frame_before_took() {
    let mut app = App::new(Config::default()).unwrap();
    turn(&mut app, &vec![Keycode::Z]);
    app.set_delta(16);
    assert_eq!(app.delta(), 16);
    turn(&mut app, &vec![Keycode::Z]);
    assert_eq!(app.keys()[0].bars(), &vec![Rect { x: 50, y: 634, w: 100, h: 16 }]);
    app.set_delta(20);
    turn(&mut app, &vec![Keycode::Z, Keycode::X]);
    assert_eq!(app.keys()[0].bars(), &vec![Rect { x: 50, y: 614, w: 100, h: 36 }]);
    assert_eq!(app.keys()[1].bars(), &vec![Rect { x: 200, y: 630, w: 100, h: 0 }]);
    // the same distance again where no new one is given
    turn(&mut app, &vec![Keycode::X]);
    assert_eq!(app.keys()[0].bars(), &vec![Rect { x: 50, y: 594, w: 100, h: 36 }]);
    assert_eq!(app.keys()[1].bars(), &vec![Rect { x: 200, y: 610, w: 100, h: 20 }]);
}

#[test]
fn every_key_takes_the_frame() {
    let mut app = App::new(Config::default()).unwrap();
    app.update(&vec![Keycode::X], 7);
    assert!(!app.keys()[0].is_pressed());
    assert!(app.keys()[1].is_pressed() && app.keys()[1].changed());
    assert!(app.keys()[0].bars().is_empty());
    assert_eq!(app.keys()[1].bars().len(), 1);
    assert_eq!(app.keys()[1].bars(), &vec![Rect { x: 200, y: 643, w: 100, h: 0 }]);
    assert!(app.can_update(&Vec::new(), 693));
    app.update(&Vec::new(), 693);
    assert_eq!(app.keys()[1].bars(), &vec![Rect { x: 200, y: -50, w: 100, h: 0 }]);
    app.update(&Vec::new(), 0);
    assert!(app.keys()[1].bars().is_empty());
}

#[test]
fn quit_ends_the_loop_and_changes_nothing() {
    let mut app = App::new(Config::default()).unwrap();
    turn(&mut app, &vec![Keycode::Z]);
    app.set_delta(10);
    assert!(app.can_run(true, &vec![Keycode::X]));
    assert_eq!(app.run(true, &vec![Keycode::X]), None);
    assert_eq!(app.keys()[0].bars(), &vec![Rect { x: 50, y: 650, w: 100, h: 0 }]);
    assert!(app.keys()[0].is_pressed());
    assert!(!app.keys()[1].is_pressed());
    assert_eq!(app.delta(), 10);
}

#[test]
fn frame_that_cannot_be_taken_is_told() {
    let mut app = App::new(Config::default()).unwrap();
    turn(&mut app, &vec![Keycode::Z]);
    app.set_delta(i32::MAX);
    turn(&mut app, &vec![Keycode::Z]);
    // the held bar is at 650 - (2^31 - 1) and as high as can be
    assert_eq!(
        app.keys()[0].bars(),
        &vec![Rect { x: 50, y: 650 - i32::MAX, w: 100, h: i32::MAX }]
    );
    assert!(!app.can_run(false, &vec![Keycode::Z]));
    assert!(!app.can_update(&vec![Keycode::Z], 1));
    assert!(app.can_update(&vec![Keycode::Z], 0));
    assert!(app.can_run(true, &vec![Keycode::Z]));
    // released, it can move no further up
    assert!(!app.can_run(false, &Vec::new()));
    assert!(app.can_update(&Vec::new(), 649));
}

#[test]
fn bar_that_is_dropped_does_not_stand_in_the_way() {
    let mut app = App::new(Config::default()).unwrap();
    turn(&mut app, &vec![Keycode::Z]);
    app.set_delta(i32::MAX);
    turn(&mut app, &Vec::new());
    assert_eq!(app.keys()[0].bars(), &vec![Rect { x: 50, y: 650 - i32::MAX, w: 100, h: 0 }]);
    // the bar cannot move by as much again, but the next frame drops it
    assert!(app.can_run(false, &Vec::new()));
    turn(&mut app, &Vec::new());
    assert!(app.keys()[0].bars().is_empty());
}

#[test]
fn frame_is_cleared_drawn_and_shown() {
    let mut config = Config::default();
    config.key.border_width = 1;
    let mut app = App::new(config).unwrap();
    let white = Color { r: 255, g: 255, b: 255, a: 255 };
    let grey = Color { r: 100, g: 100, b: 100, a: 255 };
    let ops = turn(&mut app, &vec![Keycode::X]);
    assert_eq!(
        ops,
        vec![
            DrawOp::SetColor(BLACK),
            DrawOp::Clear,
            DrawOp::SetColor(white),
            DrawOp::DrawRect(Rect { x: 50, y: 651, w: 100, h: 100 }),
            DrawOp::Glyph { key: 0, area: Rect { x: 90, y: 683, w: 20, h: 33 } },
            DrawOp::SetColor(grey),
            DrawOp::FillRect(Rect { x: 200, y: 650, w: 100, h: 100 }),
            DrawOp::SetColor(white),
            DrawOp::DrawRect(Rect { x: 200, y: 651, w: 100, h: 100 }),
            DrawOp::Glyph { key: 1, area: Rect { x: 240, y: 683, w: 20, h: 33 } },
            DrawOp::SetColor(grey),
            DrawOp::DrawRect(Rect { x: 200, y: 650, w: 100, h: 0 }),
            DrawOp::FillRect(Rect { x: 200, y: 650, w: 100, h: 0 }),
            DrawOp::Present,
        ]
    );
    assert_eq!(app.draw(), ops);
}
