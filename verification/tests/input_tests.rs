use flickyfrog::input::{normalize, FrameInput, Intent, Side, Touch};

const WIDTH: i64 = 1_280_000;

fn quiet() -> FrameInput {
    FrameInput {
        touches: Vec::new(),
        button_just_pressed: false,
        button_just_released: false,
        cursor_x: None,
        window_width: WIDTH,
    }
}

fn touch(x: i64, just_pressed: bool, just_released: bool) -> Touch {
    Touch { x, just_pressed, just_released }
}

#[test]
fn no_events_no_intent() {
    assert_eq!(normalize(&quiet()), None);
    // An idle touch point that neither began nor ended contributes nothing.
    let inp = FrameInput { touches: vec![touch(5_000, false, false)], ..quiet() };
    assert_eq!(normalize(&inp), None);
}

#[test]
fn touch_press_left_of_half_width_is_left() {
    let inp = FrameInput { touches: vec![touch(639_999, true, false)], ..quiet() };
    assert_eq!(normalize(&inp), Some(Intent::Pressed(Side::Left)));
}

#[test]
fn touch_press_at_half_width_is_right() {
    let inp = FrameInput { touches: vec![touch(640_000, true, false)], ..quiet() };
    assert_eq!(normalize(&inp), Some(Intent::Pressed(Side::Right)));
}

#[test]
fn touch_release_yields_released() {
    let inp = FrameInput { touches: vec![touch(10_000, false, true)], ..quiet() };
    assert_eq!(normalize(&inp), Some(Intent::Released));
}

#[test]
fn first_beginning_touch_wins_over_an_ending_one() {
    let inp = FrameInput {
        touches: vec![touch(900_000, false, true), touch(100_000, true, false)],
        ..quiet()
    };
    assert_eq!(normalize(&inp), Some(Intent::Pressed(Side::Left)));
}

#[test]
fn button_press_takes_side_from_cursor() {
    let inp = FrameInput {
        button_just_pressed: true,
        cursor_x: Some(700_000),
        ..quiet()
    };
    assert_eq!(normalize(&inp), Some(Intent::Pressed(Side::Right)));
}

#[test]
fn button_press_overwrites_touch_side() {
    let inp = FrameInput {
        touches: vec![touch(100_000, true, false)],
        button_just_pressed: true,
        cursor_x: Some(700_000),
        ..quiet()
    };
    assert_eq!(normalize(&inp), Some(Intent::Pressed(Side::Right)));
}

#[test]
fn button_press_without_cursor_keeps_touch_side() {
    let inp = FrameInput {
        touches: vec![touch(100_000, true, false)],
        button_just_pressed: true,
        cursor_x: None,
        ..quiet()
    };
    assert_eq!(normalize(&inp), Some(Intent::Pressed(Side::Left)));
}

#[test]
fn button_release_outweighs_touch_press() {
    let inp = FrameInput {
        touches: vec![touch(100_000, true, false)],
        button_just_released: true,
        ..quiet()
    };
    assert_eq!(normalize(&inp), Some(Intent::Released));
}

#[test]
fn button_release_alone_yields_released() {
    let inp = FrameInput { button_just_released: true, ..quiet() };
    assert_eq!(normalize(&inp), Some(Intent::Released));
}

#[test]
fn press_without_any_position_defaults_right() {
    let inp = FrameInput { button_just_pressed: true, cursor_x: None, ..quiet() };
    assert_eq!(normalize(&inp), Some(Intent::Pressed(Side::Right)));
}
