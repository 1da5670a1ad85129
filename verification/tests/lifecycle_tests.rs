use flickyfrog::geom::Vec2;
use flickyfrog::input::{FrameInput, Touch};
use flickyfrog::lifecycle::{player_controller, Player, TongueState};
use flickyfrog::selector::{ColliderShape, Piller};

fn idle_state() -> TongueState {
    TongueState { player: Player { tongue_out: false }, chain: None }
}

fn quiet_frame() -> FrameInput {
    FrameInput {
        touches: Vec::new(),
        button_just_pressed: false,
        button_just_released: false,
        cursor_x: None,
        window_width: 1_280_000,
    }
}

fn press_left_frame() -> FrameInput {
    FrameInput {
        button_just_pressed: true,
        cursor_x: Some(100_000),
        ..quiet_frame()
    }
}

fn release_frame() -> FrameInput {
    FrameInput { button_just_released: true, ..quiet_frame() }
}

fn level() -> Vec<Piller> {
    vec![
        Piller {
            id: 1,
            position: Vec2 { x: -5_000, y: 10_000 },
            shape: ColliderShape::Rectangle { half_width: 500, half_height: 2_000 },
        },
        Piller {
            id: 2,
            position: Vec2 { x: 3_000, y: 5_000 },
            shape: ColliderShape::Rectangle { half_width: 500, half_height: 1_000 },
        },
    ]
}

#[test]
fn release_while_idle_changes_nothing() {
    let mut state = idle_state();
    let eff = player_controller(&mut state, &release_frame(), Vec2 { x: 0, y: 0 }, &level());
    assert!(!eff.despawn);
    assert!(!eff.spawn);
    assert!(state.chain.is_none());
    assert!(!state.player.tongue_out);
}

#[test]
fn frame_without_intent_mutates_nothing() {
    let mut state = idle_state();
    let eff = player_controller(&mut state, &quiet_frame(), Vec2 { x: 0, y: 0 }, &level());
    assert!(!eff.despawn);
    assert!(!eff.spawn);
    assert!(state.chain.is_none());
    assert!(!state.player.tongue_out);
}

#[test]
fn press_attaches_to_the_left_pillar() {
    let mut state = idle_state();
    let eff = player_controller(&mut state, &press_left_frame(), Vec2 { x: 0, y: 0 },
        &level());
    assert!(eff.spawn);
    assert!(!eff.despawn);
    assert!(state.player.tongue_out);
    let chain = state.chain.as_ref().unwrap();
    assert_eq!(chain.joints.len(), chain.parts.len() + 1);
    // The left pillar's anchor sits at (-5, 8): distance sqrt(89) units.
    assert_eq!(chain.partition.distance, 9_433);
}

#[test]
fn release_after_attach_tears_the_generation_down() {
    let mut state = idle_state();
    player_controller(&mut state, &press_left_frame(), Vec2 { x: 0, y: 0 }, &level());
    assert!(state.chain.is_some());
    let eff = player_controller(&mut state, &release_frame(), Vec2 { x: 0, y: 0 }, &level());
    assert!(eff.despawn);
    assert!(!eff.spawn);
    assert!(state.chain.is_none());
    assert!(!state.player.tongue_out);
}

#[test]
fn press_while_attached_is_release_then_attempt() {
    let mut state = idle_state();
    player_controller(&mut state, &press_left_frame(), Vec2 { x: 0, y: 0 }, &level());
    let eff = player_controller(&mut state, &press_left_frame(), Vec2 { x: 0, y: 0 },
        &level());
    assert!(eff.despawn);
    assert!(eff.spawn);
    assert!(state.chain.is_some());
}

#[test]
fn failed_targeting_resets_the_intent() {
    // No pillar stands to the left, so the press aborts back to idle.
    let mut state = idle_state();
    let pillers = vec![Piller {
        id: 2,
        position: Vec2 { x: 3_000, y: 5_000 },
        shape: ColliderShape::Rectangle { half_width: 500, half_height: 1_000 },
    }];
    let eff = player_controller(&mut state, &press_left_frame(), Vec2 { x: 0, y: 0 },
        &pillers);
    assert!(!eff.spawn);
    assert!(!eff.despawn);
    assert!(state.chain.is_none());
    assert!(!state.player.tongue_out);
}

#[test]
fn degenerate_distance_aborts_the_attach() {
    // The only pillar's anchor sits under one world unit away.
    let mut state = idle_state();
    let pillers = vec![Piller {
        id: 5,
        position: Vec2 { x: -400, y: 500 },
        shape: ColliderShape::Rectangle { half_width: 100, half_height: 200 },
    }];
    let eff = player_controller(&mut state, &press_left_frame(), Vec2 { x: 0, y: 0 },
        &pillers);
    assert!(!eff.spawn);
    assert!(state.chain.is_none());
    assert!(!state.player.tongue_out);
}

#[test]
fn touch_press_on_the_right_half_attaches_rightward() {
    let mut state = idle_state();
    let inp = FrameInput {
        touches: vec![Touch { x: 900_000, just_pressed: true, just_released: false }],
        ..quiet_frame()
    };
    let eff = player_controller(&mut state, &inp, Vec2 { x: 0, y: 0 }, &level());
    assert!(eff.spawn);
    let chain = state.chain.as_ref().unwrap();
    // The right pillar's anchor sits at (3, 4): distance five units.
    assert_eq!(chain.partition.distance, 5_000);
}
