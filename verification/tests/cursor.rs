use alacritty::cursor::{CursorState, CursorUpdate, Quad};
use alacritty::display::CursorShape;

const WHITE: Quad<f32> = [1.0, 1.0, 1.0, 1.0];
const RED: Quad<f32> = [1.0, 0.0, 0.0, 1.0];

fn observation(rect: Quad<f32>, now: f32, state: &CursorState<f32>) -> CursorUpdate<f32> {
    let u = state.shader_uniforms(0.0);
    CursorUpdate {
        rect,
        color: WHITE,
        now,
        shape: CursorShape::Block,
        app_visible: true,
        position_changed: rect[0] != u.current_cursor[0] || rect[1] != u.current_cursor[1],
        size_differs: rect[2] != u.current_cursor[2] || rect[3] != u.current_cursor[3],
        color_differs: WHITE != u.current_cursor_color,
        extra_cursors: Vec::new(),
        extra_rects_differ: false,
    }
}

#[test]
fn new_tracker_is_at_rest() {
    let state = CursorState::new([-1.0, -1.0, 0.0, 0.0], WHITE, 0.0f32);
    let u = state.shader_uniforms(0.0);
    assert_eq!(u.current_cursor, [-1.0, -1.0, 0.0, 0.0]);
    assert_eq!(u.previous_cursor, [-1.0, -1.0, 0.0, 0.0]);
    assert_eq!(u.current_cursor_count, 1);
    assert_eq!(u.previous_cursor_count, 1);
    assert_eq!(u.current_cursors.len(), 64);
    assert_eq!(u.current_cursors[1], [0.0; 4]);
    assert!(u.cursor_visible);
    assert_eq!(state.time_cursor_change(), 0.0);
    assert_eq!(state.time_mode_change(), 0.0);
}

#[test]
fn move_records_previous_and_time() {
    let mut state = CursorState::new([10.0, 20.0, 5.0, 10.0], WHITE, 0.0f32);
    let e = observation([15.0, 20.0, 5.0, 10.0], 1.5, &state);
    assert!(e.position_changed);
    state.update(&e);
    let u = state.shader_uniforms(0.0);
    assert_eq!(u.current_cursor, [15.0, 20.0, 5.0, 10.0]);
    assert_eq!(u.previous_cursor, [10.0, 20.0, 5.0, 10.0]);
    assert_eq!(u.time_cursor_change, 1.5);
    assert_eq!(u.time_mode_change, 0.0);
}

#[test]
fn repeated_observation_settles() {
    let mut state = CursorState::new([10.0, 20.0, 5.0, 10.0], WHITE, 0.0f32);
    let e = observation([15.0, 20.0, 5.0, 10.0], 1.5, &state);
    state.update(&e);
    let again = observation([15.0, 20.0, 5.0, 10.0], 3.0, &state);
    assert!(!again.position_changed);
    state.update(&again);
    let u = state.shader_uniforms(0.0);
    assert_eq!(u.time_cursor_change, 1.5);
    assert_eq!(u.previous_cursor, [10.0, 20.0, 5.0, 10.0]);
}

#[test]
fn hidden_cursor_moves_keep_size() {
    let mut state = CursorState::new([10.0, 20.0, 5.0, 10.0], WHITE, 0.0f32);
    let mut e = observation([30.0, 40.0, 8.0, 16.0], 2.0, &state);
    e.shape = CursorShape::Hidden;
    state.update(&e);
    let u = state.shader_uniforms(0.0);
    assert_eq!(u.current_cursor, [30.0, 40.0, 5.0, 10.0]);
    assert!(!u.cursor_visible);
    // Blinked off: no current cursors, previous ones kept for animation.
    assert_eq!(u.current_cursor_count, 0);
    assert_eq!(u.previous_cursor_count, 1);
}

#[test]
fn mode_change_suppresses_trail() {
    let mut state = CursorState::new([10.0, 20.0, 5.0, 10.0], WHITE, 0.0f32);
    let mut e = observation([10.0, 20.0, 5.0, 10.0], 4.0, &state);
    e.app_visible = false;
    e.shape = CursorShape::Hidden;
    state.update(&e);
    let u = state.shader_uniforms(0.0);
    assert_eq!(u.time_mode_change, 4.0);
    assert_eq!(u.time_cursor_change, 4.0);
    assert_eq!(u.previous_cursor, [10.0, 20.0, 5.0, 10.0]);
    // Hidden by the application: counts are still reported.
    assert_eq!(u.current_cursor_count, 1);
}

#[test]
fn color_and_style_transitions() {
    let mut state = CursorState::new([10.0, 20.0, 5.0, 10.0], WHITE, 0.0f32);
    let mut e = observation([10.0, 20.0, 5.0, 10.0], 1.0, &state);
    e.color = RED;
    e.color_differs = true;
    e.shape = CursorShape::Beam;
    state.update(&e);
    let u = state.shader_uniforms(0.0);
    assert_eq!(u.current_cursor_color, RED);
    assert_eq!(u.previous_cursor_color, WHITE);
    assert_eq!(u.current_cursor_style, 2);
    assert_eq!(u.previous_cursor_style, 0);

    let mut hidden = observation([10.0, 20.0, 5.0, 10.0], 2.0, &state);
    hidden.shape = CursorShape::Hidden;
    state.update(&hidden);
    let u = state.shader_uniforms(0.0);
    assert_eq!(u.current_cursor_style, 2);
}

#[test]
fn secondary_cursors_fill_slots() {
    let mut state = CursorState::new([0.0, 10.0, 5.0, 10.0], WHITE, 0.0f32);
    let mut e = observation([0.0, 10.0, 5.0, 10.0], 1.0, &state);
    e.extra_cursors = vec![[5.0, 10.0, 5.0, 10.0], [10.0, 20.0, 5.0, 10.0]];
    e.extra_rects_differ = true;
    state.update(&e);
    let u = state.shader_uniforms(-1.0);
    assert_eq!(u.current_cursor_count, 3);
    assert_eq!(u.previous_cursor_count, 1);
    assert_eq!(u.current_cursors[0], [0.0, 10.0, 5.0, 10.0]);
    assert_eq!(u.current_cursors[1], [5.0, 10.0, 5.0, 10.0]);
    assert_eq!(u.current_cursors[2], [10.0, 20.0, 5.0, 10.0]);
    assert_eq!(u.current_cursors[3], [-1.0; 4]);
    assert_eq!(u.current_cursor_types[0], 0);
    assert_eq!(u.current_cursor_types[1], 1);
    assert_eq!(u.current_cursor_types[2], 1);
    assert_eq!(u.current_cursor_types[3], 0);
    assert_eq!(u.current_cursor_colors[2], WHITE);
    // No secondary cursor was tracked before this frame.
    assert_eq!(u.previous_cursors[1], [-1.0; 4]);
    assert_eq!(state.time_cursor_change(), 1.0);

    // Back to a single cursor: the secondary ones become previous.
    let single = observation([0.0, 10.0, 5.0, 10.0], 2.0, &state);
    state.update(&single);
    let u = state.shader_uniforms(0.0);
    assert_eq!(u.current_cursor_count, 1);
    assert_eq!(u.previous_cursor_count, 3);
    assert_eq!(u.previous_cursors[1], [5.0, 10.0, 5.0, 10.0]);
    assert_eq!(u.previous_cursors[2], [10.0, 20.0, 5.0, 10.0]);
    assert_eq!(u.current_cursors[1], [0.0; 4]);
    assert_eq!(state.time_cursor_change(), 2.0);
}

#[test]
fn secondary_cursors_are_capped() {
    let mut state = CursorState::new([0.0, 10.0, 5.0, 10.0], WHITE, 0.0f32);
    let mut e = observation([0.0, 10.0, 5.0, 10.0], 1.0, &state);
    e.extra_cursors = (0..70).map(|k| [k as f32, 10.0, 5.0, 10.0]).collect();
    e.extra_rects_differ = true;
    state.update(&e);
    let u = state.shader_uniforms(0.0);
    assert_eq!(u.current_cursor_count, 65);
    assert_eq!(u.current_cursors[63], [62.0, 10.0, 5.0, 10.0]);
}

#[test]
fn tracking_waits_for_a_pipeline() {
    let mut state = CursorState::new([10.0, 20.0, 5.0, 10.0], WHITE, 0.0f32);
    let e = observation([15.0, 20.0, 5.0, 10.0], 1.5, &state);
    assert!(!state.update_if_active(false, &e));
    assert_eq!(state.shader_uniforms(0.0).current_cursor, [10.0, 20.0, 5.0, 10.0]);
    assert!(state.update_if_active(true, &e));
    assert_eq!(state.shader_uniforms(0.0).current_cursor, [15.0, 20.0, 5.0, 10.0]);
}
