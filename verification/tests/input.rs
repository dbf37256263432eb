use holyland::input::{
    key_action, Action, Input, KeyLayout, INITIAL_DELAY_MS, KEY_LSHIFT, KEY_RSHIFT, KEY_T, KEY_UP, REPEAT_PERIOD_MS,
};

#[test]
fn press_is_queued_once_and_drained() {
    let mut input = Input::new();
    input.press(Action::A, 0);
    input.press(Action::A, 10);
    assert!(input.is_held(Action::A));
    assert_eq!(input.drain(20), vec![Action::A]);
    assert!(input.drain(30).is_empty());
    input.release(Action::A);
    assert!(!input.is_held(Action::A));
}

#[test]
fn held_direction_repeats_after_delay_then_period() {
    let mut input = Input::new();
    input.press(Action::Left, 1_000);
    assert_eq!(input.drain(1_000), vec![Action::Left]);
    // No repeat before the initial delay.
    assert!(input.drain(1_000 + INITIAL_DELAY_MS - 1).is_empty());
    // First repeat once the delay has passed.
    assert_eq!(input.drain(1_000 + INITIAL_DELAY_MS), vec![Action::Left]);
    // Next one a period later.
    let t = 1_000 + INITIAL_DELAY_MS;
    assert!(input.drain(t + REPEAT_PERIOD_MS - 1).is_empty());
    assert_eq!(input.drain(t + REPEAT_PERIOD_MS), vec![Action::Left]);
}

#[test]
fn releasing_last_direction_cancels_repeat() {
    let mut input = Input::new();
    input.press(Action::Up, 0);
    input.press(Action::Right, 5);
    assert_eq!(input.drain(6), vec![Action::Up, Action::Right]);
    input.release(Action::Up);
    // Right is still held: the repeat stays scheduled from its press.
    assert_eq!(input.drain(5 + INITIAL_DELAY_MS), vec![Action::Right]);
    input.release(Action::Right);
    assert!(input.drain(10_000).is_empty());
}

#[test]
fn repeat_lists_directions_in_fixed_order_after_queued_presses() {
    let mut input = Input::new();
    input.press(Action::Right, 0);
    input.press(Action::Down, 0);
    input.press(Action::B, 0);
    let first = input.drain(0);
    assert_eq!(first, vec![Action::Right, Action::Down, Action::B]);
    input.press(Action::Wait, 100);
    assert_eq!(input.drain(300), vec![Action::Wait, Action::Down, Action::Right]);
}

#[test]
fn non_movement_press_does_not_schedule_repeat() {
    let mut input = Input::new();
    input.press(Action::Start, 0);
    assert_eq!(input.drain(0), vec![Action::Start]);
    assert!(input.drain(1_000).is_empty());
}

#[test]
fn key_codes_map_per_layout() {
    assert_eq!(key_action(KeyLayout::Desktop, KEY_UP), Some(Action::Up));
    assert_eq!(key_action(KeyLayout::Desktop, 97), Some(Action::A));
    assert_eq!(key_action(KeyLayout::Desktop, 115), Some(Action::B));
    assert_eq!(key_action(KeyLayout::Desktop, 109), Some(Action::OpenOvermap));
    assert_eq!(key_action(KeyLayout::Desktop, 46), Some(Action::Wait));
    assert_eq!(key_action(KeyLayout::Desktop, KEY_LSHIFT), Some(Action::Select));
    assert_eq!(key_action(KeyLayout::Desktop, KEY_RSHIFT), Some(Action::Select));
    assert_eq!(key_action(KeyLayout::Desktop, 27), Some(Action::Start));
    assert_eq!(key_action(KeyLayout::Desktop, KEY_T), None);
    assert_eq!(key_action(KeyLayout::Handheld, KEY_LSHIFT), Some(Action::X));
    assert_eq!(key_action(KeyLayout::Handheld, KEY_T), Some(Action::Start));
    assert_eq!(key_action(KeyLayout::Handheld, 32), Some(Action::A));
    assert_eq!(key_action(KeyLayout::Handheld, 97), None);
}
