use we_layerd::pointer::{PendingInput, PointerEvent, PointerInputState};

const BTN_LEFT: u32 = 0x110;
const BTN_RIGHT: u32 = 0x111;
const BTN_MIDDLE: u32 = 0x112;

#[derive(Debug, Clone, Copy, PartialEq)]
enum Input {
    Move(f32, f32),
    Down(f32, f32, i32),
    Focus(bool),
}

fn queue(pending: &mut PendingInput<Input>, event: Input) {
    let pointer_move = matches!(event, Input::Move(..));
    pending.push(event, pointer_move);
}

#[test]
fn consecutive_pointer_moves_are_coalesced_to_the_latest_position() {
    let mut pending = PendingInput::new();
    queue(&mut pending, Input::Move(0.1, 0.2));
    queue(&mut pending, Input::Move(0.8, 0.9));
    assert_eq!(pending.drain(), vec![Input::Move(0.8, 0.9)]);
}

#[test]
fn pointer_moves_separated_by_an_action_are_not_coalesced() {
    let mut pending = PendingInput::new();
    queue(&mut pending, Input::Move(0.1, 0.2));
    queue(&mut pending, Input::Down(0.1, 0.2, 0));
    queue(&mut pending, Input::Move(0.8, 0.9));
    assert_eq!(
        pending.drain(),
        vec![Input::Move(0.1, 0.2), Input::Down(0.1, 0.2, 0), Input::Move(0.8, 0.9)]
    );
}

#[test]
fn semantic_state_transitions_are_never_discarded() {
    let mut pending = PendingInput::new();
    for focused in (0..600).map(|index| index % 2 == 0) {
        queue(&mut pending, Input::Focus(focused));
    }
    let events = pending.drain();
    assert_eq!(events.len(), 600);
    assert_eq!(events.first(), Some(&Input::Focus(true)));
    assert_eq!(events.last(), Some(&Input::Focus(false)));
}

#[test]
fn draining_and_clearing_empty_the_queue() {
    let mut pending = PendingInput::new();
    queue(&mut pending, Input::Focus(true));
    assert_eq!(pending.drain().len(), 1);
    assert!(pending.drain().is_empty());
    queue(&mut pending, Input::Move(0.5, 0.5));
    pending.clear();
    queue(&mut pending, Input::Move(0.1, 0.1));
    assert_eq!(pending.drain(), vec![Input::Move(0.1, 0.1)]);
}

#[test]
fn enter_and_leave_preserve_focus_and_release_every_pressed_button() {
    let at = Some((0.2f32, 0.3f32));
    let mut pointer = PointerInputState::new();
    assert_eq!(pointer.enter(at), vec![PointerEvent::Focus(true), PointerEvent::Move((0.2, 0.3))]);
    assert_eq!(pointer.button(BTN_LEFT, true, at), Some(PointerEvent::Down((0.2, 0.3), 0)));
    assert_eq!(pointer.button(BTN_RIGHT, true, at), Some(PointerEvent::Down((0.2, 0.3), 2)));
    assert_eq!(
        pointer.leave(at),
        vec![
            PointerEvent::Up((0.2, 0.3), 0),
            PointerEvent::Up((0.2, 0.3), 2),
            PointerEvent::Focus(false),
        ]
    );
    assert!(!pointer.focused());
    assert!(!pointer.is_pressed(0));
    assert!(!pointer.is_pressed(2));
}

#[test]
fn entering_twice_reports_focus_once() {
    let mut pointer = PointerInputState::new();
    assert_eq!(pointer.enter(None), vec![PointerEvent::Focus(true)]);
    assert_eq!(pointer.enter(Some((1u32, 2u32))), vec![PointerEvent::Move((1, 2))]);
}

#[test]
fn an_unfocused_pointer_reports_nothing() {
    let mut pointer = PointerInputState::new();
    assert_eq!(pointer.move_to(Some((1u32, 1u32))), None);
    assert_eq!(pointer.button(BTN_LEFT, true, Some((1, 1))), None);
    assert_eq!(pointer.finish_wheel(0, 120, Some((1, 1))), None);
    assert_eq!(pointer.leave(Some((1, 1))), Vec::new());
}

#[test]
fn repeated_and_unknown_buttons_are_ignored() {
    let mut pointer = PointerInputState::new();
    pointer.enter(Some((5u32, 5u32)));
    assert_eq!(pointer.button(BTN_MIDDLE, true, Some((5, 5))), Some(PointerEvent::Down((5, 5), 1)));
    assert_eq!(pointer.button(BTN_MIDDLE, true, Some((6, 6))), None);
    assert_eq!(pointer.button(0x113, true, Some((6, 6))), None);
    assert_eq!(pointer.button(BTN_LEFT, false, Some((6, 6))), None);
}

#[test]
fn a_press_needs_a_position_and_a_release_falls_back_to_the_last_one() {
    let mut pointer = PointerInputState::new();
    pointer.enter(None);
    assert_eq!(pointer.button(BTN_LEFT, true, None), None);
    assert!(!pointer.is_pressed(0));
    assert_eq!(pointer.move_to(Some((3u32, 4u32))), Some(PointerEvent::Move((3, 4))));
    assert_eq!(pointer.button(BTN_LEFT, true, Some((3, 4))), Some(PointerEvent::Down((3, 4), 0)));
    assert_eq!(pointer.button(BTN_LEFT, false, None), Some(PointerEvent::Up((3, 4), 0)));
    assert!(!pointer.is_pressed(0));
}

#[test]
fn leaving_without_any_position_still_releases_the_buttons_silently() {
    let mut pointer = PointerInputState::new();
    pointer.enter(Some((1u32, 1u32)));
    pointer.button(BTN_RIGHT, true, Some((1, 1)));
    pointer.clear();
    pointer.enter(None);
    assert_eq!(pointer.leave(None), vec![PointerEvent::Focus(false)]);
}

#[test]
fn wheel_events_need_a_delta_and_a_position() {
    let mut pointer = PointerInputState::new();
    pointer.enter(Some((0.5f32, 0.5f32)));
    assert_eq!(pointer.finish_wheel(0, 0, Some((0.5, 0.5))), None);
    assert_eq!(pointer.finish_wheel(-120, 240, None), None);
    assert_eq!(
        pointer.finish_wheel(-120, 240, Some((0.5, 0.5))),
        Some(PointerEvent::Wheel((0.5, 0.5), -120, 240))
    );
}
