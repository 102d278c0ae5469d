use we_layerd::input::{
    saturating_add_i32, saturating_mul_i32, saturating_neg_i32, wheel_step_delta, AxisSteps,
    PointerAxis,
};

#[test]
fn a_pointer_frame_combines_axes_and_prefers_value120() {
    let mut steps = AxisSteps::default();
    steps.value120(PointerAxis::Horizontal, 120);
    steps.value120(PointerAxis::Vertical, -240);
    steps.discrete(PointerAxis::Horizontal, 5);
    assert_eq!(steps.delta(PointerAxis::Horizontal), Some(-120));
    assert_eq!(steps.delta(PointerAxis::Vertical), Some(240));
}

#[test]
fn discrete_scroll_steps_use_120_units_and_wayland_signs_are_inverted() {
    let mut steps = AxisSteps::default();
    steps.discrete(PointerAxis::Horizontal, 1);
    steps.discrete(PointerAxis::Vertical, -2);
    assert_eq!(steps.delta(PointerAxis::Horizontal), Some(-120));
    assert_eq!(steps.delta(PointerAxis::Vertical), Some(240));
}

#[test]
fn frames_without_discrete_data_scroll_smoothly() {
    let steps = AxisSteps::default();
    assert_eq!(steps.delta(PointerAxis::Vertical), None);
    assert_eq!(wheel_step_delta(3, false, 7, false), None);
}

#[test]
fn scroll_arithmetic_saturates() {
    assert_eq!(saturating_add_i32(i32::MAX, 1), i32::MAX);
    assert_eq!(saturating_add_i32(i32::MIN, -1), i32::MIN);
    assert_eq!(saturating_mul_i32(i32::MAX / 2, 120), i32::MAX);
    assert_eq!(saturating_neg_i32(i32::MIN), i32::MAX);
    assert_eq!(wheel_step_delta(i32::MIN, true, 0, false), Some(i32::MAX));
    assert_eq!(wheel_step_delta(0, false, i32::MIN, true), Some(i32::MAX));
}
