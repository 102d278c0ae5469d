use vstd::prelude::*;

verus! {

/// A pointer scroll axis.
#[derive(Debug, Clone, Copy, PartialEq, Eq, Structural)]
pub enum PointerAxis {
    Horizontal,
    Vertical,
}

pub open spec fn clamp_i32(value: int) -> i32 {
    if value > i32::MAX {
        i32::MAX
    } else if value < i32::MIN {
        i32::MIN
    } else {
        value as i32
    }
}

/// `a + b`, saturating at the bounds of `i32`, as `i32::saturating_add`.
pub fn saturating_add_i32(a: i32, b: i32) -> (sum: i32)
    ensures
        sum == clamp_i32(a + b),
{
    let wide = a as i64 + b as i64;
    if wide > i32::MAX as i64 {
        i32::MAX
    } else if wide < i32::MIN as i64 {
        i32::MIN
    } else {
        wide as i32
    }
}

/// `a * b`, saturating at the bounds of `i32`, as `i32::saturating_mul`.
pub fn saturating_mul_i32(a: i32, b: i32) -> (product: i32)
    ensures
        product == clamp_i32(a * b),
{
    assert(-0x4000_0000_0000_0000 <= a * b <= 0x4000_0000_0000_0000) by (nonlinear_arith)
        requires
            i32::MIN <= a <= i32::MAX,
            i32::MIN <= b <= i32::MAX,
    ;
    let wide = a as i64 * b as i64;
    if wide > i32::MAX as i64 {
        i32::MAX
    } else if wide < i32::MIN as i64 {
        i32::MIN
    } else {
        wide as i32
    }
}

/// `-a`, saturating at the bounds of `i32`, as `i32::saturating_neg`.
pub fn saturating_neg_i32(a: i32) -> (negated: i32)
    ensures
        negated == clamp_i32(-a),
{
    if a == i32::MIN {
        i32::MAX
    } else {
        -a
    }
}

/// The wheel delta of one axis in a pointer frame from its discrete data:
/// high-resolution `value120` wins over legacy discrete steps of 120 units;
/// Wayland's down/right is positive and the renderer's is negative. Without
/// either, the frame scrolls smoothly and the delta comes from the
/// continuous value.
pub open spec fn step_delta(discrete: i32, has_discrete: bool, value120: i32, has_value120: bool) -> Option<i32> {
    if has_value120 {
        Some(clamp_i32(-value120))
    } else if has_discrete {
        Some(clamp_i32(-clamp_i32(discrete * 120)))
    } else {
        None
    }
}

pub fn wheel_step_delta(discrete: i32, has_discrete: bool, value120: i32, has_value120: bool) -> (delta: Option<i32>)
    ensures
        delta == step_delta(discrete, has_discrete, value120, has_value120),
{
    if has_value120 {
        return Some(saturating_neg_i32(value120));
    }
    if has_discrete {
        return Some(saturating_neg_i32(saturating_mul_i32(discrete, 120)));
    }
    None
}

/// The discrete scroll data of one pointer frame, per axis.
#[derive(Debug, Clone, Copy, PartialEq, Eq, Structural)]
pub struct AxisSteps {
    pub discrete_x: i32,
    pub discrete_y: i32,
    pub value120_x: i32,
    pub value120_y: i32,
    pub has_discrete_x: bool,
    pub has_discrete_y: bool,
    pub has_value120_x: bool,
    pub has_value120_y: bool,
}

impl Default for AxisSteps {
    fn default() -> (steps: Self)
        ensures
            steps == (AxisSteps {
                discrete_x: 0,
                discrete_y: 0,
                value120_x: 0,
                value120_y: 0,
                has_discrete_x: false,
                has_discrete_y: false,
                has_value120_x: false,
                has_value120_y: false,
            }),
    {
        AxisSteps {
            discrete_x: 0,
            discrete_y: 0,
            value120_x: 0,
            value120_y: 0,
            has_discrete_x: false,
            has_discrete_y: false,
            has_value120_x: false,
            has_value120_y: false,
        }
    }
}

impl AxisSteps {
    /// Adds legacy discrete steps on an axis.
    pub fn discrete(&mut self, axis: PointerAxis, steps: i32)
        ensures
            axis == PointerAxis::Horizontal ==> *final(self) == (AxisSteps {
                discrete_x: clamp_i32(old(self).discrete_x + steps),
                has_discrete_x: true,
                ..*old(self)
            }),
            axis == PointerAxis::Vertical ==> *final(self) == (AxisSteps {
                discrete_y: clamp_i32(old(self).discrete_y + steps),
                has_discrete_y: true,
                ..*old(self)
            }),
    {
        match axis {
            PointerAxis::Horizontal => {
                self.discrete_x = saturating_add_i32(self.discrete_x, steps);
                self.has_discrete_x = true;
            },
            PointerAxis::Vertical => {
                self.discrete_y = saturating_add_i32(self.discrete_y, steps);
                self.has_discrete_y = true;
            },
        }
    }

    /// Adds high-resolution scroll (120 units per detent) on an axis.
    pub fn value120(&mut self, axis: PointerAxis, value: i32)
        ensures
            axis == PointerAxis::Horizontal ==> *final(self) == (AxisSteps {
                value120_x: clamp_i32(old(self).value120_x + value),
                has_value120_x: true,
                ..*old(self)
            }),
            axis == PointerAxis::Vertical ==> *final(self) == (AxisSteps {
                value120_y: clamp_i32(old(self).value120_y + value),
                has_value120_y: true,
                ..*old(self)
            }),
    {
        match axis {
            PointerAxis::Horizontal => {
                self.value120_x = saturating_add_i32(self.value120_x, value);
                self.has_value120_x = true;
            },
            PointerAxis::Vertical => {
                self.value120_y = saturating_add_i32(self.value120_y, value);
                self.has_value120_y = true;
            },
        }
    }

    /// The wheel delta of an axis from its discrete data, if it has any.
    pub fn delta(&self, axis: PointerAxis) -> (delta: Option<i32>)
        ensures
            axis == PointerAxis::Horizontal ==> delta == step_delta(
                self.discrete_x,
                self.has_discrete_x,
                self.value120_x,
                self.has_value120_x,
            ),
            axis == PointerAxis::Vertical ==> delta == step_delta(
                self.discrete_y,
                self.has_discrete_y,
                self.value120_y,
                self.has_value120_y,
            ),
    {
        match axis {
            PointerAxis::Horizontal => wheel_step_delta(
                self.discrete_x,
                self.has_discrete_x,
                self.value120_x,
                self.has_value120_x,
            ),
            PointerAxis::Vertical => wheel_step_delta(
                self.discrete_y,
                self.has_discrete_y,
                self.value120_y,
                self.has_value120_y,
            ),
        }
    }
}

const BTN_LEFT: u32 = 0x110u32;
const BTN_RIGHT: u32 = 0x111u32;
const BTN_MIDDLE: u32 = 0x112u32;

/// The renderer's index of a Linux mouse button: left 0, middle 1, right 2.
pub open spec fn renderer_button(button: u32) -> Option<usize> {
    if button == 0x110 {
        Some(0usize)
    } else if button == 0x112 {
        Some(1usize)
    } else if button == 0x111 {
        Some(2usize)
    } else {
        None
    }
}

pub fn map_button(button: u32) -> (index: Option<usize>)
    ensures
        index == renderer_button(button),
{
    if button == BTN_LEFT {
        Some(0)
    } else if button == BTN_MIDDLE {
        Some(1)
    } else if button == BTN_RIGHT {
        Some(2)
    } else {
        None
    }
}

} // verus!
