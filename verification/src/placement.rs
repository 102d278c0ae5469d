use vstd::prelude::*;

verus! {

/// `v` limited to `lo..=hi`.
pub open spec fn clamped(v: int, lo: int, hi: int) -> int {
    if v < lo {
        lo
    } else if v > hi {
        hi
    } else {
        v
    }
}

/// Half of `v`, rounded toward zero (Rust's `/ 2` on signed integers).
pub open spec fn half_toward_zero(v: int) -> int {
    if v >= 0 {
        v / 2
    } else {
        -((-v) / 2)
    }
}

/// Where a wallpaper window goes on a monitor: the size of the image it
/// shows (the window's size), and the window's position and size in X11's
/// 16-bit coordinates.
#[derive(Debug, Clone, Copy, PartialEq, Eq)]
pub struct WindowPlacement {
    pub image_width: u32,
    pub image_height: u32,
    pub x: i16,
    pub y: i16,
    pub width: u16,
    pub height: u16,
}

fn clamp_to_u16(v: u32) -> (c: u16)
    ensures
        c == clamped(v as int, 1, 65535),
{
    if v < 1 {
        1
    } else if v > 65535 {
        65535
    } else {
        v as u16
    }
}

/// The start of a window of `size` centred on a monitor span that starts at
/// `start` and is `span` long, limited to X11's 16-bit coordinates.
fn centred_start(start: i16, span: u32, size: u16) -> (at: i16)
    requires
        span <= i32::MAX,
    ensures
        at == clamped(start + half_toward_zero(span - size), -32768, 32767),
{
    let d: i64 = span as i64 - size as i64;
    let half: i64 = if d >= 0 {
        d / 2
    } else {
        -((-d) / 2)
    };
    let at: i64 = start as i64 + half;
    if at < -32768 {
        -32768
    } else if at > 32767 {
        32767
    } else {
        at as i16
    }
}

/// Places the wallpaper window of a monitor at (`x`, `y`) of
/// `monitor_width` × `monitor_height` pixels: the window has the configured
/// render size, or the monitor's size when none is set, each side limited to
/// 1..=65535, and the image it shows has the window's size; it is centred on
/// the monitor (half of the difference rounded toward zero), its position
/// limited to the 16-bit range.
pub fn x11_window_placement(
    x: i16,
    y: i16,
    monitor_width: u32,
    monitor_height: u32,
    render_size: Option<(u32, u32)>,
) -> (placement: WindowPlacement)
    requires
        monitor_width <= i32::MAX,
        monitor_height <= i32::MAX,
    ensures
        placement.width == clamped(
            match render_size {
                Some(size) => size.0,
                None => monitor_width,
            } as int,
            1,
            65535,
        ),
        placement.height == clamped(
            match render_size {
                Some(size) => size.1,
                None => monitor_height,
            } as int,
            1,
            65535,
        ),
        placement.image_width == placement.width,
        placement.image_height == placement.height,
        placement.x == clamped(x + half_toward_zero(monitor_width - placement.width), -32768, 32767),
        placement.y == clamped(y + half_toward_zero(monitor_height - placement.height), -32768, 32767),
{
    let (image_width, image_height) = match render_size {
        Some(size) => size,
        None => (monitor_width, monitor_height),
    };
    let width = clamp_to_u16(image_width);
    let height = clamp_to_u16(image_height);
    WindowPlacement {
        image_width: width as u32,
        image_height: height as u32,
        x: centred_start(x, monitor_width, width),
        y: centred_start(y, monitor_height, height),
        width,
        height,
    }
}

impl WindowPlacement {
    /// Whether a rendered frame of `width` × `height` fits the window's
    /// image; a larger frame is refused.
    pub fn frame_fits(&self, width: u32, height: u32) -> (fits: bool)
        ensures
            fits == (width <= self.image_width && height <= self.image_height),
    {
        width <= self.image_width && height <= self.image_height
    }
}

} // verus!
