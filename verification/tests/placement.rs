use we_layerd::placement::{x11_window_placement, WindowPlacement};

#[test]
fn window_without_render_size_covers_its_monitor() {
    assert_eq!(
        x11_window_placement(0, 0, 1920, 1080, None),
        WindowPlacement { image_width: 1920, image_height: 1080, x: 0, y: 0, width: 1920, height: 1080 }
    );
}

#[test]
fn smaller_render_size_is_centred_on_its_monitor() {
    assert_eq!(
        x11_window_placement(1920, 0, 1920, 1080, Some((1280, 720))),
        WindowPlacement { image_width: 1280, image_height: 720, x: 2240, y: 180, width: 1280, height: 720 }
    );
}

#[test]
fn larger_render_size_overhangs_evenly() {
    assert_eq!(
        x11_window_placement(0, 0, 1920, 1080, Some((3840, 2160))),
        WindowPlacement { image_width: 3840, image_height: 2160, x: -960, y: -540, width: 3840, height: 2160 }
    );
}

#[test]
fn window_size_is_limited_to_sixteen_bits_and_at_least_one() {
    assert_eq!(
        x11_window_placement(0, 0, 1920, 1080, Some((70_000, 0))),
        WindowPlacement { image_width: 65_535, image_height: 1, x: -31_807, y: 539, width: 65_535, height: 1 }
    );
}

#[test]
fn odd_overhang_is_halved_toward_zero() {
    let placement = x11_window_placement(10, 0, 101, 50, Some((200, 50)));
    assert_eq!(placement.x, 10 + (101_i32 - 200) as i16 / 2);
    assert_eq!(placement.x, -39);
}

#[test]
fn window_position_is_limited_to_sixteen_bits() {
    let placement = x11_window_placement(32_000, -32_000, 1920, 1080, Some((100, 100)));
    assert_eq!(placement.x, i16::MAX);
    assert_eq!(placement.y, -31_510);
}

#[test]
fn frames_larger_than_the_window_image_do_not_fit() {
    let placement = x11_window_placement(0, 0, 1920, 1080, Some((70_000, 0)));
    assert!(placement.frame_fits(65_535, 1));
    assert!(!placement.frame_fits(65_536, 1));
    assert!(!placement.frame_fits(10, 2));
}
