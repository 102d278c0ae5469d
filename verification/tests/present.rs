use we_layerd::backend::BackendKind;
use we_layerd::hooks::{wallpaper_applied_env, AppliedHooks, WallpaperAppliedTrigger};
use we_layerd::input::map_button;
use we_layerd::present::{
    can_present_next_frame, poll_timeout, BufferState, to_opaque_drm_fourcc, FramePacing, FrameStats,
    PresentBackend,
};

const BTN_LEFT: u32 = 0x110;
const BTN_RIGHT: u32 = 0x111;
const BTN_MIDDLE: u32 = 0x112;

#[test]
fn exported_rgba_formats_are_presented_as_opaque() {
    assert_eq!(to_opaque_drm_fourcc(u32::from_le_bytes(*b"AB24")), u32::from_le_bytes(*b"XB24"));
    assert_eq!(to_opaque_drm_fourcc(u32::from_le_bytes(*b"AR24")), u32::from_le_bytes(*b"XR24"));
    assert_eq!(to_opaque_drm_fourcc(u32::from_le_bytes(*b"NV12")), u32::from_le_bytes(*b"NV12"));
}

#[test]
fn linux_mouse_buttons_use_renderer_indices() {
    assert_eq!(map_button(BTN_LEFT), Some(0));
    assert_eq!(map_button(BTN_MIDDLE), Some(1));
    assert_eq!(map_button(BTN_RIGHT), Some(2));
    assert_eq!(map_button(0x113), None);
}

#[test]
fn wallpaper_applied_fires_once_after_the_first_presented_frame() {
    let mut trigger = WallpaperAppliedTrigger::default();
    assert!(!trigger.observe(0));
    assert!(trigger.observe(1));
    assert!(!trigger.observe(2));
}

fn ready() -> FramePacing {
    FramePacing {
        paused: false,
        stopping: false,
        ready_for_next_frame: true,
        callback_pending: false,
        in_flight: 1,
        max_in_flight: 2,
    }
}

#[test]
fn frames_wait_for_callbacks_and_buffer_budget() {
    assert!(can_present_next_frame(&ready()));
    assert!(!can_present_next_frame(&FramePacing { paused: true, ..ready() }));
    assert!(!can_present_next_frame(&FramePacing { stopping: true, ..ready() }));
    assert!(!can_present_next_frame(&FramePacing { callback_pending: true, ..ready() }));
    assert!(!can_present_next_frame(&FramePacing { ready_for_next_frame: false, ..ready() }));
    assert!(!can_present_next_frame(&FramePacing { in_flight: 2, ..ready() }));
}

#[test]
fn poll_timeout_waits_for_the_next_tick_at_most_100ms() {
    let ms = 1_000_000_u64;
    assert_eq!(poll_timeout(10 * ms, 26 * ms + 500_000, &ready()), 16);
    assert_eq!(poll_timeout(10 * ms, 5 * ms, &ready()), 0);
    assert_eq!(poll_timeout(0, 500 * ms, &ready()), 100);
    assert_eq!(poll_timeout(0, 5 * ms, &FramePacing { paused: true, ..ready() }), 100);
}

#[test]
fn present_backends_have_status_names() {
    assert_eq!(PresentBackend::Dmabuf.as_str(), "dmabuf");
    assert_eq!(PresentBackend::Shm.as_str(), "shm");
}

#[test]
fn frame_counters_track_acquired_presented_and_released_frames() {
    let mut stats = FrameStats::default();
    stats.note_frame_acquired(PresentBackend::Dmabuf, 1920, 1080);
    stats.note_frame_presented(0);
    stats.note_frame_acquired(PresentBackend::Shm, 1280, 720);
    stats.note_frame_presented(1);
    stats.note_skipped_by_backpressure();
    stats.note_no_frame_poll();
    stats.note_buffers_released(2, 0);
    assert_eq!(stats.acquired, 2);
    assert_eq!(stats.presented, 2);
    assert_eq!(stats.skipped_by_backpressure, 1);
    assert_eq!(stats.no_frame_polls, 1);
    assert_eq!(stats.released_buffers, 2);
    assert_eq!(stats.in_flight_count, 0);
    assert_eq!(stats.last_present_backend, Some(PresentBackend::Shm));
    assert_eq!((stats.last_frame_width, stats.last_frame_height), (1280, 720));
    stats.note_frame_presented(3);
    assert_eq!(stats.in_flight_count, 4);
    stats.clear_in_flight();
    assert_eq!(stats.in_flight_count, 0);
    stats.note_error("lost".to_string());
    assert_eq!(stats.last_error.as_deref(), Some("lost"));
}

#[test]
fn frame_counters_saturate() {
    let mut stats = FrameStats { released_buffers: u64::MAX - 1, acquired: u64::MAX, ..FrameStats::default() };
    stats.note_buffers_released(5, 1);
    stats.note_frame_acquired(PresentBackend::Shm, 1, 1);
    assert_eq!(stats.released_buffers, u64::MAX);
    assert_eq!(stats.acquired, u64::MAX);
}

#[test]
fn wallpaper_applied_hooks_see_the_event_source_backend_and_generation() {
    let vars = wallpaper_applied_env("/home/me/wallpapers/42", BackendKind::LayerShell, 17);
    let pairs: Vec<(&str, &str)> = vars.iter().map(|(k, v)| (k.as_str(), v.as_str())).collect();
    assert_eq!(
        pairs,
        vec![
            ("WE_LAYERD_EVENT", "wallpaper_applied"),
            ("WE_LAYERD_SOURCE", "/home/me/wallpapers/42"),
            ("WE_LAYERD_BACKEND", "layer_shell"),
            ("WE_LAYERD_GENERATION", "17"),
        ]
    );
}

#[test]
fn each_output_fires_its_hook_once_per_source() {
    let mut hooks = AppliedHooks::new();
    assert!(!hooks.observe("DP-1", "/w/a", 0));
    assert!(hooks.observe("DP-1", "/w/a", 1));
    assert!(!hooks.observe("DP-1", "/w/a", 2));
    assert!(hooks.observe("HDMI-A-1", "/w/a", 1));
    assert!(hooks.observe("DP-1", "/w/b", 3));
    assert!(!hooks.observe("DP-1", "/w/b", 4));
    hooks.remove("DP-1");
    assert!(hooks.observe("DP-1", "/w/b", 5));
    assert!(!hooks.observe("HDMI-A-1", "/w/a", 9));
}

#[test]
fn a_buffer_release_is_seen_through_the_presenter_handle() {
    let (state, released) = BufferState::new();
    assert!(!released.load(std::sync::atomic::Ordering::Acquire));
    state.released.store(true, std::sync::atomic::Ordering::Release);
    assert!(released.load(std::sync::atomic::Ordering::Acquire));
}
