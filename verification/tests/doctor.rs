use we_layerd::backend::{registered_window, BackendKind, RENDERER_APP_ID};
use we_layerd::doctor::{
    assets_check, backend_check, cache_parent_check, config_check, env_flag_enabled,
    renderer_library_check, source_check, nvidia_prime_check, nvidia_prime_detected, optional_globals, push_global_check,
    push_options_json_checks, required_globals,
};
use we_layerd::pointer::focused_output_index;
use we_layerd::text::{decimal_text, text_ends_with, text_is_blank};

fn advertised() -> Vec<(String, u32)> {
    vec![
        ("wl_compositor".to_string(), 6),
        ("wl_shm".to_string(), 1),
        ("zwp_linux_dmabuf_v1".to_string(), 4),
        ("wl_shm".to_string(), 2),
    ]
}

#[test]
fn global_checks_report_versions_and_missing_globals_by_severity() {
    let globals = advertised();
    let mut lines = Vec::new();
    push_global_check(&mut lines, &globals, "wl_compositor", true);
    push_global_check(&mut lines, &globals, "wl_shm", true);
    push_global_check(&mut lines, &globals, "zwlr_layer_shell_v1", true);
    push_global_check(&mut lines, &globals, "wp_viewporter", false);
    push_global_check(&mut lines, &globals, "zwp_linux_dmabuf_v1", false);
    assert_eq!(
        lines,
        vec![
            "OK global wl_compositor = v6",
            "OK global wl_shm = v1",
            "ERR global zwlr_layer_shell_v1 = missing",
            "WARN global wp_viewporter = missing",
            "OK global zwp_linux_dmabuf_v1 = v4",
        ]
    );
}

#[test]
fn each_backend_requires_its_shell_global() {
    assert_eq!(required_globals(BackendKind::LayerShell), vec!["wl_compositor", "wl_shm", "zwlr_layer_shell_v1"]);
    assert_eq!(required_globals(BackendKind::Gnome), vec!["wl_compositor", "wl_shm", "xdg_wm_base"]);
    assert_eq!(
        optional_globals(),
        vec!["zwp_linux_dmabuf_v1", "wp_viewporter", "wp_fractional_scale_manager_v1"]
    );
}

#[test]
fn report_lines_for_backend_config_options_and_prime_offload() {
    assert_eq!(backend_check(BackendKind::Gnome), "OK backend = gnome");
    assert_eq!(backend_check(BackendKind::LayerShell), "OK backend = layer_shell");
    assert_eq!(config_check(Some("/etc/we.toml")), "OK config = /etc/we.toml");
    assert_eq!(config_check(None), "WARN config = using built-in defaults");
    let mut lines = vec!["first".to_string()];
    push_options_json_checks(&mut lines, true, 12, false);
    assert_eq!(
        lines,
        vec![
            "first",
            "OK renderer.options_json_present = true",
            "OK renderer.options_json_len = 12",
            "ERR renderer.options_json_valid = false",
        ]
    );
    let mut lines = Vec::new();
    push_options_json_checks(&mut lines, false, 0, true);
    assert_eq!(lines[2], "OK renderer.options_json_valid = true");
    assert_eq!(
        nvidia_prime_check(true),
        "WARN nvidia_prime_offload = detected; runtime will force SHM fallback"
    );
    assert_eq!(nvidia_prime_check(false), "OK nvidia_prime_offload = not detected");
}

#[test]
fn integers_are_written_in_decimal() {
    assert_eq!(decimal_text(0), "0");
    assert_eq!(decimal_text(7), "7");
    assert_eq!(decimal_text(10), "10");
    assert_eq!(decimal_text(4_294_967_295), "4294967295");
    assert_eq!(decimal_text(u64::MAX), u64::MAX.to_string());
}

#[test]
fn the_renderer_window_is_registered_under_its_pid() {
    let window = registered_window(4242);
    assert_eq!(window.id, 4242);
    assert_eq!(window.pid, 4242);
    assert_eq!(window.title, "we-layerd-renderer-4242");
    assert_eq!(window.wm_class, RENDERER_APP_ID);
    assert_eq!(RENDERER_APP_ID, "io.github.weLayerd.Renderer");
}

#[test]
fn the_focused_output_is_the_first_named_after_the_surface() {
    let names = vec!["layer-3".to_string(), "layer-13".to_string(), "layer-23".to_string()];
    assert_eq!(focused_output_index(&names, 13), Some(1));
    assert_eq!(focused_output_index(&names, 3), Some(0));
    assert_eq!(focused_output_index(&names, 4), None);
    assert!(text_ends_with("layer-13", "13"));
    assert!(!text_ends_with("3", "13"));
    assert!(text_ends_with("x", ""));
}

#[test]
fn prime_offload_is_detected_from_either_variable() {
    assert!(env_flag_enabled(Some("1")));
    assert!(env_flag_enabled(Some("yes")));
    assert!(!env_flag_enabled(Some("0")));
    assert!(!env_flag_enabled(Some("")));
    assert!(!env_flag_enabled(None));
    assert!(nvidia_prime_detected(Some("1"), None));
    assert!(nvidia_prime_detected(None, Some("NVIDIA_only")));
    assert!(!nvidia_prime_detected(Some("0"), Some("nvidia_only")));
}

#[test]
fn blank_text_is_white_space_only_as_char_is_whitespace_says() {
    for text in ["", " ", "\t\r\n\u{0b}\u{0c}", "\u{85}\u{a0}\u{1680}\u{2000}\u{200a}\u{2028}\u{2029}\u{202f}\u{205f}\u{3000}"] {
        assert!(text_is_blank(text));
        assert_eq!(text_is_blank(text), text.trim().is_empty());
    }
    for text in ["a", " x ", "\u{200b}", "\u{180e}"] {
        assert!(!text_is_blank(text));
        assert_eq!(text_is_blank(text), text.trim().is_empty());
    }
}

#[test]
fn path_checks_report_blank_missing_and_present_paths() {
    assert_eq!(source_check(" ", "/x", true), "ERR renderer.source = empty");
    assert_eq!(source_check("~/w", "/home/me/w", true), "OK renderer.source = /home/me/w");
    assert_eq!(source_check("~/w", "/home/me/w", false), "ERR renderer.source = missing /home/me/w");
    assert_eq!(assets_check("", "", false, None), "ERR renderer.assets_path = empty and auto-discovery failed");
    assert_eq!(
        assets_check("", "", false, Some("/steam/wallpaper_engine/assets")),
        "WARN renderer.assets_path = auto-discovered /steam/wallpaper_engine/assets"
    );
    assert_eq!(assets_check("/a", "/a", true, None), "OK renderer.assets_path = /a");
    assert_eq!(assets_check("/a", "/a", false, None), "ERR renderer.assets_path = missing /a");
    assert_eq!(renderer_library_check("/lib/r.so", true), "OK renderer_library = /lib/r.so");
    assert_eq!(renderer_library_check("", false), "ERR renderer_library = missing ");
    assert_eq!(cache_parent_check("/c", None), "OK renderer.cache_path_parent = /c");
    assert_eq!(cache_parent_check("/c", Some("denied")), "ERR renderer.cache_path_parent = /c (denied)");
}
