use we_layerd::backend::{
    backend_name, extension_unreachable_error, is_gnome_session, BackendKind, GnomeBackend, LayerShellBackend,
};
use we_layerd::cli::{
    control_command_for, playlist_command_for, ControlAction, OutputPlaylistAction, PlaylistAction,
    PlaylistCommand,
};
use we_layerd::config::{
    default_renderer_cache_path, default_renderer_fps, options_json_diagnostics, options_json_report,
    options_json_verdict, scale_mode_name,
    validate_options_json, Backend, GeneralConfig, OptionsJsonError, ScaleMode,
};
use we_layerd::control::ControlCommand;

#[test]
fn factory_creates_layer_shell_backend() {
    let backend = LayerShellBackend;
    assert_eq!(backend.kind(), BackendKind::LayerShell);
    let capabilities = backend.capabilities();
    assert!(capabilities.supports_dmabuf);
    assert!(capabilities.supports_shm);
    assert!(!capabilities.needs_external_extension);
    assert!(capabilities.owns_wayland_surface);
}

#[test]
fn factory_creates_gnome_backend() {
    let backend = GnomeBackend;
    assert_eq!(backend.kind(), BackendKind::Gnome);
    let capabilities = backend.capabilities();
    assert!(capabilities.needs_external_extension);
    assert!(!capabilities.owns_wayland_surface);
}

#[test]
fn backends_have_config_names() {
    assert_eq!(BackendKind::LayerShell.as_config_str(), "layer_shell");
    assert_eq!(backend_name(BackendKind::Gnome), "gnome");
    assert_eq!(Backend::LayerShell.kind(), BackendKind::LayerShell);
    assert_eq!(
        extension_unreachable_error(),
        "GNOME backend selected but we-layerd GNOME Shell extension is not reachable"
    );
}

#[test]
fn default_config_uses_renderer_native_defaults() {
    let general = GeneralConfig::default();
    assert_eq!(general.backend, Backend::LayerShell);
    assert!(general.interactive);
    assert_eq!(general.scale_mode, ScaleMode::Cover);
    assert_eq!(general.fps_report_interval_secs, 1);
    assert_eq!(default_renderer_fps(), 60);
    assert_eq!(default_renderer_cache_path(), "~/.cache/we-layerd/renderer");
}

#[test]
fn options_json_is_checked() {
    assert_eq!(validate_options_json(None), Ok(()));
    assert_eq!(validate_options_json(Some("{\"hello\":true}")), Ok(()));
    assert_eq!(validate_options_json(Some("{invalid")), Err(OptionsJsonError::InvalidJson));
    assert_eq!(options_json_diagnostics(None), (false, 0, true));
    assert_eq!(options_json_diagnostics(Some("{invalid")), (true, 8, false));
    assert_eq!(options_json_diagnostics(Some("[]")), (true, 2, true));
}

#[test]
fn scale_modes_have_status_names() {
    assert_eq!(scale_mode_name(ScaleMode::Fit), "fit");
    assert_eq!(scale_mode_name(ScaleMode::Cover), "cover");
    assert_eq!(scale_mode_name(ScaleMode::Stretch), "stretch");
}

#[test]
fn ctl_actions_map_to_commands() {
    assert_eq!(control_command_for(ControlAction::Stop), Some(ControlCommand::Stop));
    assert_eq!(control_command_for(ControlAction::Pause), Some(ControlCommand::Pause));
    assert_eq!(control_command_for(ControlAction::Resume), Some(ControlCommand::Resume));
    assert_eq!(control_command_for(ControlAction::Reload), Some(ControlCommand::Reload));
    assert_eq!(control_command_for(ControlAction::Status), None);
}

#[test]
fn playlist_actions_target_the_global_or_one_output_playlist() {
    assert_eq!(
        playlist_command_for(PlaylistAction::Play { name: "daily".to_string(), output: None }),
        PlaylistCommand::Play("daily".to_string())
    );
    assert_eq!(
        playlist_command_for(PlaylistAction::Play {
            name: "daily".to_string(),
            output: Some("DP-1".to_string())
        }),
        PlaylistCommand::Output {
            output: "DP-1".to_string(),
            action: OutputPlaylistAction::Play("daily".to_string())
        }
    );
    assert_eq!(playlist_command_for(PlaylistAction::Next { output: None }), PlaylistCommand::Next);
    assert_eq!(
        playlist_command_for(PlaylistAction::Previous { output: Some("eDP-1".to_string()) }),
        PlaylistCommand::Output { output: "eDP-1".to_string(), action: OutputPlaylistAction::Previous }
    );
    assert_eq!(
        playlist_command_for(PlaylistAction::Stop { output: Some("eDP-1".to_string()) }),
        PlaylistCommand::Output { output: "eDP-1".to_string(), action: OutputPlaylistAction::Stop }
    );
    assert_eq!(playlist_command_for(PlaylistAction::Stop { output: None }), PlaylistCommand::Stop);
}

#[test]
fn gnome_sessions_are_recognised_in_any_desktop_variable_and_case() {
    assert!(is_gnome_session(&[Some("ubuntu:GNOME".to_string()), None, None]));
    assert!(is_gnome_session(&[None, None, Some("gnome-xorg".to_string())]));
    assert!(is_gnome_session(&[None, Some("Gnome".to_string()), None]));
    assert!(!is_gnome_session(&[Some("KDE".to_string()), Some("sway".to_string()), None]));
    assert!(!is_gnome_session(&[Some("gnom".to_string()), None, None]));
    assert!(!is_gnome_session(&[None, None, None]));
}

#[test]
fn invalid_options_json_is_reported_with_the_configuration_key() {
    let error = validate_options_json(Some("{invalid")).expect_err("invalid options_json should fail");
    assert_eq!(error, OptionsJsonError::InvalidJson);
    assert!(error.message().contains("renderer.options_json must be valid JSON"));
}

#[test]
fn options_json_reports_and_verdicts_follow_the_parse_result() {
    assert_eq!(options_json_report(Some("{\"a\":1}"), true), (true, 7, true));
    assert_eq!(options_json_report(Some("{bad"), false), (true, 4, false));
    assert_eq!(options_json_report(None, false), (false, 0, true));
    assert_eq!(options_json_verdict(Some("{bad"), false), Err(OptionsJsonError::InvalidJson));
    assert_eq!(options_json_verdict(Some("{}"), true), Ok(()));
    assert_eq!(options_json_verdict(None, false), Ok(()));
    assert_eq!(options_json_diagnostics(Some("[1, 2]")), (true, 6, true));
    assert_eq!(options_json_diagnostics(Some("[1, 2")), (true, 5, false));
}
