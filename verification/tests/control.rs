use std::sync::atomic::AtomicBool;

use we_layerd::backend::BackendKind;
use we_layerd::control::{
    check_renderer_source, answer_shutdown_request, ControlForwardError, control_command_phase, ControlSender, handle_runtime_control_command, renderer_control_outcome, request_runtime_shutdown, ControlCommand, RuntimeControl, RuntimeLoopExit,
    RuntimePhase, RuntimeStartError, RuntimeState,
};

#[test]
fn pause_resume_stop_are_pure_runtime_state() {
    let mut control = RuntimeControl::default();
    assert!(!control.paused());
    assert!(!control.stopping());

    control.pause();
    assert!(control.paused());
    assert!(!control.stopping());

    control.resume();
    assert!(!control.paused());

    control.stop();
    assert!(control.paused());
    assert!(control.stopping());
}

#[test]
fn ctrlc_request_sends_single_stop() {
    let (tx, rx) = std::sync::mpsc::channel();
    let mut tx = ControlSender::new(tx);
    let requested = AtomicBool::new(false);

    assert_eq!(request_runtime_shutdown(&mut tx, &requested), Ok(true));
    assert_eq!(request_runtime_shutdown(&mut tx, &requested), Ok(false));

    assert_eq!(rx.try_recv().expect("stop command"), ControlCommand::Stop);
    assert!(rx.try_recv().is_err());
}

#[test]
fn reload_control_requests_restart_current() {
    let exit = RuntimeLoopExit::RestartCurrent;
    assert_eq!(exit, RuntimeLoopExit::RestartCurrent);
}

#[test]
fn shutdown_request_reports_a_closed_control_channel() {
    let (tx, rx) = std::sync::mpsc::channel::<ControlCommand>();
    let mut tx = ControlSender::new(tx);
    drop(rx);
    let requested = AtomicBool::new(false);
    assert!(request_runtime_shutdown(&mut tx, &requested).is_err());
    assert_eq!(request_runtime_shutdown(&mut tx, &requested), Ok(false));
}

#[test]
fn resuming_a_stopped_runtime_keeps_it_stopping() {
    let mut control = RuntimeControl::new();
    control.stop();
    control.resume();
    assert!(!control.paused());
    assert!(control.stopping());
}

#[test]
fn phases_and_commands_have_status_names() {
    assert_eq!(RuntimePhase::Idle.as_str(), "idle");
    assert_eq!(RuntimePhase::Starting.as_str(), "starting");
    assert_eq!(RuntimePhase::Running.as_str(), "running");
    assert_eq!(RuntimePhase::Paused.as_str(), "paused");
    assert_eq!(RuntimePhase::Stopping.as_str(), "stopping");
    assert_eq!(RuntimePhase::Failed.as_str(), "failed");
    assert_eq!(ControlCommand::Reconfigure.as_str(), "reconfigure");
}

#[test]
fn only_pause_and_resume_are_handled_by_the_control_server() {
    assert_eq!(control_command_phase(ControlCommand::Pause), Some(RuntimePhase::Paused));
    assert_eq!(control_command_phase(ControlCommand::Resume), Some(RuntimePhase::Running));
    assert_eq!(control_command_phase(ControlCommand::Reload), None);
    assert_eq!(control_command_phase(ControlCommand::Stop), None);
    assert_eq!(control_command_phase(ControlCommand::Reconfigure), None);
}

#[test]
fn reports_from_an_earlier_session_are_ignored() {
    let mut state = RuntimeState::new(BackendKind::LayerShell, "/tmp/workshop/item".to_string());
    assert_eq!(state.phase(), RuntimePhase::Idle);
    let first = state.begin_session(BackendKind::LayerShell, "/tmp/workshop/item".to_string());
    assert_eq!(first, 1);
    assert_eq!(state.phase(), RuntimePhase::Starting);
    state.mark_running(first);
    assert_eq!(state.phase(), RuntimePhase::Running);

    let second = state.begin_session(BackendKind::Gnome, "/tmp/other".to_string());
    assert_eq!(second, 2);
    state.fail(first, "late failure".to_string());
    assert_eq!(state.phase(), RuntimePhase::Starting);
    assert_eq!(state.error(), None);

    state.fail(second, "renderer crashed".to_string());
    assert_eq!(state.phase(), RuntimePhase::Failed);
    assert_eq!(state.error(), Some("renderer crashed"));
    assert_eq!(state.source(), "/tmp/other");
    assert_eq!(state.backend(), BackendKind::Gnome);

    state.mark_idle(second);
    assert_eq!(state.phase(), RuntimePhase::Idle);
    assert_eq!(state.error(), None);
}

#[test]
fn renderer_loop_control_exits_and_pause_flags() {
    assert_eq!(renderer_control_outcome(ControlCommand::Stop, true), (Some(RuntimeLoopExit::Stop), true));
    assert_eq!(renderer_control_outcome(ControlCommand::Pause, false), (None, true));
    assert_eq!(renderer_control_outcome(ControlCommand::Resume, true), (None, false));
    assert_eq!(
        renderer_control_outcome(ControlCommand::Reload, false),
        (Some(RuntimeLoopExit::RestartCurrent), false)
    );
    assert_eq!(
        renderer_control_outcome(ControlCommand::Reconfigure, true),
        (Some(RuntimeLoopExit::Reconfigure), true)
    );
}

#[test]
fn status_toml_reports_renderer_source() {
    let mut state = RuntimeState::new(BackendKind::LayerShell, "/tmp/workshop/item".to_string());
    let generation = state.begin_session(BackendKind::LayerShell, "/tmp/workshop/item".to_string());
    state.mark_running(generation);

    let status = state.render_status_toml();

    assert!(status.contains("phase = \"running\""));
    assert!(status.contains("source = \"/tmp/workshop/item\""));
    assert_eq!(
        status,
        "[orchestrator]\nbackend = \"layer_shell\"\nphase = \"running\"\nmulti_output = true\ngeneration = 1\nsource = \"/tmp/workshop/item\""
    );
}

#[test]
fn failed_sessions_show_their_quoted_error() {
    let mut state = RuntimeState::new(BackendKind::Gnome, "a \"b\"".to_string());
    let generation = state.begin_session(BackendKind::Gnome, "a \"b\"".to_string());
    state.fail(generation, "no\nrenderer".to_string());
    assert_eq!(
        state.render_status_toml(),
        "[orchestrator]\nbackend = \"gnome\"\nphase = \"failed\"\nmulti_output = true\ngeneration = 1\nsource = \"a \\\"b\\\"\"\nerror = \"no\\nrenderer\""
    );
    assert_eq!(
        state.render_orchestrator_table("S", Some("E")),
        "[orchestrator]\nbackend = \"gnome\"\nphase = \"failed\"\nmulti_output = true\ngeneration = 1\nsource = S\nerror = E"
    );
}

#[test]
fn playback_control_forwards_command_and_updates_status() {
    let mut runtime_state = RuntimeState::new(BackendKind::LayerShell, String::new());
    let (tx, rx) = std::sync::mpsc::channel();
    let mut tx = ControlSender::new(tx);

    assert!(handle_runtime_control_command(ControlCommand::Pause, &mut tx, &mut runtime_state).unwrap());
    assert_eq!(rx.try_recv().expect("pause command"), ControlCommand::Pause);
    assert_eq!(runtime_state.phase(), RuntimePhase::Paused);

    assert!(handle_runtime_control_command(ControlCommand::Resume, &mut tx, &mut runtime_state).unwrap());
    assert_eq!(rx.try_recv().expect("resume command"), ControlCommand::Resume);
    assert_eq!(runtime_state.phase(), RuntimePhase::Running);
}

#[test]
fn loop_commands_are_left_to_the_runtime_and_unreachable_runtimes_report_errors() {
    let mut runtime_state = RuntimeState::new(BackendKind::LayerShell, String::new());
    let (tx, rx) = std::sync::mpsc::channel();
    let mut tx = ControlSender::new(tx);
    assert_eq!(handle_runtime_control_command(ControlCommand::Reload, &mut tx, &mut runtime_state), Ok(false));
    assert_eq!(handle_runtime_control_command(ControlCommand::Stop, &mut tx, &mut runtime_state), Ok(false));
    assert!(rx.try_recv().is_err());
    drop(rx);
    let error = handle_runtime_control_command(ControlCommand::Pause, &mut tx, &mut runtime_state)
        .expect_err("closed channel");
    assert_eq!(error, ControlForwardError { command: ControlCommand::Pause });
    assert_eq!(error.message(), "failed to forward pause command to runtime");
    assert_eq!(runtime_state.phase(), RuntimePhase::Idle);
}

#[test]
fn placeholder_runtime_requires_renderer_paths() {
    let err = check_renderer_source("", BackendKind::LayerShell, false).expect_err("missing source should fail");
    assert_eq!(err, RuntimeStartError::MissingSource);
    assert_eq!(err.message(), "renderer.source is required when no per-output bindings are configured");
}

#[test]
fn blank_sources_are_allowed_only_with_layer_shell_output_bindings() {
    assert_eq!(check_renderer_source(" \t\n", BackendKind::Gnome, true), Err(RuntimeStartError::MissingSource));
    assert_eq!(check_renderer_source("\u{3000}", BackendKind::LayerShell, false), Err(RuntimeStartError::MissingSource));
    assert_eq!(check_renderer_source("  ", BackendKind::LayerShell, true), Ok(()));
    assert_eq!(check_renderer_source("/tmp/workshop/item", BackendKind::Gnome, false), Ok(()));
}

#[test]
fn only_the_first_shutdown_request_sends_stop() {
    let (tx, rx) = std::sync::mpsc::channel();
    let mut tx = ControlSender::new(tx);
    assert_eq!(answer_shutdown_request(true, &mut tx), Ok(false));
    assert!(rx.try_recv().is_err());
    assert_eq!(answer_shutdown_request(false, &mut tx), Ok(true));
    assert_eq!(rx.try_recv().expect("stop command"), ControlCommand::Stop);
    drop(rx);
    assert!(answer_shutdown_request(false, &mut tx).is_err());
}

#[test]
fn one_output_status_follows_the_orchestrator_table() {
    let mut state = RuntimeState::new(BackendKind::LayerShell, "w".to_string());
    state.update_runtime_status(
        "DP-1".to_string(),
        Some(("[runtime]\nfps = 60".to_string(), "[outputs.\"DP-1\"]\nfps = 60".to_string())),
    );
    assert_eq!(
        state.render_status_toml(),
        "[orchestrator]\nbackend = \"layer_shell\"\nphase = \"idle\"\nmulti_output = true\ngeneration = 0\nsource = \"w\"\n\n[runtime]\nfps = 60"
    );
}

#[test]
fn several_output_statuses_come_in_name_order_and_can_be_removed() {
    let mut state = RuntimeState::new(BackendKind::LayerShell, "w".to_string());
    state.update_runtime_status("eDP-1".to_string(), Some(("E1".to_string(), "E".to_string())));
    state.update_runtime_status("DP-1".to_string(), Some(("D1".to_string(), "D".to_string())));
    state.update_runtime_status("HDMI-A-1".to_string(), Some(("H1".to_string(), "H".to_string())));
    let head = "[orchestrator]\nbackend = \"layer_shell\"\nphase = \"idle\"\nmulti_output = true\ngeneration = 0\nsource = \"w\"";
    assert_eq!(state.render_status_toml(), format!("{head}\n\nD\n\nH\n\nE"));

    state.update_runtime_status("DP-1".to_string(), Some(("D1".to_string(), "D2".to_string())));
    assert_eq!(state.render_status_toml(), format!("{head}\n\nD2\n\nH\n\nE"));

    state.update_runtime_status("HDMI-A-1".to_string(), None);
    state.update_runtime_status("eDP-1".to_string(), None);
    assert_eq!(state.render_status_toml(), format!("{head}\n\nD1"));

    state.update_runtime_status("DP-1".to_string(), None);
    state.update_runtime_status("DP-2".to_string(), None);
    assert_eq!(state.render_status_toml(), head);
}

#[test]
fn a_new_session_or_switch_forgets_output_statuses() {
    let mut state = RuntimeState::new(BackendKind::LayerShell, "w".to_string());
    state.update_runtime_status("DP-1".to_string(), Some(("D1".to_string(), "D".to_string())));
    let generation = state.begin_session(BackendKind::LayerShell, "w".to_string());
    assert_eq!(
        state.render_status_toml(),
        "[orchestrator]\nbackend = \"layer_shell\"\nphase = \"starting\"\nmulti_output = true\ngeneration = 1\nsource = \"w\""
    );
    state.update_runtime_status("DP-1".to_string(), Some(("D1".to_string(), "D".to_string())));
    state.begin_switch(BackendKind::LayerShell, "v".to_string());
    state.mark_running(generation);
    assert_eq!(
        state.render_status_toml(),
        "[orchestrator]\nbackend = \"layer_shell\"\nphase = \"running\"\nmulti_output = true\ngeneration = 1\nsource = \"v\""
    );
}
