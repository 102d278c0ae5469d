use we_layerd::rules::{
    decode_toplevel_states, foreign_toplevel_poll_disconnect, policies_for_outputs, PauseState,
    RuleAction, RuleSet, RuntimePolicy, ToplevelActivity,
};
use we_layerd::toplevels::{ForeignToplevelProbe, ToplevelRecord};

fn policy_of(policies: &[(String, RuntimePolicy)], name: &str) -> RuntimePolicy {
    policies.iter().find(|(output, _)| output == name).expect("output policy").1
}

#[test]
fn foreign_toplevel_state_array_decodes_protocol_values() {
    let raw = [0_u32, 2, 3].into_iter().flat_map(u32::to_ne_bytes).collect::<Vec<_>>();
    assert_eq!(decode_toplevel_states(&raw), (true, true, true));
}

#[test]
fn unknown_states_and_trailing_bytes_are_ignored() {
    let mut raw = [1_u32, 4].into_iter().flat_map(u32::to_ne_bytes).collect::<Vec<_>>();
    raw.extend_from_slice(&[0, 0]);
    assert_eq!(decode_toplevel_states(&raw), (false, false, false));
    let raw = 2_u32.to_ne_bytes();
    assert_eq!(decode_toplevel_states(&raw), (false, true, false));
}

#[test]
fn output_hotplug_updates_names_and_removes_stale_toplevel_membership() {
    let mut probe = ForeignToplevelProbe::new();
    probe.register_output_global(41, 401);
    probe.record_output_name(41, 401, "DP-1".to_string());
    probe.toplevels.insert(
        7,
        ToplevelRecord {
            outputs: [401].into_iter().collect(),
            activated: true,
            ..ToplevelRecord::default()
        },
    );
    assert_eq!(probe.outputs(), vec!["DP-1".to_string()]);
    assert_eq!(probe.activities()[0].outputs, vec!["DP-1".to_string()]);

    probe.remove_output_global(41);

    assert!(probe.outputs().is_empty());
    assert!(probe.activities()[0].outputs.is_empty());

    probe.record_output_name(41, 401, "stale".to_string());
    assert!(probe.outputs().is_empty(), "events from a removed global must stay ignored");
}

#[test]
fn toplevel_events_update_the_probe() {
    let mut probe = ForeignToplevelProbe::new();
    probe.register_output_global(10, 100);
    probe.register_output_global(11, 110);
    probe.record_output_name(11, 110, "HDMI-A-1".to_string());
    probe.record_output_name(10, 100, "DP-1".to_string());
    probe.record_output_name(10, 999, "ignored".to_string());
    assert_eq!(probe.outputs(), vec!["DP-1".to_string(), "HDMI-A-1".to_string()]);

    probe.toplevel_created(3);
    probe.toplevel_output_event(3, 110, true);
    probe.toplevel_output_event(3, 100, true);
    let state = [3_u32].into_iter().flat_map(u32::to_ne_bytes).collect::<Vec<_>>();
    probe.toplevel_state_event(3, &state);
    let activities = probe.activities();
    assert_eq!(activities.len(), 1);
    assert_eq!(activities[0].outputs, vec!["DP-1".to_string(), "HDMI-A-1".to_string()]);
    assert!(activities[0].fullscreen);
    assert!(!activities[0].activated);

    probe.toplevel_output_event(3, 100, false);
    assert_eq!(probe.activities()[0].outputs, vec!["HDMI-A-1".to_string()]);
    probe.toplevel_closed(3);
    assert!(probe.activities().is_empty());
    probe.finish();
    assert!(probe.finished);
}

#[test]
fn poll_hangup_error_and_invalid_fd_are_disconnects() {
    for revents in [libc::POLLHUP, libc::POLLERR, libc::POLLNVAL] {
        assert!(foreign_toplevel_poll_disconnect(revents).is_some());
    }
    assert!(foreign_toplevel_poll_disconnect(libc::POLLIN).is_none());
    assert_eq!(foreign_toplevel_poll_disconnect(libc::POLLNVAL | libc::POLLHUP), Some("invalid fd"));
    assert_eq!(foreign_toplevel_poll_disconnect(libc::POLLERR | libc::POLLHUP), Some("poll error"));
    assert_eq!(foreign_toplevel_poll_disconnect(libc::POLLHUP), Some("hangup"));
}

#[test]
fn manual_pause_survives_a_temporary_rule_pause() {
    let mut pause = PauseState::default();
    pause.set_manual(true);
    pause.set_rule(true);
    assert!(pause.effective());

    pause.set_rule(false);
    assert!(pause.effective(), "clearing a rule must not resume a manually paused wallpaper");

    pause.set_manual(false);
    assert!(!pause.effective());
}

#[test]
fn pause_outranks_mute_and_rules_are_scoped_to_the_toplevel_output() {
    let policies = policies_for_outputs(
        RuleSet {
            focused: RuleAction::Mute,
            maximized: RuleAction::Mute,
            fullscreen: RuleAction::Pause,
        },
        &["DP-1".to_string(), "HDMI-A-1".to_string()],
        &[
            ToplevelActivity {
                outputs: vec!["DP-1".to_string()],
                activated: true,
                maximized: false,
                fullscreen: false,
            },
            ToplevelActivity {
                outputs: vec!["HDMI-A-1".to_string()],
                activated: false,
                maximized: true,
                fullscreen: true,
            },
        ],
    );

    assert_eq!(policy_of(&policies, "DP-1"), RuntimePolicy { pause: false, mute: true });
    assert_eq!(policy_of(&policies, "HDMI-A-1"), RuntimePolicy { pause: true, mute: true });
}

#[test]
fn keep_rules_never_change_playback() {
    let rules = RuleSet::default();
    assert!(rules.is_keep());
    assert!(!RuleSet { focused: RuleAction::Pause, ..RuleSet::default() }.is_keep());
    let policies = policies_for_outputs(
        rules,
        &["DP-1".to_string()],
        &[ToplevelActivity {
            outputs: vec!["DP-1".to_string()],
            activated: true,
            maximized: true,
            fullscreen: true,
        }],
    );
    assert_eq!(policies, vec![("DP-1".to_string(), RuntimePolicy::default())]);
}

#[test]
fn policies_are_listed_once_per_output_in_name_order() {
    let policies = policies_for_outputs(
        RuleSet { focused: RuleAction::Pause, maximized: RuleAction::Keep, fullscreen: RuleAction::Keep },
        &["eDP-1".to_string(), "DP-1".to_string(), "eDP-1".to_string()],
        &[ToplevelActivity {
            outputs: vec!["DP-1".to_string(), "DP-1".to_string()],
            activated: true,
            maximized: false,
            fullscreen: false,
        }],
    );
    assert_eq!(
        policies,
        vec![
            ("DP-1".to_string(), RuntimePolicy { pause: true, mute: false }),
            ("eDP-1".to_string(), RuntimePolicy { pause: false, mute: false }),
        ]
    );
    assert!(policies_for_outputs(RuleSet::default(), &[], &[]).is_empty());
}
