use std::collections::BTreeMap;

use we_layerd::control::RuntimeLoopExit;
use we_layerd::orchestrator::{reconcile_workers, worker_next_step, OutputAction, WorkerRunOutcome, WorkerStep};

fn entries(list: &[(&str, &str)]) -> Vec<(String, String)> {
    list.iter().map(|(name, fingerprint)| (name.to_string(), fingerprint.to_string())).collect()
}

#[test]
fn changing_one_output_restarts_only_that_worker() {
    let current = entries(&[("DP-1", "alpha"), ("HDMI-A-1", "beta")]);
    let next = entries(&[("DP-1", "gamma"), ("HDMI-A-1", "beta")]);
    assert_eq!(reconcile_workers(&current, &next), vec![OutputAction::Restart("DP-1".to_string())]);
}

#[test]
fn hotplug_stops_removed_output_and_starts_only_the_new_output() {
    let current = entries(&[("DP-1", "same"), ("HDMI-A-1", "same")]);
    let next = entries(&[("HDMI-A-1", "same"), ("eDP-1", "same")]);
    assert_eq!(
        reconcile_workers(&current, &next),
        vec![OutputAction::Stop("DP-1".to_string()), OutputAction::Start("eDP-1".to_string())]
    );
}

#[test]
fn unchanged_outputs_need_no_action() {
    let current = entries(&[("DP-1", "a")]);
    assert!(reconcile_workers(&current, &current).is_empty());
    assert_eq!(
        reconcile_workers(&[], &current),
        vec![OutputAction::Start("DP-1".to_string())]
    );
    assert_eq!(reconcile_workers(&current, &[]), vec![OutputAction::Stop("DP-1".to_string())]);
}

#[test]
fn reconciling_leaves_exactly_the_wanted_workers() {
    let current = vec![
        ("DP-1".to_string(), "a".to_string()),
        ("DP-2".to_string(), "b".to_string()),
        ("HDMI-A-1".to_string(), "c".to_string()),
    ];
    let desired = vec![
        ("DP-1".to_string(), "a".to_string()),
        ("DP-2".to_string(), "B".to_string()),
        ("eDP-1".to_string(), "d".to_string()),
    ];
    let wanted: BTreeMap<String, String> = desired.iter().cloned().collect();
    let mut running: BTreeMap<String, String> = current.iter().cloned().collect();
    for action in reconcile_workers(&current, &desired) {
        match action {
            OutputAction::Stop(output) => {
                running.remove(&output);
            }
            OutputAction::Start(output) | OutputAction::Restart(output) => {
                running.insert(output.clone(), wanted[&output].clone());
            }
        }
    }
    assert_eq!(running, wanted);
}

#[test]
fn workers_run_until_stopped_or_failed() {
    assert_eq!(worker_next_step(false, None), WorkerStep::Run);
    assert_eq!(worker_next_step(true, None), WorkerStep::Stop);
    assert_eq!(worker_next_step(false, Some(WorkerRunOutcome::Exited(RuntimeLoopExit::RestartCurrent))), WorkerStep::Run);
    assert_eq!(worker_next_step(false, Some(WorkerRunOutcome::Exited(RuntimeLoopExit::Reconfigure))), WorkerStep::Run);
    assert_eq!(worker_next_step(true, Some(WorkerRunOutcome::Exited(RuntimeLoopExit::Reconfigure))), WorkerStep::Stop);
    assert_eq!(worker_next_step(false, Some(WorkerRunOutcome::Exited(RuntimeLoopExit::Stop))), WorkerStep::Stop);
    assert_eq!(worker_next_step(false, Some(WorkerRunOutcome::Failed)), WorkerStep::Fail);
    assert_eq!(worker_next_step(true, Some(WorkerRunOutcome::Failed)), WorkerStep::Fail);
}
