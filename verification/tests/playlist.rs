use we_layerd::playlist::{
    next_seed, random_seed, AdvanceDirection, AdvanceStep, PlaylistProgress, seed_from_clock, selection_manifest_path, state_path_for_config,
    PlaylistSelection, PlaylistTimer,
};

const MS: u64 = 1_000_000;

#[test]
fn timer_freezes_while_paused_and_resumes_from_the_same_elapsed_time() {
    let started = 5_000 * MS;
    let duration = 1_000 * MS;
    let mut timer = PlaylistTimer::new();
    timer.start_if_idle(started);

    timer.pause(started + 400 * MS);
    assert!(!timer.is_due(started + 10_000 * MS, duration));
    assert_eq!(timer.elapsed(started + 10_000 * MS), 400 * MS);

    timer.resume(started + 10_000 * MS, true);
    assert!(!timer.is_due(started + 10_599 * MS, duration));
    assert!(timer.is_due(started + 10_600 * MS, duration));
}

#[test]
fn reset_timer_starts_over_but_stays_stopped_while_paused() {
    let mut timer = PlaylistTimer::new();
    timer.start_if_idle(0);
    timer.reset(30_000 * MS);
    assert!(!timer.is_due(30_999 * MS, 1_000 * MS));
    assert!(timer.is_due(31_000 * MS, 1_000 * MS));

    timer.pause(31_000 * MS);
    timer.reset(40_000 * MS);
    assert!(!timer.is_running());
    assert_eq!(timer.elapsed(50_000 * MS), 0);
    timer.resume(50_000 * MS, false);
    assert!(!timer.is_paused());
    assert!(!timer.is_running());
    timer.start_if_idle(60_000 * MS);
    assert_eq!(timer.elapsed(61_000 * MS), 1_000 * MS);
}

#[test]
fn stopping_and_halting_clear_the_clock() {
    let mut timer = PlaylistTimer::new();
    timer.start_if_idle(0);
    timer.halt();
    assert!(!timer.is_running());
    assert_eq!(timer.elapsed(5 * MS), 0);
    timer.start_if_idle(10 * MS);
    timer.pause(15 * MS);
    timer.stop();
    assert_eq!(timer.elapsed(100 * MS), 0);
    assert!(timer.is_paused());
}

#[test]
fn seeds_follow_a_linear_congruential_sequence() {
    assert_eq!(next_seed(0), 1442695040888963407);
    assert_eq!(
        next_seed(5),
        5_u64.wrapping_mul(6364136223846793005).wrapping_add(1442695040888963407)
    );
    assert_eq!(
        next_seed(u64::MAX),
        u64::MAX.wrapping_mul(6364136223846793005).wrapping_add(1442695040888963407)
    );
}

#[test]
fn playlist_state_lives_next_to_the_config() {
    assert_eq!(
        state_path_for_config(Some("/home/user/.config/we-layerd/config.toml")),
        Some("/home/user/.config/we-layerd/config.toml.playlist-state.json".to_string())
    );
    assert_eq!(state_path_for_config(None), None);
}

#[test]
fn shuffle_seeds_come_from_the_clock_or_a_fixed_constant() {
    assert_eq!(seed_from_clock(Some(42)), 42);
    assert_eq!(seed_from_clock(None), 0x9e37_79b9_7f4a_7c15);
    let _ = random_seed();
}

#[test]
fn a_selection_is_playable_when_its_project_manifest_exists() {
    let selection = PlaylistSelection {
        index: 0,
        wallpaper_id: "42".to_string(),
        source: "/tmp/workshop/42".to_string(),
    };
    assert_eq!(selection_manifest_path(&selection), "/tmp/workshop/42/project.json");
    let trailing = PlaylistSelection { source: "/tmp/workshop/43/".to_string(), ..selection };
    assert_eq!(selection_manifest_path(&trailing), "/tmp/workshop/43/project.json");
}

/// Advances through `order` (the cursor's answers, `None` once it runs out),
/// as the runtime does: one cursor step per entry at most.
fn advance(
    progress: &mut PlaylistProgress,
    order: &mut Vec<Option<usize>>,
    playable: &[bool],
    now: u64,
) -> Option<usize> {
    if !progress.may_advance(AdvanceDirection::Next) {
        return None;
    }
    for _ in 0..PlaylistProgress::attempts(playable.len()) {
        let index = if order.is_empty() { None } else { order.remove(0) };
        let ok = index.map(|i| playable[i]).unwrap_or(false);
        match progress.cursor_step(AdvanceDirection::Next, index, ok, now) {
            AdvanceStep::Show(i) => return Some(i),
            AdvanceStep::Ended => return None,
            AdvanceStep::Skip => {}
        }
    }
    None
}

#[test]
fn progression_skips_unavailable_wallpapers_without_ending_the_playlist() {
    let mut progress = PlaylistProgress::new();
    assert_eq!(progress.started(Some(0), 0), Some(0));
    let playable = [true, false, true];
    let mut order = vec![Some(1), Some(2), None];
    assert_eq!(advance(&mut progress, &mut order, &playable, 10 * MS), Some(2));
    assert!(!progress.is_exhausted());
    assert_eq!(progress.elapsed(15 * MS), 5 * MS);
    assert_eq!(advance(&mut progress, &mut order, &playable, 20 * MS), None);
    assert!(progress.is_exhausted());
    assert!(!progress.may_advance(AdvanceDirection::Next));
    assert!(progress.may_advance(AdvanceDirection::Previous));
    assert!(!progress.is_due(u64::MAX, Some(0)));
    progress.restart(30 * MS);
    assert!(!progress.is_exhausted());
    assert!(progress.is_due(31 * MS, Some(MS)));
}

#[test]
fn playlist_entries_fall_due_after_their_duration_and_not_while_paused() {
    let mut progress = PlaylistProgress::new();
    assert!(progress.may_start());
    progress.started(Some(0), 0);
    assert!(!progress.is_due(999 * MS, Some(1_000 * MS)));
    assert!(progress.is_due(1_000 * MS, Some(1_000 * MS)));
    assert!(!progress.is_due(1_000 * MS, None));
    progress.pause(400 * MS);
    assert!(progress.is_paused());
    assert!(!progress.is_due(5_000 * MS, Some(1_000 * MS)));
    progress.resume(2_000 * MS, true);
    assert_eq!(progress.elapsed(2_600 * MS), 1_000 * MS);
    assert!(progress.is_due(2_600 * MS, Some(1_000 * MS)));
    progress.stop();
    assert_eq!(progress.elapsed(9_000 * MS), 0);
    assert_eq!(PlaylistProgress::attempts(0), 1);
    assert_eq!(PlaylistProgress::attempts(7), 7);
}
