use we_layerd::window::{append_recent, append_recent_filled};

#[test]
fn pulse_backlog_retains_only_the_latest_bounded_sample_window() {
    let mut retained = (0..12).map(|value| value as f32).collect::<Vec<_>>();
    let incoming = [100.0_f32, 101.0];
    append_recent(&mut retained, &incoming, 10);
    assert_eq!(retained, vec![4.0, 5.0, 6.0, 7.0, 8.0, 9.0, 10.0, 11.0, 100.0, 101.0]);

    let incoming = (0..11).map(|value| 1_000.0 + value as f32).collect::<Vec<_>>();
    append_recent(&mut retained, &incoming, 10);
    assert_eq!(retained, incoming[1..].to_vec());
}

#[test]
fn silence_is_appended_within_the_bound() {
    let mut retained = vec![1.0_f32, 2.0, 3.0];
    append_recent_filled(&mut retained, 2, 0.0, 4);
    assert_eq!(retained, vec![2.0, 3.0, 0.0, 0.0]);
    append_recent_filled(&mut retained, 9, 0.0, 4);
    assert_eq!(retained, vec![0.0; 4]);
    append_recent_filled(&mut retained, 1, 0.0, 0);
    assert!(retained.is_empty());
}

#[test]
fn short_backlogs_grow_until_the_bound() {
    let mut retained: Vec<u8> = Vec::new();
    append_recent(&mut retained, &[1, 2], 5);
    append_recent(&mut retained, &[3], 5);
    assert_eq!(retained, vec![1, 2, 3]);
}
