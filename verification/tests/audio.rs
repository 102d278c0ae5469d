use we_layerd::audio::{AudioAction, AudioCollector, AudioParams, AUDIO_IDLE_WAIT_MS, AUDIO_OPEN_RETRY_MS, AUDIO_READ_RETRY_MS};

fn params(source: &str, sample_rate: u32, update_hz: u32) -> AudioParams {
    AudioParams { source: source.to_string(), sample_rate, update_hz }
}

#[test]
fn the_capture_is_opened_once_and_reopened_when_its_settings_change() {
    let mut collector = AudioCollector::new();
    let wanted = params("default", 48_000, 30);
    assert_eq!(collector.next_action(true, &wanted), AudioAction::Open);
    collector.opened(wanted.clone());
    assert_eq!(collector.next_action(true, &wanted), AudioAction::Read);
    assert_eq!(collector.next_action(true, &params("default", 44_100, 30)), AudioAction::Open);
    assert_eq!(collector.next_action(true, &params("monitor", 48_000, 30)), AudioAction::Open);
    assert_eq!(collector.next_action(true, &params("default", 48_000, 60)), AudioAction::Open);
    assert_eq!(collector.next_action(true, &wanted), AudioAction::Read);
    collector.read_failed();
    assert_eq!(collector.next_action(true, &wanted), AudioAction::Open);
}

#[test]
fn unavailable_audio_replaces_previous_spectrum_with_silence_once() {
    let mut collector = AudioCollector::new();
    let wanted = params("default", 48_000, 30);
    assert_eq!(collector.next_action(false, &wanted), AudioAction::Idle { clear_spectrum: false });
    assert_eq!(collector.next_action(true, &wanted), AudioAction::Open);
    collector.opened(wanted.clone());
    assert_eq!(collector.next_action(false, &wanted), AudioAction::Idle { clear_spectrum: true });
    assert_eq!(collector.next_action(false, &wanted), AudioAction::Idle { clear_spectrum: false });
    assert_eq!(collector.next_action(true, &wanted), AudioAction::Open);
    assert_eq!((AUDIO_IDLE_WAIT_MS, AUDIO_OPEN_RETRY_MS, AUDIO_READ_RETRY_MS), (250, 2000, 1000));
}
