use we_layerd::media::{
    choose_media_candidate, playback_from_status, MediaBridgeState, MediaCandidate,
    MediaPlaybackState,
};

fn candidate(name: &str, playback: MediaPlaybackState) -> MediaCandidate {
    MediaCandidate {
        bus_name: name.to_string(),
        playback,
        title: name.to_string(),
        artist: String::new(),
        album_title: String::new(),
        album_artist: String::new(),
        genres: String::new(),
    }
}

#[test]
fn playing_player_is_preferred_then_selection_is_deterministic() {
    let chosen = choose_media_candidate(&[
        candidate("org.mpris.MediaPlayer2.zeta", MediaPlaybackState::Paused),
        candidate("org.mpris.MediaPlayer2.beta", MediaPlaybackState::Playing),
        candidate("org.mpris.MediaPlayer2.alpha", MediaPlaybackState::Playing),
    ])
    .expect("a player is available");

    assert_eq!(chosen.bus_name, "org.mpris.MediaPlayer2.alpha");
    assert_eq!(chosen.playback, MediaPlaybackState::Playing);
}

#[test]
fn disabling_media_bridge_clears_the_previously_selected_player() {
    let mut bridge = MediaBridgeState::default();
    assert!(bridge
        .update(
            true,
            &[candidate("org.mpris.MediaPlayer2.player", MediaPlaybackState::Playing)],
        )
        .is_some());

    assert_eq!(bridge.update(false, &[]), None);
    assert_eq!(bridge, MediaBridgeState::default());
}

#[test]
fn no_players_means_no_selection() {
    assert_eq!(choose_media_candidate(&[]), None);
    let mut bridge = MediaBridgeState::default();
    assert_eq!(bridge.update(true, &[]), None);
}

#[test]
fn paused_beats_stopped_and_equal_names_keep_the_first() {
    let chosen = choose_media_candidate(&[
        candidate("org.mpris.MediaPlayer2.a", MediaPlaybackState::Stopped),
        candidate("org.mpris.MediaPlayer2.b", MediaPlaybackState::Paused),
    ])
    .expect("a player");
    assert_eq!(chosen.bus_name, "org.mpris.MediaPlayer2.b");

    let mut first = candidate("org.mpris.MediaPlayer2.same", MediaPlaybackState::Playing);
    first.title = "first".to_string();
    let mut second = candidate("org.mpris.MediaPlayer2.same", MediaPlaybackState::Playing);
    second.title = "second".to_string();
    let chosen = choose_media_candidate(&[first, second]).expect("a player");
    assert_eq!(chosen.title, "first");
}

#[test]
fn playback_status_strings_are_mapped() {
    assert_eq!(playback_from_status("Playing"), MediaPlaybackState::Playing);
    assert_eq!(playback_from_status("Paused"), MediaPlaybackState::Paused);
    assert_eq!(playback_from_status("Stopped"), MediaPlaybackState::Stopped);
    assert_eq!(playback_from_status("playing"), MediaPlaybackState::Stopped);
}
