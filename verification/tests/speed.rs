use kokoro_reader::audio::{AudioError, AudioPlayer};
use kokoro_reader::speed::{Speed, MAX_SPEED, MIN_SPEED, NORMAL_SPEED};

#[test]
fn the_range_runs_from_half_to_double() {
    assert_eq!(MIN_SPEED, 500);
    assert_eq!(NORMAL_SPEED, 1000);
    assert_eq!(MAX_SPEED, 2000);
    assert_eq!(Speed::normal().permille(), 1000);
}

#[test]
fn a_speed_beyond_the_range_is_clamped() {
    assert_eq!(Speed::clamped(5000).permille(), 2000);
    assert_eq!(Speed::clamped(-1000).permille(), 500);
    assert_eq!(Speed::clamped(0).permille(), 500);
    assert_eq!(Speed::clamped(499).permille(), 500);
    assert_eq!(Speed::clamped(2001).permille(), 2000);
    assert_eq!(Speed::clamped(i64::MAX).permille(), 2000);
    assert_eq!(Speed::clamped(i64::MIN).permille(), 500);
}

#[test]
fn a_speed_in_the_range_is_kept() {
    assert_eq!(Speed::clamped(500).permille(), 500);
    assert_eq!(Speed::clamped(1250).permille(), 1250);
    assert_eq!(Speed::clamped(2000).permille(), 2000);
    assert_eq!(Speed::clamped(1000), Speed::normal());
}

#[test]
fn the_player_clamps_its_speed() {
    let mut player = AudioPlayer::new();
    assert_eq!(player.get_speed().permille(), 1000);
    assert!(!player.is_playing());
    player.set_speed(5000);
    assert_eq!(player.get_speed().permille(), 2000);
    player.set_speed(-1000);
    assert_eq!(player.get_speed().permille(), 500);
    player.set_speed(1500);
    assert_eq!(player.get_speed().permille(), 1500);
}

#[test]
fn the_player_keeps_its_flag() {
    let mut player = AudioPlayer::new();
    player.playback_started();
    assert!(player.is_playing());
    player.set_speed(700);
    assert!(player.is_playing());
    player.request_stop();
    assert!(!player.is_playing());
    assert_eq!(player.get_speed().permille(), 700);
}

#[test]
fn audio_errors_say_what_failed() {
    assert_eq!(
        AudioError::StreamError("x".to_string()).message(),
        "Failed to create audio output stream: x"
    );
    assert_eq!(AudioError::DecodeError("y".to_string()).message(), "Failed to decode audio: y");
    assert_eq!(AudioError::PlaybackError("z".to_string()).message(), "Playback error: z");
}
