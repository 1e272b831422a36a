use chs_deck::video::{f32_bits_eq, is_stream_url, parse_profile, propagate_press, still_shown, VideoConf};

fn conf(path: &str, fps: f32, gap: u32) -> VideoConf {
    VideoConf {
        path: path.to_string(),
        start: 0,
        cols: 5,
        rows: 3,
        fps_bits: fps.to_bits(),
        gap_x: gap,
        gap_y: gap,
        slot_index: 4,
    }
}

#[test]
fn stream_urls() {
    assert!(is_stream_url("https://www.youtube.com/watch?v=x"));
    assert!(is_stream_url("http://host/a.mp4"));
    assert!(!is_stream_url("/home/user/a.mp4"));
    assert!(!is_stream_url("http:/x"));
    assert!(!is_stream_url(""));
}

#[test]
fn profile_of_an_instance() {
    assert_eq!(parse_profile("dev.work.Keypad.3.0"), Some("work".to_string()));
    assert_eq!(parse_profile("a."), Some("".to_string()));
    assert_eq!(parse_profile("nodots"), None);
}

#[test]
fn press_hands_over_the_video() {
    let mut e = conf("/a.mp4", 10.0, 0);
    let pressed = conf("https://stream", 24.0, 8);
    assert_eq!(propagate_press(&mut e, &pressed), Some("/a.mp4".to_string()));
    assert_eq!(e.path, "https://stream");
    assert_eq!(e.fps_bits, 24.0f32.to_bits());
    assert_eq!((e.gap_x, e.gap_y, e.slot_index, e.cols), (8, 8, 4, 5));
    assert_eq!(propagate_press(&mut e, &pressed), None);
    let mut f = conf("https://stream", 24.0, 8);
    f.gap_y = 2;
    assert_eq!(propagate_press(&mut f, &pressed), Some("https://stream".to_string()));
    assert_eq!(f.gap_y, 8);
}

#[test]
fn frame_rates_compare_as_floats() {
    assert!(f32_bits_eq(10.0f32.to_bits(), 10.0f32.to_bits()));
    assert!(!f32_bits_eq(10.0f32.to_bits(), 24.0f32.to_bits()));
    assert!(f32_bits_eq(0.0f32.to_bits(), (-0.0f32).to_bits()));
    assert!(!f32_bits_eq(f32::NAN.to_bits(), f32::NAN.to_bits()));
    assert!(!f32_bits_eq(f32::INFINITY.to_bits(), f32::NAN.to_bits()));
    assert!(f32_bits_eq(f32::INFINITY.to_bits(), f32::INFINITY.to_bits()));
    for (a, b) in [(1.5f32, 1.5f32), (0.0, -0.0), (f32::NAN, 1.0), (2.0, 3.0), (-1.0, 1.0)] {
        assert_eq!(f32_bits_eq(a.to_bits(), b.to_bits()), a == b);
    }
}

#[test]
fn press_with_signed_zero_rate_changes_nothing() {
    let mut e = conf("/a.mp4", 0.0, 0);
    let pressed = conf("/a.mp4", -0.0, 0);
    assert_eq!(propagate_press(&mut e, &pressed), None);
    assert_eq!(e.fps_bits, 0.0f32.to_bits());
}

#[test]
fn press_settles_after_one_round() {
    let mut e = conf("/b.mp4", 5.0, 3);
    let pressed = conf("/a.mp4", 12.5, 0);
    assert!(propagate_press(&mut e, &pressed).is_some());
    assert_eq!(propagate_press(&mut e, &pressed), None);
    assert_eq!(propagate_press(&mut e, &pressed), None);
}

#[test]
fn playback_stops_when_no_button_shows_it() {
    let paths = vec!["/a.mp4".to_string(), "https://s".to_string()];
    assert!(still_shown(&paths, "/a.mp4"));
    assert!(still_shown(&paths, "https://s"));
    assert!(!still_shown(&paths, "/b.mp4"));
    assert!(!still_shown(&vec![], "/a.mp4"));
}
