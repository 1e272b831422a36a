use chs_deck::media::{media_command, media_title, status_icon, trim_output, truncate};

#[test]
fn media_commands() {
    assert_eq!(media_command("next"), "next");
    assert_eq!(media_command("prev"), "previous");
    assert_eq!(media_command("stop"), "stop");
    assert_eq!(media_command("toggle"), "play-pause");
    assert_eq!(media_command(""), "play-pause");
}

#[test]
fn status_icons() {
    assert_eq!(status_icon("Playing"), "▶");
    assert_eq!(status_icon(" Paused\n"), "⏸");
    assert_eq!(status_icon("Stopped"), "⏹");
    assert_eq!(status_icon(""), "⏹");
}

#[test]
fn truncation_at_ten_chars() {
    assert_eq!(truncate("  short  ", 10), "short");
    assert_eq!(truncate("exactly10!", 10), "exactly10!");
    assert_eq!(truncate("Bohemian Rhapsody", 10), "Bohemian R…");
    assert_eq!(truncate("Сплин — Романс", 10), "Сплин — Ро…");
}

#[test]
fn media_titles() {
    assert_eq!(media_title("Playing", "Song", "Band"), "▶\nSong\nBand");
    assert_eq!(media_title("Paused", "Song", ""), "⏸\nSong");
    assert_eq!(media_title("", "", ""), "⏹\n—");
    assert_eq!(media_title("Playing", "", "Band"), "▶\n\nBand");
    assert_eq!(media_title("Playing", "A very long title", "An even longer artist"), "▶\nA very lon…\nAn even lo…");
}

#[test]
fn media_title_ignores_padding_of_output() {
    let raw = ("  Playing\n", " Song \n", "\tBand ");
    let trimmed = (trim_output(raw.0), trim_output(raw.1), trim_output(raw.2));
    assert_eq!(media_title(&trimmed.0, &trimmed.1, &trimmed.2), media_title(raw.0, raw.1, raw.2));
}

#[test]
fn shortened_names_keep_ten_characters() {
    assert_eq!(truncate("  abcdefghijkl \n", 10), "abcdefghij\u{2026}");
    assert_eq!(truncate("abcdefghij", 10), "abcdefghij");
    assert_eq!(truncate(" ééééééééééé ", 10).chars().count(), 11);
    assert_eq!(truncate("", 10), "");
}
