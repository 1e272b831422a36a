use chs_deck::profile_file::update_video_settings;

/// The edit as the plugin made it directly on the toml_edit document.
fn reference_update(text: &str, path: &str, fps: f32, gap_x: u32, gap_y: u32) -> Option<String> {
    let mut doc = text.parse::<toml_edit::DocumentMut>().ok()?;
    if doc.contains_key("video_path") {
        doc["video_path"] = toml_edit::value(path);
    }
    if let Some(slots) = doc.get_mut("slot").and_then(|v| v.as_array_of_tables_mut()) {
        for slot in slots.iter_mut() {
            if slot.get("action").and_then(|v| v.as_str()) == Some("chs.deck.video") {
                slot["video_path"] = toml_edit::value(path);
                slot["video_fps"] = toml_edit::value(fps as f64);
                slot["video_gap_x"] = toml_edit::value(gap_x as i64);
                slot["video_gap_y"] = toml_edit::value(gap_y as i64);
            }
        }
    }
    Some(doc.to_string())
}

fn update(text: &str, path: &str, fps: f32, gap_x: u32, gap_y: u32) -> Option<String> {
    update_video_settings(text, path, &toml_edit::Value::from(fps as f64), gap_x, gap_y)
}

const PROFILE: &str = r#"name = "cinematic"   # a comment
video_path = "/old.mp4"
layers = ["display", "nav"]

[[slot]]
index = 0
action = "chs.deck.video"
video_path = "/old.mp4"
video_fps = 10
video_cols = 5

# the switch
[[slot]]
index = 15
action = "switch-profile-prev"

[[slot]]
index = 1
action = 'chs.deck.video'
"#;

#[test]
fn video_slots_take_the_pressed_video() {
    let out = update(PROFILE, "https://stream", 24.0, 8, 6).unwrap();
    assert_eq!(Some(out.clone()), reference_update(PROFILE, "https://stream", 24.0, 8, 6));
    assert!(out.contains("# a comment"));
    assert!(out.contains("# the switch"));
    let v: toml::Table = toml::from_str(&out).unwrap();
    assert_eq!(v["video_path"].as_str(), Some("https://stream"));
    assert_eq!(v["name"].as_str(), Some("cinematic"));
    let slots = v["slot"].as_array().unwrap();
    assert_eq!(slots.len(), 3);
    for k in [0, 2] {
        assert_eq!(slots[k]["video_path"].as_str(), Some("https://stream"));
        assert_eq!(slots[k]["video_fps"].as_float(), Some(24.0));
        assert_eq!(slots[k]["video_gap_x"].as_integer(), Some(8));
        assert_eq!(slots[k]["video_gap_y"].as_integer(), Some(6));
    }
    assert_eq!(slots[0]["video_cols"].as_integer(), Some(5));
    assert_eq!(slots[1].as_table().unwrap().len(), 2);
    assert!(slots[1].get("video_path").is_none());
}

#[test]
fn top_level_path_is_set_only_where_present() {
    let text = "[[slot]]\nindex = 3\naction = \"chs.deck.video\"\n";
    let out = update(text, "/b.mp4", 12.5, 0, 0).unwrap();
    assert_eq!(Some(out.clone()), reference_update(text, "/b.mp4", 12.5, 0, 0));
    let v: toml::Table = toml::from_str(&out).unwrap();
    assert!(v.get("video_path").is_none());
    assert_eq!(v["slot"][0]["video_fps"].as_float(), Some(12.5));
}

#[test]
fn files_without_video_slots_keep_their_contents() {
    for text in [
        "name = \"work\"\n",
        "slot = [{ index = 0, action = \"chs.deck.video\" }]\n",
        "[slot]\naction = \"chs.deck.video\"\n",
        "",
    ] {
        let out = update(text, "/c.mp4", 10.0, 1, 1).unwrap();
        assert_eq!(out, text);
        assert_eq!(Some(out), reference_update(text, "/c.mp4", 10.0, 1, 1));
    }
}

#[test]
fn text_that_is_not_toml_is_left_alone() {
    assert_eq!(update("name = ", "/a.mp4", 10.0, 0, 0), None);
    assert_eq!(update("[[slot]\n", "/a.mp4", 10.0, 0, 0), None);
}

#[test]
fn a_second_press_changes_nothing() {
    let once = update(PROFILE, "/v.mp4", 30.0, 4, 4).unwrap();
    let twice = update(&once, "/v.mp4", 30.0, 4, 4).unwrap();
    let a: toml::Table = toml::from_str(&once).unwrap();
    let b: toml::Table = toml::from_str(&twice).unwrap();
    assert_eq!(a, b);
    assert_eq!(once, twice);
}
