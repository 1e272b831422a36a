use chs_deck::json::Json;
use chs_deck::profile::{
    build_slot, context, desktop_entry_key, docker_count_key, document, filled_count, media_key, profile_keys,
    shell_command_fits, shell_key, slot_ok, stats_key, switch_profile_key, video_key, webtile_key, SlotDef,
    DEFAULT_FPS_BITS, DEFAULT_INTERVAL_BITS,
};
use chs_deck::tiling::parse_slot;
use serde_json::Value;

fn to_value(j: &Json) -> Value {
    match j {
        Json::Null => Value::Null,
        Json::Bool(b) => Value::Bool(*b),
        Json::Num(n) => Value::from(*n),
        Json::F32(bits) => Value::from(f32::from_bits(*bits)),
        Json::Str(s) => Value::String(s.clone()),
        Json::Arr(v) => Value::Array(v.iter().map(to_value).collect()),
        Json::Obj(m) => {
            let mut map = serde_json::Map::new();
            for (k, v) in m {
                map.insert(k.clone(), to_value(v));
            }
            Value::Object(map)
        }
    }
}

fn parse(text: &str) -> Value {
    serde_json::from_str(text).unwrap()
}

fn slot(index: usize, action: &str) -> SlotDef {
    SlotDef {
        index,
        action: action.to_string(),
        stat: None,
        media_action: None,
        command: None,
        label: None,
        video_path: None,
        video_start: None,
        video_cols: None,
        video_rows: None,
        video_fps_bits: None,
        video_gap_x: None,
        video_gap_y: None,
        url: None,
        web_interval_bits: None,
        web_start: None,
        web_cols: None,
        web_rows: None,
        web_gap_x: None,
        web_gap_y: None,
        app: None,
    }
}

#[test]
fn stats_key_json() {
    let expected = parse(
        r##"{
        "action": {
            "controllers": ["Keypad"],
            "disable_automatic_states": false,
            "icon": "plugins/chs.deck.sdPlugin/assets/stats-ram@2x.png",
            "name": "Stats: ram",
            "plugin": "chs.deck.sdPlugin",
            "property_inspector": "",
            "states": [{
                "alignment": "middle", "background_colour": "#000000", "colour": "#7dd3fc",
                "family": "Liberation Sans", "image": "plugins/chs.deck.sdPlugin/assets/stats-ram@2x.png",
                "name": "", "show": true, "size": 28, "stroke_colour": "#000000", "stroke_size": 3,
                "style": "Regular", "text": "", "underline": false
            }],
            "supported_in_multi_actions": true,
            "tooltip": "Stats: ram",
            "uuid": "chs.deck.stats",
            "visible_in_action_list": true
        },
        "children": null,
        "context": "Keypad.5.0",
        "current_state": 0,
        "settings": { "stat": "ram" },
        "states": [{
            "alignment": "middle", "background_colour": "#000000", "colour": "#7dd3fc",
            "family": "Liberation Sans", "image": "plugins/chs.deck.sdPlugin/assets/stats-ram@2x.png",
            "name": "", "show": true, "size": 28, "stroke_colour": "#000000", "stroke_size": 3,
            "style": "Regular", "text": "", "underline": false
        }]
    }"##,
    );
    assert_eq!(to_value(&stats_key(5, "ram")), expected);
}

#[test]
fn other_plugin_keys() {
    let d = to_value(&docker_count_key(11));
    assert_eq!(d["action"]["uuid"], "chs.deck.docker.count");
    assert_eq!(d["states"][0]["text"], "--");
    assert_eq!(d["settings"], parse("{}"));
    let m = to_value(&media_key(1, "prev"));
    assert_eq!(m["action"]["name"], "⏮ Prev");
    assert_eq!(m["action"]["icon"], "plugins/chs.deck.sdPlugin/assets/media-prev@2x.png");
    assert_eq!(m["settings"]["action"], "prev");
    let m = to_value(&media_key(1, "toggle"));
    assert_eq!(m["states"][0]["text"], "▶/⏸");
    let e = to_value(&desktop_entry_key(0, "cursor"));
    assert_eq!(e["action"]["controllers"], parse(r#"["Keypad","Encoder"]"#));
    assert_eq!(e["action"]["plugin"], "me.amankhanna.oadesktopentry.sdPlugin");
    assert_eq!(e["states"][0]["size"], 16);
    assert_eq!(e["settings"], parse(r#"{"app":"cursor"}"#));
    let s = to_value(&switch_profile_key(15, "weather", "switch-prev@2x.png"));
    assert_eq!(s["action"]["tooltip"], "→ weather");
    assert_eq!(s["states"][0]["alignment"], "bottom");
    assert_eq!(s["states"][0]["text"], "weather");
    assert_eq!(s["settings"], parse(r#"{"device":"99-4250D2781310","profile":"weather"}"#));
    assert_eq!(s["context"], "Keypad.15.0");
}

#[test]
fn tile_keys_carry_their_settings() {
    let v = to_value(&video_key(2, "/v.mp4", 0, 5, 3, 12.5f32.to_bits(), 8, 4));
    assert_eq!(
        v["settings"],
        parse(r#"{"path":"/v.mp4","start":0,"cols":5,"rows":3,"fps":12.5,"gap_x":8,"gap_y":4,"slot_index":2}"#)
    );
    let w = to_value(&webtile_key(3, "https://wttr.in", 30.0f32.to_bits(), 0, 5, 3, 8, 8));
    assert_eq!(
        w["settings"],
        parse(r#"{"url":"https://wttr.in","interval":30.0,"start":0,"cols":5,"rows":3,"gap_x":8,"gap_y":8,"slot_index":3}"#)
    );
    assert_eq!(w["action"]["name"], "Web Tile");
}

#[test]
fn shell_text_is_label_or_first_bytes() {
    let k = to_value(&shell_key(6, "pkill -x nekoray; sudo hiddify &", Some("VPN")));
    assert_eq!(k["action"]["name"], "VPN");
    assert_eq!(k["settings"]["cmd"], "pkill -x nekoray; sudo hiddify &");
    let k = to_value(&shell_key(6, "pkill -x nekoray; sudo hiddify &", None));
    assert_eq!(k["states"][0]["text"], "pkill -x nek");
    let k = to_value(&shell_key(6, "ls", None));
    assert_eq!(k["states"][0]["text"], "ls");
    let k = to_value(&shell_key(6, "éééééé-more", None));
    assert_eq!(k["states"][0]["text"], "éééééé");
    assert!(shell_command_fits("éééééé-more"));
    assert!(!shell_command_fits("aéééééé-more"));
    assert!(shell_command_fits("aéééé"));
}

#[test]
fn slot_defaults() {
    let mut s = slot(0, "chs.deck.video");
    let v = to_value(&build_slot(&s, "a", "b"));
    assert_eq!(
        v["settings"],
        parse(r#"{"path":"","start":0,"cols":5,"rows":3,"fps":10.0,"gap_x":0,"gap_y":0,"slot_index":0}"#)
    );
    assert_eq!(f32::from_bits(DEFAULT_FPS_BITS), 10.0);
    assert_eq!(f32::from_bits(DEFAULT_INTERVAL_BITS), 30.0);
    s.action = "chs.deck.stats".to_string();
    assert_eq!(to_value(&build_slot(&s, "a", "b"))["settings"]["stat"], "cpu");
    s.action = "chs.deck.media".to_string();
    assert_eq!(to_value(&build_slot(&s, "a", "b"))["settings"]["action"], "toggle");
    s.action = "switch-profile-next".to_string();
    assert_eq!(to_value(&build_slot(&s, "a", "b"))["settings"]["profile"], "b");
    s.action = "switch-profile-prev".to_string();
    assert_eq!(to_value(&build_slot(&s, "a", "b"))["settings"]["profile"], "a");
    s.action = "chs.deck.webtile".to_string();
    assert_eq!(to_value(&build_slot(&s, "a", "b"))["settings"]["interval"], 30.0);
}

#[test]
fn invalid_slots_are_detected() {
    assert!(slot_ok(&slot(17, "desktop-entry")));
    assert!(!slot_ok(&slot(18, "desktop-entry")));
    assert!(!slot_ok(&slot(0, "chs.deck.unknown")));
    let mut s = slot(0, "chs.deck.shell");
    assert!(slot_ok(&s));
    s.command = Some("aéééééé-more".to_string());
    assert!(!slot_ok(&s));
}

#[test]
fn layers_override_profile_slots() {
    let mut p1 = slot(5, "chs.deck.shell");
    p1.command = Some("echo".to_string());
    let p2 = slot(0, "chs.deck.docker.count");
    let mut l1 = slot(5, "chs.deck.stats");
    l1.stat = Some("ram".to_string());
    let mut l2 = slot(5, "chs.deck.stats");
    l2.stat = Some("docker".to_string());
    let keys = profile_keys(&vec![p1, p2], &vec![vec![l1], vec![l2]], "x", "y");
    assert_eq!(keys.len(), 18);
    assert_eq!(to_value(&keys[5])["settings"]["stat"], "docker");
    assert_eq!(to_value(&keys[0])["action"]["uuid"], "chs.deck.docker.count");
    assert!(matches!(keys[1], Json::Null));
    assert_eq!(filled_count(&keys), 2);
    let doc = to_value(&document(keys));
    assert_eq!(doc["sliders"], parse("[]"));
    assert_eq!(doc["keys"].as_array().unwrap().len(), 18);
}

#[test]
fn later_profile_slot_replaces_earlier() {
    let keys = profile_keys(&vec![slot(3, "chs.deck.docker.count"), slot(3, "desktop-entry")], &vec![], "x", "y");
    assert_eq!(to_value(&keys[3])["action"]["name"], "Launch App");
    assert_eq!(filled_count(&keys), 1);
}

#[test]
fn contexts_name_their_slot() {
    for i in [0usize, 5, 17, 123456] {
        assert_eq!(context(i), format!("Keypad.{i}.0"));
        assert_eq!(parse_slot(&context(i)), i);
    }
}

#[test]
fn instance_ids_name_their_slot() {
    for prefix in ["dev.work", "99-4250D2781310.cinematic", "", "a.b.c", "Keypads.x"] {
        for i in [0usize, 7, 17, 4096] {
            assert_eq!(parse_slot(&format!("{prefix}.{}", context(i))), i, "{prefix}");
        }
    }
}
