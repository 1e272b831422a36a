//! Deck profiles: the JSON of each kind of button, the slot definitions of a
//! profile and its layers, and the deck's keys built from them.

use vstd::prelude::*;
use crate::json::{arr, at, clone_json, first_member, items_view, members_view, obj, push_item, push_member, str_val, Json, JsonV};
use crate::tiling::{keypad_slot_from, spec_parse_slot};
use crate::text::{dot_parts, lemma_dot_parts_join, lemma_dot_parts_single, lemma_parse_decimal, parse_usize_spec, is_digit, boundary_at, byte_prefix, decimal, is_boundary, longer_than_bytes, push_decimal, str_is, string_of, take_bytes, to_chars, utf8_len};

verus! {

pub open spec fn sv(s: Seq<char>) -> JsonV {
    JsonV::Str(s)
}

/// The context of the button in slot `index`.
pub open spec fn spec_context(index: nat) -> Seq<char> {
    "Keypad."@ + decimal(index) + ".0"@
}

/// The look of a button: text of the given alignment, colour, size and stroke
/// over the image, on black.
pub open spec fn spec_text_state(
    alignment: Seq<char>,
    colour: Seq<char>,
    image: Seq<char>,
    size: u64,
    stroke: u64,
    text: Seq<char>,
) -> JsonV {
    JsonV::Obj(
        seq![
            ("alignment"@, sv(alignment)),
            ("background_colour"@, sv("#000000"@)),
            ("colour"@, sv(colour)),
            ("family"@, sv("Liberation Sans"@)),
            ("image"@, sv(image)),
            ("name"@, sv(""@)),
            ("show"@, JsonV::Bool(true)),
            ("size"@, JsonV::Num(size)),
            ("stroke_colour"@, sv("#000000"@)),
            ("stroke_size"@, JsonV::Num(stroke)),
            ("style"@, sv("Regular"@)),
            ("text"@, sv(text)),
            ("underline"@, JsonV::Bool(false)),
        ],
    )
}

/// The usual look of this plugin's buttons: centred text of size 28.
pub open spec fn spec_state(image: Seq<char>, text: Seq<char>, colour: Seq<char>) -> JsonV {
    spec_text_state("middle"@, colour, image, 28, 3, text)
}

/// A button of the profile: its action (with the controllers it supports), its
/// slot's context, its settings, and its one state.
pub open spec fn spec_button(
    with_encoder: bool,
    icon: Seq<char>,
    name: Seq<char>,
    plugin: Seq<char>,
    inspector: Seq<char>,
    tooltip: Seq<char>,
    uuid: Seq<char>,
    index: nat,
    state: JsonV,
    settings: JsonV,
) -> JsonV {
    let controllers = if with_encoder {
        seq![sv("Keypad"@), sv("Encoder"@)]
    } else {
        seq![sv("Keypad"@)]
    };
    JsonV::Obj(
        seq![
            ("action"@, JsonV::Obj(seq![
                ("controllers"@, JsonV::Arr(controllers)),
                ("disable_automatic_states"@, JsonV::Bool(false)),
                ("icon"@, sv(icon)),
                ("name"@, sv(name)),
                ("plugin"@, sv(plugin)),
                ("property_inspector"@, sv(inspector)),
                ("states"@, JsonV::Arr(seq![state])),
                ("supported_in_multi_actions"@, JsonV::Bool(true)),
                ("tooltip"@, sv(tooltip)),
                ("uuid"@, sv(uuid)),
                ("visible_in_action_list"@, JsonV::Bool(true)),
            ])),
            ("children"@, JsonV::Null),
            ("context"@, sv(spec_context(index))),
            ("current_state"@, JsonV::Num(0)),
            ("settings"@, settings),
            ("states"@, JsonV::Arr(seq![state])),
        ],
    )
}

/// The three strings joined.
pub fn concat3(a: &str, b: &str, c: &str) -> (r: String)
    ensures
        r@ == a@ + b@ + c@,
{
    let mut r = a.to_owned();
    r.append(b);
    r.append(c);
    r
}

fn text_state(alignment: &str, colour: &str, image: &str, size: u64, stroke: u64, text: &str) -> (r: Json)
    ensures
        r@ == spec_text_state(alignment@, colour@, image@, size, stroke, text@),
{
    let mut m: Vec<(String, Json)> = Vec::new();
    assert(members_view(m@) =~= Seq::empty());
    push_member(&mut m, "alignment", str_val(alignment));
    push_member(&mut m, "background_colour", str_val("#000000"));
    push_member(&mut m, "colour", str_val(colour));
    push_member(&mut m, "family", str_val("Liberation Sans"));
    push_member(&mut m, "image", str_val(image));
    push_member(&mut m, "name", str_val(""));
    push_member(&mut m, "show", Json::Bool(true));
    push_member(&mut m, "size", Json::Num(size));
    push_member(&mut m, "stroke_colour", str_val("#000000"));
    push_member(&mut m, "stroke_size", Json::Num(stroke));
    push_member(&mut m, "style", str_val("Regular"));
    push_member(&mut m, "text", str_val(text));
    push_member(&mut m, "underline", Json::Bool(false));
    assert(members_view(m@) =~= seq![
            ("alignment"@, sv(alignment@)),
            ("background_colour"@, sv("#000000"@)),
            ("colour"@, sv(colour@)),
            ("family"@, sv("Liberation Sans"@)),
            ("image"@, sv(image@)),
            ("name"@, sv(""@)),
            ("show"@, JsonV::Bool(true)),
            ("size"@, JsonV::Num(size)),
            ("stroke_colour"@, sv("#000000"@)),
            ("stroke_size"@, JsonV::Num(stroke)),
            ("style"@, sv("Regular"@)),
            ("text"@, sv(text@)),
            ("underline"@, JsonV::Bool(false)),
        ]);
    obj(m)
}

/// The look of one of this plugin's buttons.
pub fn state(image: &str, text: &str, colour: &str) -> (r: Json)
    ensures
        r@ == spec_state(image@, text@, colour@),
{
    text_state("middle", colour, image, 28, 3, text)
}

/// The context of the button in slot `index`.
pub fn context(index: usize) -> (r: String)
    ensures
        r@ == spec_context(index as nat),
{
    let mut r = "Keypad.".to_owned();
    push_decimal(&mut r, index as u64);
    r.append(".0");
    r
}

fn button(
    with_encoder: bool,
    icon: &str,
    name: &str,
    plugin: &str,
    inspector: &str,
    tooltip: &str,
    uuid: &str,
    index: usize,
    state: Json,
    settings: Json,
) -> (r: Json)
    ensures
        r@ == spec_button(
            with_encoder,
            icon@,
            name@,
            plugin@,
            inspector@,
            tooltip@,
            uuid@,
            index as nat,
            state@,
            settings@,
        ),
{
    let mut controllers: Vec<Json> = Vec::new();
    assert(items_view(controllers@) =~= Seq::empty());
    push_item(&mut controllers, str_val("Keypad"));
    if with_encoder {
        push_item(&mut controllers, str_val("Encoder"));
        assert(items_view(controllers@) =~= seq![sv("Keypad"@), sv("Encoder"@)]);
    } else {
        assert(items_view(controllers@) =~= seq![sv("Keypad"@)]);
    }
    let mut states_a: Vec<Json> = Vec::new();
    assert(items_view(states_a@) =~= Seq::empty());
    push_item(&mut states_a, clone_json(&state));
    assert(items_view(states_a@) =~= seq![state@]);
    let mut states_b: Vec<Json> = Vec::new();
    assert(items_view(states_b@) =~= Seq::empty());
    let ghost st0 = state@;
    push_item(&mut states_b, state);
    assert(items_view(states_b@) =~= seq![st0]);
    let mut a: Vec<(String, Json)> = Vec::new();
    assert(members_view(a@) =~= Seq::empty());
    push_member(&mut a, "controllers", arr(controllers));
    push_member(&mut a, "disable_automatic_states", Json::Bool(false));
    push_member(&mut a, "icon", str_val(icon));
    push_member(&mut a, "name", str_val(name));
    push_member(&mut a, "plugin", str_val(plugin));
    push_member(&mut a, "property_inspector", str_val(inspector));
    push_member(&mut a, "states", arr(states_a));
    push_member(&mut a, "supported_in_multi_actions", Json::Bool(true));
    push_member(&mut a, "tooltip", str_val(tooltip));
    push_member(&mut a, "uuid", str_val(uuid));
    push_member(&mut a, "visible_in_action_list", Json::Bool(true));
    let ghost st = state@;
    let ghost controllers_v = if with_encoder {
        seq![sv("Keypad"@), sv("Encoder"@)]
    } else {
        seq![sv("Keypad"@)]
    };
    assert(members_view(a@) =~= seq![
        ("controllers"@, JsonV::Arr(controllers_v)),
        ("disable_automatic_states"@, JsonV::Bool(false)),
        ("icon"@, sv(icon@)),
        ("name"@, sv(name@)),
        ("plugin"@, sv(plugin@)),
        ("property_inspector"@, sv(inspector@)),
        ("states"@, JsonV::Arr(seq![st])),
        ("supported_in_multi_actions"@, JsonV::Bool(true)),
        ("tooltip"@, sv(tooltip@)),
        ("uuid"@, sv(uuid@)),
        ("visible_in_action_list"@, JsonV::Bool(true)),
    ]);
    let ctx = context(index);
    let mut m: Vec<(String, Json)> = Vec::new();
    assert(members_view(m@) =~= Seq::empty());
    push_member(&mut m, "action", obj(a));
    push_member(&mut m, "children", Json::Null);
    push_member(&mut m, "context", Json::Str(ctx));
    push_member(&mut m, "current_state", Json::Num(0));
    let ghost settings_v = settings@;
    push_member(&mut m, "settings", settings);
    push_member(&mut m, "states", arr(states_b));
    assert(members_view(m@) =~= seq![
        ("action"@, JsonV::Obj(members_view(a@))),
        ("children"@, JsonV::Null),
        ("context"@, sv(spec_context(index as nat))),
        ("current_state"@, JsonV::Num(0)),
        ("settings"@, settings_v),
        ("states"@, JsonV::Arr(seq![st0])),
    ]);
    obj(m)
}


/// A statistics button showing `stat`.
pub open spec fn spec_stats_key(index: nat, stat: Seq<char>) -> JsonV {
    let icon = "plugins/chs.deck.sdPlugin/assets/stats-"@ + stat + "@2x.png"@;
    let name = "Stats: "@ + stat;
    spec_button(
        false,
        icon,
        name,
        "chs.deck.sdPlugin"@,
        ""@,
        name,
        "chs.deck.stats"@,
        index,
        spec_state(icon, ""@, "#7dd3fc"@),
        JsonV::Obj(seq![("stat"@, sv(stat))]),
    )
}

pub fn stats_key(index: usize, stat: &str) -> (r: Json)
    ensures
        r@ == spec_stats_key(index as nat, stat@),
{
    let icon = concat3("plugins/chs.deck.sdPlugin/assets/stats-", stat, "@2x.png");
    let name = concat3("Stats: ", stat, "");
    assert(name@ =~= "Stats: "@ + stat@) by {
        assert(""@.len() == 0) by {
            reveal_strlit("");
        }
    }
    let mut settings: Vec<(String, Json)> = Vec::new();
    assert(members_view(settings@) =~= Seq::empty());
    push_member(&mut settings, "stat", str_val(stat));
    assert(members_view(settings@) =~= seq![("stat"@, sv(stat@))]);
    button(
        false,
        icon.as_str(),
        name.as_str(),
        "chs.deck.sdPlugin",
        "",
        name.as_str(),
        "chs.deck.stats",
        index,
        state(icon.as_str(), "", "#7dd3fc"),
        obj(settings),
    )
}

/// A container-count button.
pub open spec fn spec_docker_count_key(index: nat) -> JsonV {
    let icon = "plugins/chs.deck.sdPlugin/assets/docker-count@2x.png"@;
    spec_button(
        false,
        icon,
        "Docker: Container Count"@,
        "chs.deck.sdPlugin"@,
        ""@,
        "Docker: Container Count"@,
        "chs.deck.docker.count"@,
        index,
        spec_state(icon, "--"@, "#7dd3fc"@),
        JsonV::Obj(seq![]),
    )
}

pub fn docker_count_key(index: usize) -> (r: Json)
    ensures
        r@ == spec_docker_count_key(index as nat),
{
    let icon = "plugins/chs.deck.sdPlugin/assets/docker-count@2x.png";
    let settings: Vec<(String, Json)> = Vec::new();
    assert(members_view(settings@) =~= Seq::empty());
    button(
        false,
        icon,
        "Docker: Container Count",
        "chs.deck.sdPlugin",
        "",
        "Docker: Container Count",
        "chs.deck.docker.count",
        index,
        state(icon, "--", "#7dd3fc"),
        obj(settings),
    )
}

/// The icon name and label of a media button for its action.
pub open spec fn spec_media_look(action: Seq<char>) -> (Seq<char>, Seq<char>) {
    if action == "prev"@ {
        ("media-prev"@, "\u{23ee} Prev"@)
    } else if action == "next"@ {
        ("media-next"@, "\u{23ed} Next"@)
    } else if action == "stop"@ {
        ("media-stop"@, "\u{23f9} Stop"@)
    } else {
        ("media-play"@, "\u{25b6}/\u{23f8}"@)
    }
}

/// A media button for `action`.
pub open spec fn spec_media_key(index: nat, action: Seq<char>) -> JsonV {
    let look = spec_media_look(action);
    let icon = "plugins/chs.deck.sdPlugin/assets/"@ + look.0 + "@2x.png"@;
    spec_button(
        false,
        icon,
        look.1,
        "chs.deck.sdPlugin"@,
        ""@,
        look.1,
        "chs.deck.media"@,
        index,
        spec_state(icon, look.1, "#f0abfc"@),
        JsonV::Obj(seq![("action"@, sv(action))]),
    )
}

pub fn media_key(index: usize, action: &str) -> (r: Json)
    ensures
        r@ == spec_media_key(index as nat, action@),
{
    let (icon_name, label): (&str, &str) = if str_is(action, "prev") {
        ("media-prev", "\u{23ee} Prev")
    } else if str_is(action, "next") {
        ("media-next", "\u{23ed} Next")
    } else if str_is(action, "stop") {
        ("media-stop", "\u{23f9} Stop")
    } else {
        ("media-play", "\u{25b6}/\u{23f8}")
    };
    let icon = concat3("plugins/chs.deck.sdPlugin/assets/", icon_name, "@2x.png");
    let mut settings: Vec<(String, Json)> = Vec::new();
    assert(members_view(settings@) =~= Seq::empty());
    push_member(&mut settings, "action", str_val(action));
    assert(members_view(settings@) =~= seq![("action"@, sv(action@))]);
    button(
        false,
        icon.as_str(),
        label,
        "chs.deck.sdPlugin",
        "",
        label,
        "chs.deck.media",
        index,
        state(icon.as_str(), label, "#f0abfc"),
        obj(settings),
    )
}

/// The longest shell command, in bytes, that a shell button shows whole.
pub const SHELL_TEXT_BYTES: usize = 12;

/// A shell command can be shown: where it is longer than the shown bytes, the
/// cut falls between characters.
pub open spec fn shell_command_ok(command: Seq<char>) -> bool {
    utf8_len(command) > 12 ==> is_boundary(command, 12)
}

/// The text of a shell button: its label, or else the command cut to its first
/// 12 bytes.
pub open spec fn spec_shell_text(command: Seq<char>, label: Option<Seq<char>>) -> Seq<char> {
    match label {
        Some(l) => l,
        None => if utf8_len(command) > 12 {
            byte_prefix(command, 12)
        } else {
            command
        },
    }
}

/// A shell button running `command`.
pub open spec fn spec_shell_key(index: nat, command: Seq<char>, label: Option<Seq<char>>) -> JsonV {
    let icon = "plugins/chs.deck.sdPlugin/assets/shell@2x.png"@;
    let display = spec_shell_text(command, label);
    spec_button(
        false,
        icon,
        display,
        "chs.deck.sdPlugin"@,
        ""@,
        display,
        "chs.deck.shell"@,
        index,
        spec_state(icon, display, "#22c55e"@),
        JsonV::Obj(seq![("cmd"@, sv(command))]),
    )
}

/// Whether a shell command can be shown (see `shell_command_ok`).
pub fn shell_command_fits(command: &str) -> (r: bool)
    ensures
        r == shell_command_ok(command@),
{
    let chars = to_chars(command);
    !longer_than_bytes(&chars, SHELL_TEXT_BYTES) || boundary_at(&chars, SHELL_TEXT_BYTES)
}

pub fn shell_key(index: usize, command: &str, label: Option<&str>) -> (r: Json)
    requires
        shell_command_ok(command@),
    ensures
        r@ == spec_shell_key(
            index as nat,
            command@,
            match label {
                Some(l) => Some(l@),
                None => None,
            },
        ),
{
    let icon = "plugins/chs.deck.sdPlugin/assets/shell@2x.png";
    let display: String = match label {
        Some(l) => l.to_owned(),
        None => {
            let chars = to_chars(command);
            if longer_than_bytes(&chars, SHELL_TEXT_BYTES) {
                let t = take_bytes(&chars, SHELL_TEXT_BYTES);
                assert(t@.subrange(0, t@.len() as int) =~= t@);
                string_of(&t, 0, t.len())
            } else {
                command.to_owned()
            }
        },
    };
    let mut settings: Vec<(String, Json)> = Vec::new();
    assert(members_view(settings@) =~= Seq::empty());
    push_member(&mut settings, "cmd", str_val(command));
    assert(members_view(settings@) =~= seq![("cmd"@, sv(command@))]);
    button(
        false,
        icon,
        display.as_str(),
        "chs.deck.sdPlugin",
        "",
        display.as_str(),
        "chs.deck.shell",
        index,
        state(icon, display.as_str(), "#22c55e"),
        obj(settings),
    )
}


/// A button of the desktop-entry plugin that launches `app`.
pub open spec fn spec_desktop_entry_key(index: nat, app: Seq<char>) -> JsonV {
    let icon = "plugins/me.amankhanna.oadesktopentry.sdPlugin/icon.png"@;
    spec_button(
        true,
        icon,
        "Launch App"@,
        "me.amankhanna.oadesktopentry.sdPlugin"@,
        "plugins/me.amankhanna.oadesktopentry.sdPlugin/pi/launchapp.html"@,
        "Launch an application"@,
        "me.amankhanna.oadesktopentry.launchapp"@,
        index,
        spec_text_state("middle"@, "#FFFFFF"@, icon, 16, 3, ""@),
        JsonV::Obj(seq![("app"@, sv(app))]),
    )
}

pub fn desktop_entry_key(index: usize, app: &str) -> (r: Json)
    ensures
        r@ == spec_desktop_entry_key(index as nat, app@),
{
    let icon = "plugins/me.amankhanna.oadesktopentry.sdPlugin/icon.png";
    let mut settings: Vec<(String, Json)> = Vec::new();
    assert(members_view(settings@) =~= Seq::empty());
    push_member(&mut settings, "app", str_val(app));
    assert(members_view(settings@) =~= seq![("app"@, sv(app@))]);
    button(
        true,
        icon,
        "Launch App",
        "me.amankhanna.oadesktopentry.sdPlugin",
        "plugins/me.amankhanna.oadesktopentry.sdPlugin/pi/launchapp.html",
        "Launch an application",
        "me.amankhanna.oadesktopentry.launchapp",
        index,
        text_state("middle", "#FFFFFF", icon, 16, 3, ""),
        obj(settings),
    )
}

/// A button that switches the deck to the profile `target`, labelled with it.
pub open spec fn spec_switch_profile_key(index: nat, target: Seq<char>, icon_file: Seq<char>) -> JsonV {
    let icon = "plugins/chs.deck.sdPlugin/assets/"@ + icon_file;
    spec_button(
        true,
        icon,
        "Switch Profile"@,
        "com.amansprojects.starterpack.sdPlugin"@,
        "plugins/com.amansprojects.starterpack.sdPlugin/propertyInspector/switchProfile.html"@,
        "\u{2192} "@ + target,
        "com.amansprojects.starterpack.switchprofile"@,
        index,
        spec_text_state("bottom"@, "#94a3b8"@, icon, 14, 2, target),
        JsonV::Obj(seq![("device"@, sv("99-4250D2781310"@)), ("profile"@, sv(target))]),
    )
}

pub fn switch_profile_key(index: usize, target: &str, icon_file: &str) -> (r: Json)
    ensures
        r@ == spec_switch_profile_key(index as nat, target@, icon_file@),
{
    let icon = concat3("plugins/chs.deck.sdPlugin/assets/", icon_file, "");
    let tooltip = concat3("\u{2192} ", target, "");
    proof {
        reveal_strlit("");
    }
    assert(icon@ =~= "plugins/chs.deck.sdPlugin/assets/"@ + icon_file@);
    assert(tooltip@ =~= "\u{2192} "@ + target@);
    let mut settings: Vec<(String, Json)> = Vec::new();
    assert(members_view(settings@) =~= Seq::empty());
    push_member(&mut settings, "device", str_val("99-4250D2781310"));
    push_member(&mut settings, "profile", str_val(target));
    assert(members_view(settings@) =~= seq![("device"@, sv("99-4250D2781310"@)), ("profile"@, sv(target@))]);
    button(
        true,
        icon.as_str(),
        "Switch Profile",
        "com.amansprojects.starterpack.sdPlugin",
        "plugins/com.amansprojects.starterpack.sdPlugin/propertyInspector/switchProfile.html",
        tooltip.as_str(),
        "com.amansprojects.starterpack.switchprofile",
        index,
        text_state("bottom", "#94a3b8", icon.as_str(), 14, 2, target),
        obj(settings),
    )
}

/// The settings of a tiled button: the source, its numeric settings (the
/// frame rate or refresh interval as an `f32`), and the button's own slot.
pub open spec fn spec_tile_settings(
    source_key: Seq<char>,
    source: Seq<char>,
    rate_key: Seq<char>,
    rate_bits: u32,
    start: usize,
    cols: usize,
    rows: usize,
    gap_x: u32,
    gap_y: u32,
    index: usize,
) -> JsonV {
    JsonV::Obj(
        seq![
            (source_key, sv(source)),
            ("start"@, JsonV::Num(start as u64)),
            ("cols"@, JsonV::Num(cols as u64)),
            ("rows"@, JsonV::Num(rows as u64)),
            (rate_key, JsonV::F32(rate_bits)),
            ("gap_x"@, JsonV::Num(gap_x as u64)),
            ("gap_y"@, JsonV::Num(gap_y as u64)),
            ("slot_index"@, JsonV::Num(index as u64)),
        ],
    )
}

fn tile_settings(
    source_key: &str,
    source: &str,
    rate_key: &str,
    rate_bits: u32,
    start: usize,
    cols: usize,
    rows: usize,
    gap_x: u32,
    gap_y: u32,
    index: usize,
) -> (r: Json)
    ensures
        r@ == spec_tile_settings(source_key@, source@, rate_key@, rate_bits, start, cols, rows, gap_x, gap_y, index),
{
    let mut m: Vec<(String, Json)> = Vec::new();
    assert(members_view(m@) =~= Seq::empty());
    push_member(&mut m, source_key, str_val(source));
    push_member(&mut m, "start", Json::Num(start as u64));
    push_member(&mut m, "cols", Json::Num(cols as u64));
    push_member(&mut m, "rows", Json::Num(rows as u64));
    push_member(&mut m, rate_key, Json::F32(rate_bits));
    push_member(&mut m, "gap_x", Json::Num(gap_x as u64));
    push_member(&mut m, "gap_y", Json::Num(gap_y as u64));
    push_member(&mut m, "slot_index", Json::Num(index as u64));
    assert(members_view(m@) =~= seq![
        (source_key@, sv(source@)),
        ("start"@, JsonV::Num(start as u64)),
        ("cols"@, JsonV::Num(cols as u64)),
        ("rows"@, JsonV::Num(rows as u64)),
        (rate_key@, JsonV::F32(rate_bits)),
        ("gap_x"@, JsonV::Num(gap_x as u64)),
        ("gap_y"@, JsonV::Num(gap_y as u64)),
        ("slot_index"@, JsonV::Num(index as u64)),
    ]);
    obj(m)
}

/// A video button showing its tile of the video at `path`.
pub open spec fn spec_video_key(
    index: usize,
    path: Seq<char>,
    start: usize,
    cols: usize,
    rows: usize,
    fps_bits: u32,
    gap_x: u32,
    gap_y: u32,
) -> JsonV {
    let icon = "plugins/chs.deck.sdPlugin/assets/media-play@2x.png"@;
    spec_button(
        false,
        icon,
        "Video Tile"@,
        "chs.deck.sdPlugin"@,
        ""@,
        "Video Tile"@,
        "chs.deck.video"@,
        index as nat,
        spec_state(icon, ""@, "#f0abfc"@),
        spec_tile_settings("path"@, path, "fps"@, fps_bits, start, cols, rows, gap_x, gap_y, index),
    )
}

pub fn video_key(
    index: usize,
    path: &str,
    start: usize,
    cols: usize,
    rows: usize,
    fps_bits: u32,
    gap_x: u32,
    gap_y: u32,
) -> (r: Json)
    ensures
        r@ == spec_video_key(index, path@, start, cols, rows, fps_bits, gap_x, gap_y),
{
    let icon = "plugins/chs.deck.sdPlugin/assets/media-play@2x.png";
    button(
        false,
        icon,
        "Video Tile",
        "chs.deck.sdPlugin",
        "",
        "Video Tile",
        "chs.deck.video",
        index,
        state(icon, "", "#f0abfc"),
        tile_settings("path", path, "fps", fps_bits, start, cols, rows, gap_x, gap_y, index),
    )
}

/// A web-tile button showing its tile of the page at `url`.
pub open spec fn spec_webtile_key(
    index: usize,
    url: Seq<char>,
    interval_bits: u32,
    start: usize,
    cols: usize,
    rows: usize,
    gap_x: u32,
    gap_y: u32,
) -> JsonV {
    let icon = "plugins/chs.deck.sdPlugin/assets/shell@2x.png"@;
    spec_button(
        false,
        icon,
        "Web Tile"@,
        "chs.deck.sdPlugin"@,
        ""@,
        "Web Tile"@,
        "chs.deck.webtile"@,
        index as nat,
        spec_state(icon, ""@, "#7dd3fc"@),
        spec_tile_settings("url"@, url, "interval"@, interval_bits, start, cols, rows, gap_x, gap_y, index),
    )
}

pub fn webtile_key(
    index: usize,
    url: &str,
    interval_bits: u32,
    start: usize,
    cols: usize,
    rows: usize,
    gap_x: u32,
    gap_y: u32,
) -> (r: Json)
    ensures
        r@ == spec_webtile_key(index, url@, interval_bits, start, cols, rows, gap_x, gap_y),
{
    let icon = "plugins/chs.deck.sdPlugin/assets/shell@2x.png";
    button(
        false,
        icon,
        "Web Tile",
        "chs.deck.sdPlugin",
        "",
        "Web Tile",
        "chs.deck.webtile",
        index,
        state(icon, "", "#7dd3fc"),
        tile_settings("url", url, "interval", interval_bits, start, cols, rows, gap_x, gap_y, index),
    )
}


/// The bits of the `f32` frame rate of a video slot without one (10.0).
pub const DEFAULT_FPS_BITS: u32 = 0x4120_0000;

/// The bits of the `f32` refresh interval of a web-tile slot without one (30.0).
pub const DEFAULT_INTERVAL_BITS: u32 = 0x41f0_0000;

/// Slots on the deck: three rows of five buttons and a display column.
pub const SLOT_COUNT: usize = 18;

/// One `[[slot]]` of a profile or layer file. Frame rate and refresh interval
/// are carried as the bit patterns of their `f32` values.
pub struct SlotDef {
    pub index: usize,
    pub action: String,
    pub stat: Option<String>,
    pub media_action: Option<String>,
    pub command: Option<String>,
    pub label: Option<String>,
    pub video_path: Option<String>,
    pub video_start: Option<usize>,
    pub video_cols: Option<usize>,
    pub video_rows: Option<usize>,
    pub video_fps_bits: Option<u32>,
    pub video_gap_x: Option<u32>,
    pub video_gap_y: Option<u32>,
    pub url: Option<String>,
    pub web_interval_bits: Option<u32>,
    pub web_start: Option<usize>,
    pub web_cols: Option<usize>,
    pub web_rows: Option<usize>,
    pub web_gap_x: Option<u32>,
    pub web_gap_y: Option<u32>,
    pub app: Option<String>,
}

pub open spec fn str_or(o: Option<String>, d: Seq<char>) -> Seq<char> {
    match o {
        Some(s) => s@,
        None => d,
    }
}

pub open spec fn opt_str(o: Option<String>) -> Option<Seq<char>> {
    match o {
        Some(s) => Some(s@),
        None => None,
    }
}

pub open spec fn or_default<T>(o: Option<T>, d: T) -> T {
    match o {
        Some(v) => v,
        None => d,
    }
}

/// The actions a slot can name.
pub open spec fn spec_known_action(a: Seq<char>) -> bool {
    ||| a == "chs.deck.stats"@
    ||| a == "chs.deck.docker.count"@
    ||| a == "chs.deck.media"@
    ||| a == "chs.deck.shell"@
    ||| a == "chs.deck.video"@
    ||| a == "chs.deck.webtile"@
    ||| a == "desktop-entry"@
    ||| a == "switch-profile-prev"@
    ||| a == "switch-profile-next"@
}

/// A slot that can be built: on the deck, with a known action, and (for a
/// shell slot) a command that can be shown.
pub open spec fn spec_slot_ok(slot: SlotDef) -> bool {
    &&& slot.index < 18
    &&& spec_known_action(slot.action@)
    &&& slot.action@ == "chs.deck.shell"@ ==> shell_command_ok(str_or(slot.command, ""@))
}

/// The button a slot defines; `prev` and `next` are the neighbouring profiles
/// in the ring. Settings a slot leaves out take their defaults.
pub open spec fn spec_build_slot(slot: SlotDef, prev: Seq<char>, next: Seq<char>) -> JsonV {
    let i = slot.index;
    let a = slot.action@;
    if a == "chs.deck.stats"@ {
        spec_stats_key(i as nat, str_or(slot.stat, "cpu"@))
    } else if a == "chs.deck.docker.count"@ {
        spec_docker_count_key(i as nat)
    } else if a == "chs.deck.media"@ {
        spec_media_key(i as nat, str_or(slot.media_action, "toggle"@))
    } else if a == "chs.deck.shell"@ {
        spec_shell_key(i as nat, str_or(slot.command, ""@), opt_str(slot.label))
    } else if a == "chs.deck.video"@ {
        spec_video_key(
            i,
            str_or(slot.video_path, ""@),
            or_default(slot.video_start, 0),
            or_default(slot.video_cols, 5),
            or_default(slot.video_rows, 3),
            or_default(slot.video_fps_bits, DEFAULT_FPS_BITS),
            or_default(slot.video_gap_x, 0),
            or_default(slot.video_gap_y, 0),
        )
    } else if a == "chs.deck.webtile"@ {
        spec_webtile_key(
            i,
            str_or(slot.url, ""@),
            or_default(slot.web_interval_bits, DEFAULT_INTERVAL_BITS),
            or_default(slot.web_start, 0),
            or_default(slot.web_cols, 5),
            or_default(slot.web_rows, 3),
            or_default(slot.web_gap_x, 0),
            or_default(slot.web_gap_y, 0),
        )
    } else if a == "desktop-entry"@ {
        spec_desktop_entry_key(i as nat, str_or(slot.app, ""@))
    } else if a == "switch-profile-prev"@ {
        spec_switch_profile_key(i as nat, prev, "switch-prev@2x.png"@)
    } else {
        spec_switch_profile_key(i as nat, next, "switch-next@2x.png"@)
    }
}

fn str_or_exec<'a>(o: &'a Option<String>, d: &'a str) -> (r: &'a str)
    ensures
        r@ == str_or(*o, d@),
{
    match o {
        Some(s) => s.as_str(),
        None => d,
    }
}

/// Whether a slot can be built (see `spec_slot_ok`).
pub fn slot_ok(slot: &SlotDef) -> (r: bool)
    ensures
        r == spec_slot_ok(*slot),
{
    if slot.index >= SLOT_COUNT {
        return false;
    }
    let a = slot.action.as_str();
    if str_is(a, "chs.deck.shell") {
        return shell_command_fits(str_or_exec(&slot.command, ""));
    }
    str_is(a, "chs.deck.stats") || str_is(a, "chs.deck.docker.count") || str_is(a, "chs.deck.media")
        || str_is(a, "chs.deck.video") || str_is(a, "chs.deck.webtile") || str_is(a, "desktop-entry")
        || str_is(a, "switch-profile-prev") || str_is(a, "switch-profile-next")
}

/// The button `slot` defines, with `prev` and `next` the neighbouring profiles.
pub fn build_slot(slot: &SlotDef, prev: &str, next: &str) -> (r: Json)
    requires
        spec_slot_ok(*slot),
    ensures
        r@ == spec_build_slot(*slot, prev@, next@),
{
    let i = slot.index;
    let a = slot.action.as_str();
    if str_is(a, "chs.deck.stats") {
        stats_key(i, str_or_exec(&slot.stat, "cpu"))
    } else if str_is(a, "chs.deck.docker.count") {
        docker_count_key(i)
    } else if str_is(a, "chs.deck.media") {
        media_key(i, str_or_exec(&slot.media_action, "toggle"))
    } else if str_is(a, "chs.deck.shell") {
        let label: Option<&str> = match &slot.label {
            Some(l) => Some(l.as_str()),
            None => None,
        };
        shell_key(i, str_or_exec(&slot.command, ""), label)
    } else if str_is(a, "chs.deck.video") {
        video_key(
            i,
            str_or_exec(&slot.video_path, ""),
            match slot.video_start { Some(v) => v, None => 0 },
            match slot.video_cols { Some(v) => v, None => 5 },
            match slot.video_rows { Some(v) => v, None => 3 },
            match slot.video_fps_bits { Some(v) => v, None => DEFAULT_FPS_BITS },
            match slot.video_gap_x { Some(v) => v, None => 0 },
            match slot.video_gap_y { Some(v) => v, None => 0 },
        )
    } else if str_is(a, "chs.deck.webtile") {
        webtile_key(
            i,
            str_or_exec(&slot.url, ""),
            match slot.web_interval_bits { Some(v) => v, None => DEFAULT_INTERVAL_BITS },
            match slot.web_start { Some(v) => v, None => 0 },
            match slot.web_cols { Some(v) => v, None => 5 },
            match slot.web_rows { Some(v) => v, None => 3 },
            match slot.web_gap_x { Some(v) => v, None => 0 },
            match slot.web_gap_y { Some(v) => v, None => 0 },
        )
    } else if str_is(a, "desktop-entry") {
        desktop_entry_key(i, str_or_exec(&slot.app, ""))
    } else if str_is(a, "switch-profile-prev") {
        switch_profile_key(i, prev, "switch-prev@2x.png")
    } else {
        switch_profile_key(i, next, "switch-next@2x.png")
    }
}


/// The slots of the layers, layer after layer.
pub open spec fn flatten(layers: Seq<Vec<SlotDef>>) -> Seq<SlotDef>
    decreases layers.len(),
{
    if layers.len() == 0 {
        seq![]
    } else {
        flatten(layers.drop_last()) + layers.last()@
    }
}

/// The deck's keys after building `slots` in order, each into its own slot, over
/// an empty deck: a later slot for the same index replaces an earlier one.
pub open spec fn spec_keys(slots: Seq<SlotDef>, prev: Seq<char>, next: Seq<char>) -> Seq<JsonV>
    decreases slots.len(),
{
    if slots.len() == 0 {
        Seq::new(18, |i: int| JsonV::Null)
    } else {
        let s = slots.last();
        let k = spec_keys(slots.drop_last(), prev, next);
        if s.index < 18 {
            k.update(s.index as int, spec_build_slot(s, prev, next))
        } else {
            k
        }
    }
}

/// The position of the last slot of `slots` for deck slot `i`.
pub open spec fn last_slot_for(slots: Seq<SlotDef>, i: int) -> Option<int>
    decreases slots.len(),
{
    if slots.len() == 0 {
        None
    } else if slots.last().index == i {
        Some(slots.len() - 1)
    } else {
        last_slot_for(slots.drop_last(), i)
    }
}

pub open spec fn all_ok(slots: Seq<SlotDef>) -> bool {
    forall|k: int| 0 <= k < slots.len() ==> spec_slot_ok(#[trigger] slots[k])
}

proof fn lemma_keys_len(slots: Seq<SlotDef>, prev: Seq<char>, next: Seq<char>)
    ensures
        spec_keys(slots, prev, next).len() == 18,
    decreases slots.len(),
{
    if slots.len() > 0 {
        lemma_keys_len(slots.drop_last(), prev, next);
    } else {
        assert(spec_keys(slots, prev, next) == Seq::new(18, |i: int| JsonV::Null));
    }
}

/// Each key of the deck is built from the last slot for it, and a key that no
/// slot names stays empty.
pub proof fn lemma_last_slot_wins(slots: Seq<SlotDef>, prev: Seq<char>, next: Seq<char>, i: int)
    requires
        0 <= i < 18,
        forall|k: int| 0 <= k < slots.len() ==> (#[trigger] slots[k]).index < 18,
    ensures
        spec_keys(slots, prev, next)[i] == match last_slot_for(slots, i) {
            Some(j) => spec_build_slot(slots[j], prev, next),
            None => JsonV::Null,
        },
    decreases slots.len(),
{
    if slots.len() > 0 {
        let p = slots.drop_last();
        assert forall|k: int| 0 <= k < p.len() implies (#[trigger] p[k]).index < 18 by {
            assert(p[k] == slots[k]);
        }
        lemma_last_slot_wins(p, prev, next, i);
        lemma_keys_len(p, prev, next);
        lemma_last_slot_in(p, i);
        if slots.last().index != i {
            match last_slot_for(p, i) {
                Some(j) => {
                    assert(slots[j] == p[j]);
                },
                None => {},
            }
        }
    }
}

proof fn lemma_last_slot_in(slots: Seq<SlotDef>, i: int)
    ensures
        last_slot_for(slots, i) matches Some(j) ==> 0 <= j < slots.len() && slots[j].index == i,
        last_slot_for(slots, i) is None ==> forall|k: int| 0 <= k < slots.len() ==> slots[k].index != i,
    decreases slots.len(),
{
    if slots.len() > 0 {
        lemma_last_slot_in(slots.drop_last(), i);
        if slots.last().index != i {
            assert forall|k: int| 0 <= k < slots.len() - 1 implies slots[k] == slots.drop_last()[k] by {}
        }
    }
}

proof fn lemma_last_slot_in_suffix(a: Seq<SlotDef>, b: Seq<SlotDef>, i: int, k: int)
    requires
        0 <= k < b.len(),
        b[k].index == i,
    ensures
        last_slot_for(a + b, i) matches Some(j) && j >= a.len(),
    decreases b.len(),
{
    let s = a + b;
    assert(s.last() == b.last());
    if b.last().index != i {
        assert(s.drop_last() =~= a + b.drop_last());
        lemma_last_slot_in_suffix(a, b.drop_last(), i, k);
    }
}

/// Layers override the profile: where a layer has a slot for deck slot `i`, the
/// key there is built from a layer's slot — the last one for `i` — and not from
/// one of the profile's own.
pub proof fn lemma_layers_override(
    profile: Seq<SlotDef>,
    layers: Seq<Vec<SlotDef>>,
    prev: Seq<char>,
    next: Seq<char>,
    i: int,
    k: int,
)
    requires
        0 <= i < 18,
        forall|m: int| 0 <= m < (profile + flatten(layers)).len() ==> (#[trigger] (profile + flatten(layers))[m]).index < 18,
        0 <= k < flatten(layers).len(),
        flatten(layers)[k].index == i,
    ensures
        last_slot_for(profile + flatten(layers), i) matches Some(j) && {
            &&& j >= profile.len()
            &&& (profile + flatten(layers))[j].index == i
            &&& spec_keys(profile + flatten(layers), prev, next)[i] == spec_build_slot(
                flatten(layers)[j - profile.len()],
                prev,
                next,
            )
        },
{
    let all = profile + flatten(layers);
    lemma_last_slot_in_suffix(profile, flatten(layers), i, k);
    lemma_last_slot_in(all, i);
    lemma_last_slot_wins(all, prev, next, i);
}

/// The deck's keys for a profile's own slots and then its layers' slots, with
/// `prev` and `next` the neighbouring profiles: every slot is built into its
/// index, later slots replacing earlier ones, so layers override the profile.
pub fn profile_keys(profile: &Vec<SlotDef>, layers: &Vec<Vec<SlotDef>>, prev: &str, next: &str) -> (r: Vec<Json>)
    requires
        all_ok(profile@ + flatten(layers@)),
    ensures
        items_view(r@) == spec_keys(profile@ + flatten(layers@), prev@, next@),
{
    let ghost all = profile@ + flatten(layers@);
    let mut keys: Vec<Json> = Vec::new();
    let mut n: usize = 0;
    while n < SLOT_COUNT
        invariant
            n <= 18,
            keys.len() == n,
            forall|k: int| 0 <= k < n ==> (#[trigger] keys@[k])@ == JsonV::Null,
        decreases 18 - n,
    {
        keys.push(Json::Null);
        n += 1;
    }
    assert(items_view(keys@) =~= spec_keys(seq![], prev@, next@));
    let mut i: usize = 0;
    while i < profile.len()
        invariant
            i <= profile.len(),
            all == profile@ + flatten(layers@),
            all_ok(all),
            items_view(keys@) == spec_keys(profile@.take(i as int), prev@, next@),
        decreases profile.len() - i,
    {
        assert(all[i as int] == profile@[i as int]);
        let b = build_slot(&profile[i], prev, next);
        let ghost before = profile@.take(i as int);
        proof {
            lemma_keys_len(before, prev@, next@);
        }
        keys.set(profile[i].index, b);
        assert(profile@.take(i + 1).drop_last() =~= before);
        assert(items_view(keys@) =~= spec_keys(profile@.take(i + 1), prev@, next@));
        i += 1;
    }
    assert(profile@.take(profile.len() as int) =~= profile@);
    assert(flatten(layers@.take(0)) =~= Seq::<SlotDef>::empty());
    assert(profile@ + flatten(layers@.take(0)) =~= profile@);
    let mut l: usize = 0;
    while l < layers.len()
        invariant
            l <= layers.len(),
            all == profile@ + flatten(layers@),
            all_ok(all),
            items_view(keys@) == spec_keys(profile@ + flatten(layers@.take(l as int)), prev@, next@),
        decreases layers.len() - l,
    {
        let layer = &layers[l];
        let ghost base = profile@ + flatten(layers@.take(l as int));
        assert(layers@.take(l + 1).drop_last() =~= layers@.take(l as int));
        assert(flatten(layers@.take(l + 1)) == flatten(layers@.take(l as int)) + layer@);
        proof {
            lemma_flatten_prefix(layers@, l + 1);
        }
        let mut j: usize = 0;
        assert(base + layer@.take(0) =~= base);
        while j < layer.len()
            invariant
                j <= layer.len(),
                layer == &layers@[l as int],
                l < layers.len(),
                all == profile@ + flatten(layers@),
                all_ok(all),
                base == profile@ + flatten(layers@.take(l as int)),
                flatten(layers@.take(l + 1)) == flatten(layers@.take(l as int)) + layer@,
                (profile@ + flatten(layers@.take(l + 1))).len() <= all.len(),
                forall|k: int| 0 <= k < (profile@ + flatten(layers@.take(l + 1))).len() ==>
                    #[trigger] (profile@ + flatten(layers@.take(l + 1)))[k] == all[k],
                items_view(keys@) == spec_keys(base + layer@.take(j as int), prev@, next@),
            decreases layer.len() - j,
        {
            let ghost cur = base + layer@.take(j + 1);
            assert(cur.drop_last() =~= base + layer@.take(j as int));
            let ghost pos = base.len() + j;
            assert((profile@ + flatten(layers@.take(l + 1)))[pos] == layer@[j as int]);
            assert(all[pos] == layer@[j as int]);
            let b = build_slot(&layer[j], prev, next);
            proof {
                lemma_keys_len(base + layer@.take(j as int), prev@, next@);
            }
            keys.set(layer[j].index, b);
            assert(items_view(keys@) =~= spec_keys(cur, prev@, next@));
            j += 1;
        }
        assert(layer@.take(layer.len() as int) =~= layer@);
        assert(base + layer@ =~= profile@ + flatten(layers@.take(l + 1)));
        l += 1;
    }
    assert(layers@.take(layers.len() as int) =~= layers@);
    keys
}

proof fn lemma_flatten_prefix(layers: Seq<Vec<SlotDef>>, m: int)
    requires
        0 <= m <= layers.len(),
    ensures
        flatten(layers.take(m)).len() <= flatten(layers).len(),
        forall|k: int| 0 <= k < flatten(layers.take(m)).len() ==> #[trigger] flatten(layers.take(m))[k] == flatten(layers)[k],
    decreases layers.len(),
{
    if m < layers.len() {
        let p = layers.drop_last();
        assert(p.take(m) =~= layers.take(m));
        lemma_flatten_prefix(p, m);
    } else {
        assert(layers.take(m) =~= layers);
    }
}

/// The profile document: its keys and no sliders.
pub open spec fn spec_document(keys: Seq<JsonV>) -> JsonV {
    JsonV::Obj(seq![("keys"@, JsonV::Arr(keys)), ("sliders"@, JsonV::Arr(seq![]))])
}

pub fn document(keys: Vec<Json>) -> (r: Json)
    ensures
        r@ == spec_document(items_view(keys@)),
{
    let ghost kv = items_view(keys@);
    let sliders: Vec<Json> = Vec::new();
    assert(items_view(sliders@) =~= Seq::<JsonV>::empty());
    let mut m: Vec<(String, Json)> = Vec::new();
    assert(members_view(m@) =~= Seq::empty());
    push_member(&mut m, "keys", arr(keys));
    push_member(&mut m, "sliders", arr(sliders));
    assert(members_view(m@) =~= seq![("keys"@, JsonV::Arr(kv)), ("sliders"@, JsonV::Arr(seq![]))]);
    obj(m)
}

/// The number of keys of `keys` that are set.
pub open spec fn filled(keys: Seq<JsonV>) -> nat
    decreases keys.len(),
{
    if keys.len() == 0 {
        0
    } else {
        filled(keys.drop_last()) + if keys.last() is Null { 0nat } else { 1nat }
    }
}

/// The number of keys that are set.
pub fn filled_count(keys: &Vec<Json>) -> (n: usize)
    ensures
        n == filled(items_view(keys@)),
{
    let mut n: usize = 0;
    let mut i: usize = 0;
    while i < keys.len()
        invariant
            i <= keys.len(),
            n <= i,
            n == filled(items_view(keys@).take(i as int)),
        decreases keys.len() - i,
    {
        let ghost v = items_view(keys@);
        assert(v.take(i + 1).drop_last() =~= v.take(i as int));
        match &keys[i] {
            Json::Null => {},
            _ => {
                n += 1;
            },
        }
        i += 1;
    }
    assert(items_view(keys@).take(keys.len() as int) =~= items_view(keys@));
    n
}


/// The dot-separated parts of the context of slot `index`.
proof fn lemma_context_parts(index: usize)
    ensures
        dot_parts(spec_context(index as nat)) == seq!["Keypad"@, decimal(index as nat), seq!['0']],
        parse_usize_spec(decimal(index as nat)) == Some(index),
{
    reveal_strlit("Keypad.");
    reveal_strlit(".0");
    reveal_strlit("Keypad");
    let d = decimal(index as nat);
    crate::text::lemma_decimal_digits(index as nat);
    assert forall|i: int| 0 <= i < d.len() implies d[i] != '.' by {
        assert(is_digit(d[i]));
    }
    let kp = "Keypad"@;
    assert(forall|i: int| 0 <= i < kp.len() ==> kp[i] != '.');
    let zero = seq!['0'];
    lemma_dot_parts_single(kp);
    lemma_dot_parts_single(d);
    lemma_dot_parts_single(zero);
    lemma_dot_parts_join(d, zero);
    lemma_dot_parts_join(kp, d.push('.') + zero);
    assert(spec_context(index as nat) =~= kp.push('.') + (d.push('.') + zero));
    assert(dot_parts(spec_context(index as nat)) =~= seq![kp, d, zero]);
    lemma_parse_decimal(index as nat, usize::MAX as nat);
}

/// The plugin finds a button's slot in its context: reading the slot back from
/// the context that a profile gives the button in slot `index` yields `index`.
pub proof fn lemma_context_slot(index: usize)
    ensures
        spec_parse_slot(spec_context(index as nat)) == index,
{
    lemma_context_parts(index);
    assert(keypad_slot_from(dot_parts(spec_context(index as nat)), 0) == index);
}

/// Parts before the slot's parts that are not `Keypad` are passed over.
proof fn lemma_keypad_skip(a: Seq<Seq<char>>, b: Seq<Seq<char>>, i: nat)
    requires
        i <= a.len(),
        b.len() >= 2,
        forall|k: int| 0 <= k < a.len() ==> a[k] != "Keypad"@,
    ensures
        keypad_slot_from(a + b, i) == keypad_slot_from(a + b, a.len()),
    decreases a.len() - i,
{
    if i < a.len() {
        assert((a + b)[i as int] == a[i as int]);
        lemma_keypad_skip(a, b, i + 1);
    }
}

/// The same holds of an instance's id, where the context follows other parts
/// (the device and the profile): reading the slot back from `prefix`, a dot and
/// the context of slot `index` yields `index`, for every `prefix` none of whose
/// dot-separated parts is `Keypad`.
pub proof fn lemma_instance_slot(prefix: Seq<char>, index: usize)
    requires
        forall|k: int| 0 <= k < dot_parts(prefix).len() ==> dot_parts(prefix)[k] != "Keypad"@,
    ensures
        spec_parse_slot(prefix.push('.') + spec_context(index as nat)) == index,
{
    lemma_context_parts(index);
    lemma_dot_parts_join(prefix, spec_context(index as nat));
    let a = dot_parts(prefix);
    let b = dot_parts(spec_context(index as nat));
    lemma_keypad_skip(a, b, 0);
    assert((a + b)[a.len() as int] == b[0]);
    assert((a + b)[a.len() as int + 1] == b[1]);
}

/// Where the fields of a button sit: its settings, context and states, and its
/// action's name, icon, tooltip and id.
proof fn lemma_button_fields(
    with_encoder: bool,
    icon: Seq<char>,
    name: Seq<char>,
    plugin: Seq<char>,
    inspector: Seq<char>,
    tooltip: Seq<char>,
    uuid: Seq<char>,
    index: nat,
    state: JsonV,
    settings: JsonV,
)
    ensures
        ({
            let b = spec_button(with_encoder, icon, name, plugin, inspector, tooltip, uuid, index, state, settings);
            &&& at(b, "settings"@) == settings
            &&& at(b, "context"@) == sv(spec_context(index))
            &&& at(b, "states"@) == JsonV::Arr(seq![state])
            &&& at(at(b, "action"@), "name"@) == sv(name)
            &&& at(at(b, "action"@), "icon"@) == sv(icon)
            &&& at(at(b, "action"@), "tooltip"@) == sv(tooltip)
            &&& at(at(b, "action"@), "uuid"@) == sv(uuid)
            &&& at(at(b, "action"@), "plugin"@) == sv(plugin)
        }),
{
    reveal_strlit("action");
    reveal_strlit("children");
    reveal_strlit("context");
    reveal_strlit("controllers");
    reveal_strlit("current_state");
    reveal_strlit("disable_automatic_states");
    reveal_strlit("icon");
    reveal_strlit("name");
    reveal_strlit("plugin");
    reveal_strlit("property_inspector");
    reveal_strlit("settings");
    reveal_strlit("states");
    reveal_strlit("supported_in_multi_actions");
    reveal_strlit("tooltip");
    reveal_strlit("uuid");
    reveal_strlit("visible_in_action_list");
    assert("action"@.len() == 6 && "settings"@.len() == 8);
    assert("action"@ != "settings"@);
    assert("children"@[0] != "settings"@[0]);
    assert("children"@ != "settings"@);
    assert("context"@.len() == 7 && "settings"@.len() == 8);
    assert("context"@ != "settings"@);
    assert("current_state"@.len() == 13 && "settings"@.len() == 8);
    assert("current_state"@ != "settings"@);
    assert("action"@.len() == 6 && "context"@.len() == 7);
    assert("action"@ != "context"@);
    assert("children"@.len() == 8 && "context"@.len() == 7);
    assert("children"@ != "context"@);
    assert("action"@[0] != "states"@[0]);
    assert("action"@ != "states"@);
    assert("children"@.len() == 8 && "states"@.len() == 6);
    assert("children"@ != "states"@);
    assert("context"@.len() == 7 && "states"@.len() == 6);
    assert("context"@ != "states"@);
    assert("current_state"@.len() == 13 && "states"@.len() == 6);
    assert("current_state"@ != "states"@);
    assert("settings"@.len() == 8 && "states"@.len() == 6);
    assert("settings"@ != "states"@);
    assert("controllers"@.len() == 11 && "name"@.len() == 4);
    assert("controllers"@ != "name"@);
    assert("disable_automatic_states"@.len() == 24 && "name"@.len() == 4);
    assert("disable_automatic_states"@ != "name"@);
    assert("icon"@[0] != "name"@[0]);
    assert("icon"@ != "name"@);
    assert("controllers"@.len() == 11 && "icon"@.len() == 4);
    assert("controllers"@ != "icon"@);
    assert("disable_automatic_states"@.len() == 24 && "icon"@.len() == 4);
    assert("disable_automatic_states"@ != "icon"@);
    assert("controllers"@.len() == 11 && "tooltip"@.len() == 7);
    assert("controllers"@ != "tooltip"@);
    assert("disable_automatic_states"@.len() == 24 && "tooltip"@.len() == 7);
    assert("disable_automatic_states"@ != "tooltip"@);
    assert("icon"@.len() == 4 && "tooltip"@.len() == 7);
    assert("icon"@ != "tooltip"@);
    assert("name"@.len() == 4 && "tooltip"@.len() == 7);
    assert("name"@ != "tooltip"@);
    assert("plugin"@.len() == 6 && "tooltip"@.len() == 7);
    assert("plugin"@ != "tooltip"@);
    assert("property_inspector"@.len() == 18 && "tooltip"@.len() == 7);
    assert("property_inspector"@ != "tooltip"@);
    assert("states"@.len() == 6 && "tooltip"@.len() == 7);
    assert("states"@ != "tooltip"@);
    assert("supported_in_multi_actions"@.len() == 26 && "tooltip"@.len() == 7);
    assert("supported_in_multi_actions"@ != "tooltip"@);
    assert("controllers"@.len() == 11 && "uuid"@.len() == 4);
    assert("controllers"@ != "uuid"@);
    assert("disable_automatic_states"@.len() == 24 && "uuid"@.len() == 4);
    assert("disable_automatic_states"@ != "uuid"@);
    assert("icon"@[0] != "uuid"@[0]);
    assert("icon"@ != "uuid"@);
    assert("name"@[0] != "uuid"@[0]);
    assert("name"@ != "uuid"@);
    assert("plugin"@.len() == 6 && "uuid"@.len() == 4);
    assert("plugin"@ != "uuid"@);
    assert("property_inspector"@.len() == 18 && "uuid"@.len() == 4);
    assert("property_inspector"@ != "uuid"@);
    assert("states"@.len() == 6 && "uuid"@.len() == 4);
    assert("states"@ != "uuid"@);
    assert("supported_in_multi_actions"@.len() == 26 && "uuid"@.len() == 4);
    assert("supported_in_multi_actions"@ != "uuid"@);
    assert("tooltip"@.len() == 7 && "uuid"@.len() == 4);
    assert("tooltip"@ != "uuid"@);
    assert("controllers"@.len() == 11 && "plugin"@.len() == 6);
    assert("controllers"@ != "plugin"@);
    assert("disable_automatic_states"@.len() == 24 && "plugin"@.len() == 6);
    assert("disable_automatic_states"@ != "plugin"@);
    assert("icon"@.len() == 4 && "plugin"@.len() == 6);
    assert("icon"@ != "plugin"@);
    assert("name"@.len() == 4 && "plugin"@.len() == 6);
    assert("name"@ != "plugin"@);
    reveal_with_fuel(first_member, 12);
}

/// Where the image and text of a button's look sit.
proof fn lemma_state_fields(
    alignment: Seq<char>,
    colour: Seq<char>,
    image: Seq<char>,
    size: u64,
    stroke: u64,
    text: Seq<char>,
)
    ensures
        at(spec_text_state(alignment, colour, image, size, stroke, text), "image"@) == sv(image),
        at(spec_text_state(alignment, colour, image, size, stroke, text), "text"@) == sv(text),
{
    reveal_strlit("alignment");
    reveal_strlit("background_colour");
    reveal_strlit("colour");
    reveal_strlit("family");
    reveal_strlit("image");
    reveal_strlit("name");
    reveal_strlit("show");
    reveal_strlit("size");
    reveal_strlit("stroke_colour");
    reveal_strlit("stroke_size");
    reveal_strlit("style");
    reveal_strlit("text");
    reveal_strlit("underline");
    assert("alignment"@.len() == 9 && "image"@.len() == 5);
    assert("alignment"@ != "image"@);
    assert("background_colour"@.len() == 17 && "image"@.len() == 5);
    assert("background_colour"@ != "image"@);
    assert("colour"@.len() == 6 && "image"@.len() == 5);
    assert("colour"@ != "image"@);
    assert("family"@.len() == 6 && "image"@.len() == 5);
    assert("family"@ != "image"@);
    assert("alignment"@.len() == 9 && "text"@.len() == 4);
    assert("alignment"@ != "text"@);
    assert("background_colour"@.len() == 17 && "text"@.len() == 4);
    assert("background_colour"@ != "text"@);
    assert("colour"@.len() == 6 && "text"@.len() == 4);
    assert("colour"@ != "text"@);
    assert("family"@.len() == 6 && "text"@.len() == 4);
    assert("family"@ != "text"@);
    assert("image"@.len() == 5 && "text"@.len() == 4);
    assert("image"@ != "text"@);
    assert("name"@[0] != "text"@[0]);
    assert("name"@ != "text"@);
    assert("show"@[0] != "text"@[0]);
    assert("show"@ != "text"@);
    assert("size"@[0] != "text"@[0]);
    assert("size"@ != "text"@);
    assert("stroke_colour"@.len() == 13 && "text"@.len() == 4);
    assert("stroke_colour"@ != "text"@);
    assert("stroke_size"@.len() == 11 && "text"@.len() == 4);
    assert("stroke_size"@ != "text"@);
    assert("style"@.len() == 5 && "text"@.len() == 4);
    assert("style"@ != "text"@);
    reveal_with_fuel(first_member, 13);
}

/// A video slot's button carries the slot's own video settings: its path, first
/// slot, grid, frame rate (as `f32` bits), horizontal gap as `gap_x` and
/// vertical gap as `gap_y`, each with its default (empty path, 0, 5 columns, 3
/// rows, 10.0 frames a second, no gaps) where the slot leaves it out, and the
/// slot's index.
pub proof fn lemma_video_slot_settings(slot: SlotDef, prev: Seq<char>, next: Seq<char>)
    requires
        slot.action@ == "chs.deck.video"@,
    ensures
        at(spec_build_slot(slot, prev, next), "settings"@) == JsonV::Obj(
            seq![
                ("path"@, JsonV::Str(match slot.video_path { Some(s) => s@, None => ""@ })),
                ("start"@, JsonV::Num((match slot.video_start { Some(v) => v, None => 0 }) as u64)),
                ("cols"@, JsonV::Num((match slot.video_cols { Some(v) => v, None => 5 }) as u64)),
                ("rows"@, JsonV::Num((match slot.video_rows { Some(v) => v, None => 3 }) as u64)),
                ("fps"@, JsonV::F32(match slot.video_fps_bits { Some(b) => b, None => 0x4120_0000u32 })),
                ("gap_x"@, JsonV::Num((match slot.video_gap_x { Some(g) => g, None => 0 }) as u64)),
                ("gap_y"@, JsonV::Num((match slot.video_gap_y { Some(g) => g, None => 0 }) as u64)),
                ("slot_index"@, JsonV::Num(slot.index as u64)),
            ],
        ),
        at(at(spec_build_slot(slot, prev, next), "action"@), "uuid"@) == sv("chs.deck.video"@),
        at(spec_build_slot(slot, prev, next), "context"@) == sv(spec_context(slot.index as nat)),
{
    reveal_strlit("chs.deck.stats");
    reveal_strlit("chs.deck.docker.count");
    reveal_strlit("chs.deck.media");
    reveal_strlit("chs.deck.shell");
    reveal_strlit("chs.deck.video");
    assert("chs.deck.stats"@[9] != "chs.deck.video"@[9]);
    assert("chs.deck.stats"@ != "chs.deck.video"@);
    assert("chs.deck.docker.count"@.len() == 21 && "chs.deck.video"@.len() == 14);
    assert("chs.deck.docker.count"@ != "chs.deck.video"@);
    assert("chs.deck.media"@[9] != "chs.deck.video"@[9]);
    assert("chs.deck.media"@ != "chs.deck.video"@);
    assert("chs.deck.shell"@[9] != "chs.deck.video"@[9]);
    assert("chs.deck.shell"@ != "chs.deck.video"@);
    lemma_button_fields(
        false,
        "plugins/chs.deck.sdPlugin/assets/media-play@2x.png"@,
        "Video Tile"@,
        "chs.deck.sdPlugin"@,
        ""@,
        "Video Tile"@,
        "chs.deck.video"@,
        slot.index as nat,
        spec_state("plugins/chs.deck.sdPlugin/assets/media-play@2x.png"@, ""@, "#f0abfc"@),
        spec_tile_settings(
            "path"@,
            str_or(slot.video_path, ""@),
            "fps"@,
            or_default(slot.video_fps_bits, DEFAULT_FPS_BITS),
            or_default(slot.video_start, 0),
            or_default(slot.video_cols, 5),
            or_default(slot.video_rows, 3),
            or_default(slot.video_gap_x, 0),
            or_default(slot.video_gap_y, 0),
            slot.index,
        ),
    );
    let st = at(spec_build_slot(slot, prev, next), "settings"@);
    assert(st->Obj_0 =~= seq![
                ("path"@, JsonV::Str(match slot.video_path { Some(s) => s@, None => ""@ })),
                ("start"@, JsonV::Num((match slot.video_start { Some(v) => v, None => 0 }) as u64)),
                ("cols"@, JsonV::Num((match slot.video_cols { Some(v) => v, None => 5 }) as u64)),
                ("rows"@, JsonV::Num((match slot.video_rows { Some(v) => v, None => 3 }) as u64)),
                ("fps"@, JsonV::F32(match slot.video_fps_bits { Some(b) => b, None => 0x4120_0000u32 })),
                ("gap_x"@, JsonV::Num((match slot.video_gap_x { Some(g) => g, None => 0 }) as u64)),
                ("gap_y"@, JsonV::Num((match slot.video_gap_y { Some(g) => g, None => 0 }) as u64)),
                ("slot_index"@, JsonV::Num(slot.index as u64)),
            ]);
}

/// A web-tile slot's button carries the slot's own page settings: its address,
/// first slot, grid, refresh interval (as `f32` bits), horizontal gap as `gap_x`
/// and vertical gap as `gap_y`, each with its default (empty address, 0, 5
/// columns, 3 rows, 30.0 seconds, no gaps) where the slot leaves it out, and the
/// slot's index.
pub proof fn lemma_webtile_slot_settings(slot: SlotDef, prev: Seq<char>, next: Seq<char>)
    requires
        slot.action@ == "chs.deck.webtile"@,
    ensures
        at(spec_build_slot(slot, prev, next), "settings"@) == JsonV::Obj(
            seq![
                ("url"@, JsonV::Str(match slot.url { Some(s) => s@, None => ""@ })),
                ("start"@, JsonV::Num((match slot.web_start { Some(v) => v, None => 0 }) as u64)),
                ("cols"@, JsonV::Num((match slot.web_cols { Some(v) => v, None => 5 }) as u64)),
                ("rows"@, JsonV::Num((match slot.web_rows { Some(v) => v, None => 3 }) as u64)),
                ("interval"@, JsonV::F32(match slot.web_interval_bits { Some(b) => b, None => 0x41f0_0000u32 })),
                ("gap_x"@, JsonV::Num((match slot.web_gap_x { Some(g) => g, None => 0 }) as u64)),
                ("gap_y"@, JsonV::Num((match slot.web_gap_y { Some(g) => g, None => 0 }) as u64)),
                ("slot_index"@, JsonV::Num(slot.index as u64)),
            ],
        ),
        at(at(spec_build_slot(slot, prev, next), "action"@), "uuid"@) == sv("chs.deck.webtile"@),
        at(spec_build_slot(slot, prev, next), "context"@) == sv(spec_context(slot.index as nat)),
{
    reveal_strlit("chs.deck.stats");
    reveal_strlit("chs.deck.docker.count");
    reveal_strlit("chs.deck.media");
    reveal_strlit("chs.deck.shell");
    reveal_strlit("chs.deck.video");
    reveal_strlit("chs.deck.webtile");
    assert("chs.deck.stats"@.len() == 14 && "chs.deck.webtile"@.len() == 16);
    assert("chs.deck.stats"@ != "chs.deck.webtile"@);
    assert("chs.deck.docker.count"@.len() == 21 && "chs.deck.webtile"@.len() == 16);
    assert("chs.deck.docker.count"@ != "chs.deck.webtile"@);
    assert("chs.deck.media"@.len() == 14 && "chs.deck.webtile"@.len() == 16);
    assert("chs.deck.media"@ != "chs.deck.webtile"@);
    assert("chs.deck.shell"@.len() == 14 && "chs.deck.webtile"@.len() == 16);
    assert("chs.deck.shell"@ != "chs.deck.webtile"@);
    assert("chs.deck.video"@.len() == 14 && "chs.deck.webtile"@.len() == 16);
    assert("chs.deck.video"@ != "chs.deck.webtile"@);
    lemma_button_fields(
        false,
        "plugins/chs.deck.sdPlugin/assets/shell@2x.png"@,
        "Web Tile"@,
        "chs.deck.sdPlugin"@,
        ""@,
        "Web Tile"@,
        "chs.deck.webtile"@,
        slot.index as nat,
        spec_state("plugins/chs.deck.sdPlugin/assets/shell@2x.png"@, ""@, "#7dd3fc"@),
        spec_tile_settings(
            "url"@,
            str_or(slot.url, ""@),
            "interval"@,
            or_default(slot.web_interval_bits, DEFAULT_INTERVAL_BITS),
            or_default(slot.web_start, 0),
            or_default(slot.web_cols, 5),
            or_default(slot.web_rows, 3),
            or_default(slot.web_gap_x, 0),
            or_default(slot.web_gap_y, 0),
            slot.index,
        ),
    );
    let st = at(spec_build_slot(slot, prev, next), "settings"@);
    assert(st->Obj_0 =~= seq![
                ("url"@, JsonV::Str(match slot.url { Some(s) => s@, None => ""@ })),
                ("start"@, JsonV::Num((match slot.web_start { Some(v) => v, None => 0 }) as u64)),
                ("cols"@, JsonV::Num((match slot.web_cols { Some(v) => v, None => 5 }) as u64)),
                ("rows"@, JsonV::Num((match slot.web_rows { Some(v) => v, None => 3 }) as u64)),
                ("interval"@, JsonV::F32(match slot.web_interval_bits { Some(b) => b, None => 0x41f0_0000u32 })),
                ("gap_x"@, JsonV::Num((match slot.web_gap_x { Some(g) => g, None => 0 }) as u64)),
                ("gap_y"@, JsonV::Num((match slot.web_gap_y { Some(g) => g, None => 0 }) as u64)),
                ("slot_index"@, JsonV::Num(slot.index as u64)),
            ]);
}

/// Each media button looks as its action says: `prev`, `next` and `stop` show
/// their own icon and label, any other action the play/pause ones; the tooltip
/// is the label, and the button's settings hold the action.
pub proof fn lemma_media_key_looks(index: nat, action: Seq<char>)
    ensures
        ({
            let k = spec_media_key(index, action);
            let a = at(k, "action"@);
            &&& action == "prev"@ ==> at(a, "name"@) == sv("\u{23ee} Prev"@) && at(a, "icon"@) == sv("plugins/chs.deck.sdPlugin/assets/media-prev@2x.png"@)
            &&& action == "next"@ ==> at(a, "name"@) == sv("\u{23ed} Next"@) && at(a, "icon"@) == sv("plugins/chs.deck.sdPlugin/assets/media-next@2x.png"@)
            &&& action == "stop"@ ==> at(a, "name"@) == sv("\u{23f9} Stop"@) && at(a, "icon"@) == sv("plugins/chs.deck.sdPlugin/assets/media-stop@2x.png"@)
            &&& (action != "prev"@ && action != "next"@ && action != "stop"@) ==> at(a, "name"@) == sv("\u{25b6}/\u{23f8}"@)
                && at(a, "icon"@) == sv("plugins/chs.deck.sdPlugin/assets/media-play@2x.png"@)
            &&& at(a, "tooltip"@) == at(a, "name"@)
            &&& at(a, "uuid"@) == sv("chs.deck.media"@)
            &&& at(at(k, "settings"@), "action"@) == sv(action)
        }),
{
    reveal_strlit("prev");
    reveal_strlit("next");
    reveal_strlit("stop");
    reveal_strlit("plugins/chs.deck.sdPlugin/assets/");
    reveal_strlit("@2x.png");
    reveal_strlit("media-prev");
    reveal_strlit("media-next");
    reveal_strlit("media-stop");
    reveal_strlit("media-play");
    reveal_strlit("plugins/chs.deck.sdPlugin/assets/media-prev@2x.png");
    reveal_strlit("plugins/chs.deck.sdPlugin/assets/media-next@2x.png");
    reveal_strlit("plugins/chs.deck.sdPlugin/assets/media-stop@2x.png");
    reveal_strlit("plugins/chs.deck.sdPlugin/assets/media-play@2x.png");
    assert("prev"@[0] != "next"@[0] && "prev"@ != "next"@);
    assert("prev"@[0] != "stop"@[0] && "prev"@ != "stop"@);
    assert("next"@[0] != "stop"@[0] && "next"@ != "stop"@);
    assert("plugins/chs.deck.sdPlugin/assets/"@ + "media-prev"@ + "@2x.png"@ =~= "plugins/chs.deck.sdPlugin/assets/media-prev@2x.png"@);
    assert("plugins/chs.deck.sdPlugin/assets/"@ + "media-next"@ + "@2x.png"@ =~= "plugins/chs.deck.sdPlugin/assets/media-next@2x.png"@);
    assert("plugins/chs.deck.sdPlugin/assets/"@ + "media-stop"@ + "@2x.png"@ =~= "plugins/chs.deck.sdPlugin/assets/media-stop@2x.png"@);
    assert("plugins/chs.deck.sdPlugin/assets/"@ + "media-play"@ + "@2x.png"@ =~= "plugins/chs.deck.sdPlugin/assets/media-play@2x.png"@);
    let look = spec_media_look(action);
    let icon = "plugins/chs.deck.sdPlugin/assets/"@ + look.0 + "@2x.png"@;
    lemma_button_fields(
        false,
        icon,
        look.1,
        "chs.deck.sdPlugin"@,
        ""@,
        look.1,
        "chs.deck.media"@,
        index,
        spec_state(icon, look.1, "#f0abfc"@),
        JsonV::Obj(seq![("action"@, sv(action))]),
    );
}

/// Each action of a slot gives its own kind of button: statistics showing the
/// slot's `stat` (CPU where none), the container count, a media button for its
/// `media_action` (toggle where none), a shell button for its `command` and
/// `label`, a desktop-entry button for its `app`, and the profile arrows
/// switching to the previous and the next profile of the ring respectively.
pub proof fn lemma_build_slot_kinds(slot: SlotDef, prev: Seq<char>, next: Seq<char>)
    ensures
        ({
            let k = spec_build_slot(slot, prev, next);
            let i = slot.index as nat;
            let a = slot.action@;
            &&& a == "chs.deck.stats"@ ==> k == spec_stats_key(i, match slot.stat { Some(s) => s@, None => "cpu"@ })
            &&& a == "chs.deck.docker.count"@ ==> k == spec_docker_count_key(i)
            &&& a == "chs.deck.media"@ ==> k == spec_media_key(
                i,
                match slot.media_action { Some(s) => s@, None => "toggle"@ },
            )
            &&& a == "chs.deck.shell"@ ==> k == spec_shell_key(
                i,
                match slot.command { Some(s) => s@, None => ""@ },
                match slot.label { Some(l) => Some(l@), None => None },
            )
            &&& a == "desktop-entry"@ ==> k == spec_desktop_entry_key(i, match slot.app { Some(s) => s@, None => ""@ })
            &&& a == "switch-profile-prev"@ ==> k == spec_switch_profile_key(i, prev, "switch-prev@2x.png"@)
            &&& a == "switch-profile-next"@ ==> k == spec_switch_profile_key(i, next, "switch-next@2x.png"@)
        }),
{
    reveal_strlit("chs.deck.stats");
    reveal_strlit("chs.deck.docker.count");
    reveal_strlit("chs.deck.media");
    reveal_strlit("chs.deck.shell");
    reveal_strlit("chs.deck.video");
    reveal_strlit("chs.deck.webtile");
    reveal_strlit("desktop-entry");
    reveal_strlit("switch-profile-prev");
    reveal_strlit("switch-profile-next");
    assert("chs.deck.stats"@.len() == 14 && "chs.deck.docker.count"@.len() == 21);
    assert("chs.deck.stats"@ != "chs.deck.docker.count"@);
    assert("chs.deck.stats"@[9] != "chs.deck.media"@[9]);
    assert("chs.deck.stats"@ != "chs.deck.media"@);
    assert("chs.deck.docker.count"@.len() == 21 && "chs.deck.media"@.len() == 14);
    assert("chs.deck.docker.count"@ != "chs.deck.media"@);
    assert("chs.deck.stats"@[10] != "chs.deck.shell"@[10]);
    assert("chs.deck.stats"@ != "chs.deck.shell"@);
    assert("chs.deck.docker.count"@.len() == 21 && "chs.deck.shell"@.len() == 14);
    assert("chs.deck.docker.count"@ != "chs.deck.shell"@);
    assert("chs.deck.media"@[9] != "chs.deck.shell"@[9]);
    assert("chs.deck.media"@ != "chs.deck.shell"@);
    assert("chs.deck.stats"@[9] != "chs.deck.video"@[9]);
    assert("chs.deck.stats"@ != "chs.deck.video"@);
    assert("chs.deck.docker.count"@.len() == 21 && "chs.deck.video"@.len() == 14);
    assert("chs.deck.docker.count"@ != "chs.deck.video"@);
    assert("chs.deck.media"@[9] != "chs.deck.video"@[9]);
    assert("chs.deck.media"@ != "chs.deck.video"@);
    assert("chs.deck.shell"@[9] != "chs.deck.video"@[9]);
    assert("chs.deck.shell"@ != "chs.deck.video"@);
    assert("chs.deck.stats"@.len() == 14 && "chs.deck.webtile"@.len() == 16);
    assert("chs.deck.stats"@ != "chs.deck.webtile"@);
    assert("chs.deck.docker.count"@.len() == 21 && "chs.deck.webtile"@.len() == 16);
    assert("chs.deck.docker.count"@ != "chs.deck.webtile"@);
    assert("chs.deck.media"@.len() == 14 && "chs.deck.webtile"@.len() == 16);
    assert("chs.deck.media"@ != "chs.deck.webtile"@);
    assert("chs.deck.shell"@.len() == 14 && "chs.deck.webtile"@.len() == 16);
    assert("chs.deck.shell"@ != "chs.deck.webtile"@);
    assert("chs.deck.video"@.len() == 14 && "chs.deck.webtile"@.len() == 16);
    assert("chs.deck.video"@ != "chs.deck.webtile"@);
    assert("chs.deck.stats"@.len() == 14 && "desktop-entry"@.len() == 13);
    assert("chs.deck.stats"@ != "desktop-entry"@);
    assert("chs.deck.docker.count"@.len() == 21 && "desktop-entry"@.len() == 13);
    assert("chs.deck.docker.count"@ != "desktop-entry"@);
    assert("chs.deck.media"@.len() == 14 && "desktop-entry"@.len() == 13);
    assert("chs.deck.media"@ != "desktop-entry"@);
    assert("chs.deck.shell"@.len() == 14 && "desktop-entry"@.len() == 13);
    assert("chs.deck.shell"@ != "desktop-entry"@);
    assert("chs.deck.video"@.len() == 14 && "desktop-entry"@.len() == 13);
    assert("chs.deck.video"@ != "desktop-entry"@);
    assert("chs.deck.webtile"@.len() == 16 && "desktop-entry"@.len() == 13);
    assert("chs.deck.webtile"@ != "desktop-entry"@);
    assert("chs.deck.stats"@.len() == 14 && "switch-profile-prev"@.len() == 19);
    assert("chs.deck.stats"@ != "switch-profile-prev"@);
    assert("chs.deck.docker.count"@.len() == 21 && "switch-profile-prev"@.len() == 19);
    assert("chs.deck.docker.count"@ != "switch-profile-prev"@);
    assert("chs.deck.media"@.len() == 14 && "switch-profile-prev"@.len() == 19);
    assert("chs.deck.media"@ != "switch-profile-prev"@);
    assert("chs.deck.shell"@.len() == 14 && "switch-profile-prev"@.len() == 19);
    assert("chs.deck.shell"@ != "switch-profile-prev"@);
    assert("chs.deck.video"@.len() == 14 && "switch-profile-prev"@.len() == 19);
    assert("chs.deck.video"@ != "switch-profile-prev"@);
    assert("chs.deck.webtile"@.len() == 16 && "switch-profile-prev"@.len() == 19);
    assert("chs.deck.webtile"@ != "switch-profile-prev"@);
    assert("desktop-entry"@.len() == 13 && "switch-profile-prev"@.len() == 19);
    assert("desktop-entry"@ != "switch-profile-prev"@);
    assert("chs.deck.stats"@.len() == 14 && "switch-profile-next"@.len() == 19);
    assert("chs.deck.stats"@ != "switch-profile-next"@);
    assert("chs.deck.docker.count"@.len() == 21 && "switch-profile-next"@.len() == 19);
    assert("chs.deck.docker.count"@ != "switch-profile-next"@);
    assert("chs.deck.media"@.len() == 14 && "switch-profile-next"@.len() == 19);
    assert("chs.deck.media"@ != "switch-profile-next"@);
    assert("chs.deck.shell"@.len() == 14 && "switch-profile-next"@.len() == 19);
    assert("chs.deck.shell"@ != "switch-profile-next"@);
    assert("chs.deck.video"@.len() == 14 && "switch-profile-next"@.len() == 19);
    assert("chs.deck.video"@ != "switch-profile-next"@);
    assert("chs.deck.webtile"@.len() == 16 && "switch-profile-next"@.len() == 19);
    assert("chs.deck.webtile"@ != "switch-profile-next"@);
    assert("desktop-entry"@.len() == 13 && "switch-profile-next"@.len() == 19);
    assert("desktop-entry"@ != "switch-profile-next"@);
    assert("switch-profile-prev"@[15] != "switch-profile-next"@[15]);
    assert("switch-profile-prev"@ != "switch-profile-next"@);
}

/// A statistics button for `stat`: named `Stats: <stat>`, with the icon
/// `stats-<stat>@2x.png`, the statistics action, and `stat` in its settings.
pub proof fn lemma_stats_key_fields(index: nat, stat: Seq<char>)
    ensures
        ({
            let k = spec_stats_key(index, stat);
            &&& at(at(k, "action"@), "name"@) == sv("Stats: "@ + stat)
            &&& at(at(k, "action"@), "icon"@) == sv("plugins/chs.deck.sdPlugin/assets/stats-"@ + stat + "@2x.png"@)
            &&& at(at(k, "action"@), "uuid"@) == sv("chs.deck.stats"@)
            &&& at(at(k, "settings"@), "stat"@) == sv(stat)
            &&& at(k, "context"@) == sv(spec_context(index))
        }),
{
    let icon = "plugins/chs.deck.sdPlugin/assets/stats-"@ + stat + "@2x.png"@;
    lemma_button_fields(
        false,
        icon,
        "Stats: "@ + stat,
        "chs.deck.sdPlugin"@,
        ""@,
        "Stats: "@ + stat,
        "chs.deck.stats"@,
        index,
        spec_state(icon, ""@, "#7dd3fc"@),
        JsonV::Obj(seq![("stat"@, sv(stat))]),
    );
}

/// The container-count button: its name, icon and action.
pub proof fn lemma_docker_count_key_fields(index: nat)
    ensures
        ({
            let k = spec_docker_count_key(index);
            &&& at(at(k, "action"@), "name"@) == sv("Docker: Container Count"@)
            &&& at(at(k, "action"@), "icon"@) == sv("plugins/chs.deck.sdPlugin/assets/docker-count@2x.png"@)
            &&& at(at(k, "action"@), "uuid"@) == sv("chs.deck.docker.count"@)
            &&& at(k, "context"@) == sv(spec_context(index))
        }),
{
    let icon = "plugins/chs.deck.sdPlugin/assets/docker-count@2x.png"@;
    lemma_button_fields(
        false,
        icon,
        "Docker: Container Count"@,
        "chs.deck.sdPlugin"@,
        ""@,
        "Docker: Container Count"@,
        "chs.deck.docker.count"@,
        index,
        spec_state(icon, "--"@, "#7dd3fc"@),
        JsonV::Obj(seq![]),
    );
}

/// A shell button runs its `command` (in its settings) and is named by its
/// label, or else by the command, cut to its first 12 bytes where it is longer.
pub proof fn lemma_shell_key_fields(index: nat, command: Seq<char>, label: Option<Seq<char>>)
    ensures
        ({
            let k = spec_shell_key(index, command, label);
            let name = at(at(k, "action"@), "name"@);
            &&& at(at(k, "settings"@), "cmd"@) == sv(command)
            &&& at(at(k, "action"@), "uuid"@) == sv("chs.deck.shell"@)
            &&& at(at(k, "action"@), "tooltip"@) == name
            &&& label matches Some(l) ==> name == sv(l)
            &&& (label is None && utf8_len(command) <= 12) ==> name == sv(command)
            &&& (label is None && utf8_len(command) > 12) ==> name == sv(byte_prefix(command, 12))
        }),
{
    let icon = "plugins/chs.deck.sdPlugin/assets/shell@2x.png"@;
    let display = spec_shell_text(command, label);
    lemma_button_fields(
        false,
        icon,
        display,
        "chs.deck.sdPlugin"@,
        ""@,
        display,
        "chs.deck.shell"@,
        index,
        spec_state(icon, display, "#22c55e"@),
        JsonV::Obj(seq![("cmd"@, sv(command))]),
    );
}

/// A desktop-entry button launches its `app` (in its settings) through the
/// desktop-entry plugin's launch action.
pub proof fn lemma_desktop_entry_key_fields(index: nat, app: Seq<char>)
    ensures
        ({
            let k = spec_desktop_entry_key(index, app);
            &&& at(at(k, "settings"@), "app"@) == sv(app)
            &&& at(at(k, "action"@), "uuid"@) == sv("me.amankhanna.oadesktopentry.launchapp"@)
            &&& at(at(k, "action"@), "plugin"@) == sv("me.amankhanna.oadesktopentry.sdPlugin"@)
            &&& at(at(k, "action"@), "name"@) == sv("Launch App"@)
            &&& at(k, "context"@) == sv(spec_context(index))
        }),
{
    let icon = "plugins/me.amankhanna.oadesktopentry.sdPlugin/icon.png"@;
    lemma_button_fields(
        true,
        icon,
        "Launch App"@,
        "me.amankhanna.oadesktopentry.sdPlugin"@,
        "plugins/me.amankhanna.oadesktopentry.sdPlugin/pi/launchapp.html"@,
        "Launch an application"@,
        "me.amankhanna.oadesktopentry.launchapp"@,
        index,
        spec_text_state("middle"@, "#FFFFFF"@, icon, 16, 3, ""@),
        JsonV::Obj(seq![("app"@, sv(app))]),
    );
}

/// An arrow button switches to the profile `target` on this deck (both in its
/// settings), shows `target` as its text and `→ target` as its tooltip, and uses
/// the icon file it is given.
pub proof fn lemma_switch_profile_key_fields(index: nat, target: Seq<char>, icon_file: Seq<char>)
    ensures
        ({
            let k = spec_switch_profile_key(index, target, icon_file);
            &&& at(at(k, "settings"@), "profile"@) == sv(target)
            &&& at(at(k, "settings"@), "device"@) == sv("99-4250D2781310"@)
            &&& at(at(k, "action"@), "tooltip"@) == sv("\u{2192} "@ + target)
            &&& at(at(k, "action"@), "icon"@) == sv("plugins/chs.deck.sdPlugin/assets/"@ + icon_file)
            &&& at(at(k, "action"@), "uuid"@) == sv("com.amansprojects.starterpack.switchprofile"@)
            &&& at(k, "states"@) == JsonV::Arr(seq![spec_text_state("bottom"@, "#94a3b8"@, "plugins/chs.deck.sdPlugin/assets/"@ + icon_file, 14, 2, target)])
            &&& at(spec_text_state("bottom"@, "#94a3b8"@, "plugins/chs.deck.sdPlugin/assets/"@ + icon_file, 14, 2, target), "text"@) == sv(target)
        }),
{
    reveal_strlit("device");
    reveal_strlit("profile");
    assert("device"@.len() == 6 && "profile"@.len() == 7);
    assert("device"@ != "profile"@);
    reveal_with_fuel(first_member, 3);
    let icon = "plugins/chs.deck.sdPlugin/assets/"@ + icon_file;
    lemma_state_fields("bottom"@, "#94a3b8"@, icon, 14, 2, target);
    lemma_button_fields(
        true,
        icon,
        "Switch Profile"@,
        "com.amansprojects.starterpack.sdPlugin"@,
        "plugins/com.amansprojects.starterpack.sdPlugin/propertyInspector/switchProfile.html"@,
        "\u{2192} "@ + target,
        "com.amansprojects.starterpack.switchprofile"@,
        index,
        spec_text_state("bottom"@, "#94a3b8"@, icon, 14, 2, target),
        JsonV::Obj(seq![("device"@, sv("99-4250D2781310"@)), ("profile"@, sv(target))]),
    );
}

/// A button's context names its slot as OpenDeck does: `Keypad.<slot>.0`.
pub proof fn lemma_context_form(index: nat)
    ensures
        spec_context(index) == "Keypad."@ + decimal(index) + ".0"@,
        spec_context(index).take(7) == "Keypad."@,
{
    reveal_strlit("Keypad.");
    assert(("Keypad."@ + decimal(index) + ".0"@).take(7) =~= "Keypad."@);
}

} // verus!
