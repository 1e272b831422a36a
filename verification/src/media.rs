//! Media buttons: the `playerctl` command a press sends, and the title that
//! shows the player's status, track and artist.

use vstd::prelude::*;
use crate::text::{lemma_trim_idempotent, str_is, string_of, to_chars, trim, trim_chars};

verus! {

/// The `playerctl` command for a button's `action` setting: `"next"`, `"prev"`
/// (previous track) and `"stop"`; any other value toggles play and pause.
pub open spec fn spec_media_command(action: Seq<char>) -> Seq<char> {
    if action == "next"@ {
        "next"@
    } else if action == "prev"@ {
        "previous"@
    } else if action == "stop"@ {
        "stop"@
    } else {
        "play-pause"@
    }
}

pub fn media_command(action: &str) -> (r: &'static str)
    ensures
        r@ == spec_media_command(action@),
{
    if str_is(action, "next") {
        "next"
    } else if str_is(action, "prev") {
        "previous"
    } else if str_is(action, "stop") {
        "stop"
    } else {
        "play-pause"
    }
}

/// The icon for the player's status: playing, paused, or anything else.
pub open spec fn spec_status_icon(status: Seq<char>) -> Seq<char> {
    let s = trim(status);
    if s == "Playing"@ {
        "\u{25b6}"@
    } else if s == "Paused"@ {
        "\u{23f8}"@
    } else {
        "\u{23f9}"@
    }
}

/// At most `n` characters of the trimmed `s`; where more are there, the first
/// `n` followed by an ellipsis.
pub open spec fn spec_truncate(s: Seq<char>, n: nat) -> Seq<char> {
    let t = trim(s);
    if t.len() > n {
        t.take(n as int) + "\u{2026}"@
    } else {
        t
    }
}

/// A shortened name shows at most `n` characters and an ellipsis: a trimmed
/// name of at most `n` characters whole, a longer one as its first `n`
/// characters followed by the ellipsis.
pub proof fn lemma_truncate_bound(s: Seq<char>, n: nat)
    ensures
        spec_truncate(s, n).len() <= n + 1,
        trim(s).len() <= n ==> spec_truncate(s, n) == trim(s),
        trim(s).len() > n ==> spec_truncate(s, n).take(n as int) == trim(s).take(n as int)
            && spec_truncate(s, n).last() == '\u{2026}',
{
    reveal_strlit("\u{2026}");
    let t = trim(s);
    if t.len() > n {
        let r = t.take(n as int) + "\u{2026}"@;
        assert(r.take(n as int) =~= t.take(n as int));
    }
}

/// The longest track or artist name that a media title shows unshortened.
pub const MAX_NAME_CHARS: usize = 10;

/// The title of a media button: the status icon on the first line, then the
/// shortened track title and artist on lines of their own, or a dash where both
/// are empty.
pub open spec fn spec_media_title(status: Seq<char>, title: Seq<char>, artist: Seq<char>) -> Seq<char> {
    let icon = spec_status_icon(status);
    let t = spec_truncate(title, MAX_NAME_CHARS as nat);
    let a = spec_truncate(artist, MAX_NAME_CHARS as nat);
    if t.len() == 0 && a.len() == 0 {
        icon + "\n\u{2014}"@
    } else if a.len() == 0 {
        icon + "\n"@ + t
    } else {
        icon + "\n"@ + t + "\n"@ + a
    }
}

pub fn status_icon(status: &str) -> (r: &'static str)
    ensures
        r@ == spec_status_icon(status@),
{
    let chars = to_chars(status);
    let t = trim_chars(&chars);
    let s = string_of(&t, 0, t.len());
    assert(t@.subrange(0, t@.len() as int) =~= t@);
    if str_is(s.as_str(), "Playing") {
        "\u{25b6}"
    } else if str_is(s.as_str(), "Paused") {
        "\u{23f8}"
    } else {
        "\u{23f9}"
    }
}

/// `s` trimmed and cut to at most `n` characters, with an ellipsis where it was cut.
pub fn truncate(s: &str, n: usize) -> (r: String)
    ensures
        r@ == spec_truncate(s@, n as nat),
{
    let chars = to_chars(s);
    let t = trim_chars(&chars);
    if t.len() > n {
        let mut r = string_of(&t, 0, n);
        r.append("\u{2026}");
        assert(t@.subrange(0, n as int) == t@.take(n as int));
        r
    } else {
        let r = string_of(&t, 0, t.len());
        assert(t@.subrange(0, t@.len() as int) =~= t@);
        r
    }
}

/// The title of a media button for the player's `status`, track `title` and `artist`.
pub fn media_title(status: &str, title: &str, artist: &str) -> (r: String)
    ensures
        r@ == spec_media_title(status@, title@, artist@),
{
    let icon = status_icon(status);
    let t = truncate(title, MAX_NAME_CHARS);
    let a = truncate(artist, MAX_NAME_CHARS);
    let mut r = String::new();
    r.append(icon);
    if t.as_str().is_empty() && a.as_str().is_empty() {
        r.append("\n\u{2014}");
    } else if a.as_str().is_empty() {
        r.append("\n");
        r.append(t.as_str());
    } else {
        r.append("\n");
        r.append(t.as_str());
        r.append("\n");
        r.append(a.as_str());
    }
    r
}

/// Player output as the library keeps it: without surrounding whitespace.
pub fn trim_output(s: &str) -> (r: String)
    ensures
        r@ == trim(s@),
{
    let chars = to_chars(s);
    let t = trim_chars(&chars);
    assert(t@.subrange(0, t@.len() as int) =~= t@);
    string_of(&t, 0, t.len())
}

/// Whitespace around the player's output does not change the media title: the
/// title of trimmed output is the title of the output as it came.
pub proof fn lemma_media_title_ignores_padding(status: Seq<char>, title: Seq<char>, artist: Seq<char>)
    ensures
        spec_media_title(trim(status), trim(title), trim(artist)) == spec_media_title(status, title, artist),
{
    lemma_trim_idempotent(status);
    lemma_trim_idempotent(title);
    lemma_trim_idempotent(artist);
}

/// The `playerctl` command of each media action: `next` and `stop` as they are,
/// `prev` as `previous`, and play/pause for any other action.
pub proof fn lemma_media_commands(action: Seq<char>)
    ensures
        action == "next"@ ==> spec_media_command(action) == "next"@,
        action == "prev"@ ==> spec_media_command(action) == "previous"@,
        action == "stop"@ ==> spec_media_command(action) == "stop"@,
        (action != "next"@ && action != "prev"@ && action != "stop"@) ==> spec_media_command(action) == "play-pause"@,
{
    reveal_strlit("next");
    reveal_strlit("prev");
    reveal_strlit("stop");
    reveal_strlit("previous");
    reveal_strlit("play-pause");
    reveal_strlit("Playing");
    reveal_strlit("Paused");
    assert("next"@[0] != "prev"@[0]);
    assert("next"@ != "prev"@);
    assert("next"@[0] != "stop"@[0]);
    assert("next"@ != "stop"@);
    assert("prev"@[0] != "stop"@[0]);
    assert("prev"@ != "stop"@);
    assert("Playing"@.len() == 7 && "Paused"@.len() == 6);
    assert("Playing"@ != "Paused"@);
}

/// The status icon: ▶ while playing, ⏸ while paused, ⏹ otherwise, whatever
/// whitespace surrounds the status.
pub proof fn lemma_status_icons(status: Seq<char>)
    ensures
        trim(status) == "Playing"@ ==> spec_status_icon(status) == "\u{25b6}"@,
        trim(status) == "Paused"@ ==> spec_status_icon(status) == "\u{23f8}"@,
        (trim(status) != "Playing"@ && trim(status) != "Paused"@) ==> spec_status_icon(status) == "\u{23f9}"@,
{
    reveal_strlit("next");
    reveal_strlit("prev");
    reveal_strlit("stop");
    reveal_strlit("previous");
    reveal_strlit("play-pause");
    reveal_strlit("Playing");
    reveal_strlit("Paused");
    assert("next"@[0] != "prev"@[0]);
    assert("next"@ != "prev"@);
    assert("next"@[0] != "stop"@[0]);
    assert("next"@ != "stop"@);
    assert("prev"@[0] != "stop"@[0]);
    assert("prev"@ != "stop"@);
    assert("Playing"@.len() == 7 && "Paused"@.len() == 6);
    assert("Playing"@ != "Paused"@);
}

/// The media title's lines: the status icon first, then the shortened track
/// title, then the shortened artist (a lone dash where both are empty, and no
/// artist line where the artist is empty).
pub proof fn lemma_media_title_lines(status: Seq<char>, title: Seq<char>, artist: Seq<char>)
    ensures
        ({
            let icon = spec_status_icon(status);
            let t = spec_truncate(title, 10);
            let a = spec_truncate(artist, 10);
            &&& (t.len() == 0 && a.len() == 0) ==> spec_media_title(status, title, artist) == icon + "\n\u{2014}"@
            &&& (t.len() > 0 && a.len() == 0) ==> spec_media_title(status, title, artist) == icon + "\n"@ + t
            &&& a.len() > 0 ==> spec_media_title(status, title, artist) == icon + "\n"@ + t + "\n"@ + a
        }),
{
}

} // verus!
