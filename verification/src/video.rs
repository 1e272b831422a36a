//! Video tiles: which paths are streams, the profile an instance belongs to,
//! and how a press hands its video to every video button.

use vstd::prelude::*;
use crate::text::{dot_parts, has_prefix, split_dots_chars, starts_with, str_is, string_of, to_chars};

verus! {

/// The settings of a video button as the library keeps them. The frame rate is
/// carried as the bit pattern of its `f32` value, which is how presses compare it.
pub struct VideoConf {
    pub path: String,
    pub start: usize,
    pub cols: usize,
    pub rows: usize,
    pub fps_bits: u32,
    pub gap_x: u32,
    pub gap_y: u32,
    pub slot_index: usize,
}

/// Whether a video path is a stream address rather than a local file.
pub open spec fn spec_is_stream(path: Seq<char>) -> bool {
    has_prefix(path, "http://"@) || has_prefix(path, "https://"@)
}

pub fn is_stream_url(path: &str) -> (r: bool)
    ensures
        r == spec_is_stream(path@),
{
    starts_with(path, "http://") || starts_with(path, "https://")
}

/// The profile an instance belongs to: the second dot-separated part of its id.
pub open spec fn spec_parse_profile(instance_id: Seq<char>) -> Option<Seq<char>> {
    let parts = dot_parts(instance_id);
    if parts.len() >= 2 {
        Some(parts[1])
    } else {
        None
    }
}

pub fn parse_profile(instance_id: &str) -> (r: Option<String>)
    ensures
        match spec_parse_profile(instance_id@) {
            Some(p) => r is Some && r->0@ == p,
            None => r is None,
        },
{
    let chars = to_chars(instance_id);
    let parts = split_dots_chars(&chars);
    if parts.len() >= 2 {
        let p = &parts[1];
        assert(p@.subrange(0, p@.len() as int) =~= p@);
        Some(string_of(p, 0, p.len()))
    } else {
        None
    }
}

/// Whether a playback is still shown after a button went away: some remaining
/// button plays `path`, so its playback goes on; otherwise it is stopped.
pub fn still_shown(paths: &Vec<String>, path: &str) -> (r: bool)
    ensures
        r == exists|k: int| 0 <= k < paths.len() && #[trigger] paths@[k]@ == path@,
{
    let mut i: usize = 0;
    while i < paths.len()
        invariant
            i <= paths.len(),
            forall|k: int| 0 <= k < i ==> #[trigger] paths@[k]@ != path@,
        decreases paths.len() - i,
    {
        if str_is(paths[i].as_str(), path) {
            return true;
        }
        i += 1;
    }
    false
}

/// Whether the `f32` with bit pattern `bits` is a NaN: all exponent bits set and
/// a fraction that is not 0.
pub open spec fn f32_is_nan(bits: u32) -> bool {
    bits & 0x7fff_ffff > 0x7f80_0000
}

/// `==` on the `f32` values with bit patterns `a` and `b`: equal where neither
/// is a NaN and the bits are equal or both values are zeros (of either sign).
pub open spec fn f32_eq(a: u32, b: u32) -> bool {
    &&& !f32_is_nan(a)
    &&& !f32_is_nan(b)
    &&& (a == b || (a | b) & 0x7fff_ffff == 0)
}

/// `==` on two `f32` values given by their bit patterns.
pub fn f32_bits_eq(a: u32, b: u32) -> (r: bool)
    ensures
        r == f32_eq(a, b),
{
    a & 0x7fff_ffff <= 0x7f80_0000 && b & 0x7fff_ffff <= 0x7f80_0000 && (a == b || (a | b) & 0x7fff_ffff
        == 0)
}

/// Whether `entry` shows another video than the pressed button's: another path,
/// frame rate (compared as `f32`) or gap.
pub open spec fn spec_differs(entry: VideoConf, pressed: VideoConf) -> bool {
    entry.path@ != pressed.path@ || !f32_eq(entry.fps_bits, pressed.fps_bits) || entry.gap_x
        != pressed.gap_x || entry.gap_y != pressed.gap_y
}

/// What a press does to another button's settings `before`, leaving `after` and
/// returning `r`: where they differ, the button takes the pressed path, frame
/// rate and gaps and `r` is the path it had; otherwise nothing changes and `r`
/// is `None`. The grid and the slot stay as they were.
pub open spec fn spec_press(before: VideoConf, after: VideoConf, pressed: VideoConf, r: Option<String>) -> bool {
    &&& if spec_differs(before, pressed) {
        &&& r is Some
        &&& r->0@ == before.path@
        &&& after.path@ == pressed.path@
        &&& after.fps_bits == pressed.fps_bits
        &&& after.gap_x == pressed.gap_x
        &&& after.gap_y == pressed.gap_y
    } else {
        &&& r is None
        &&& after.path@ == before.path@
        &&& after.fps_bits == before.fps_bits
        &&& after.gap_x == before.gap_x
        &&& after.gap_y == before.gap_y
    }
    &&& after.start == before.start
    &&& after.cols == before.cols
    &&& after.rows == before.rows
    &&& after.slot_index == before.slot_index
}

/// A press on a video button hands its video to another button's settings
/// `entry`, returning the path that button had where it changed, so that its
/// playback can stop.
pub fn propagate_press(entry: &mut VideoConf, pressed: &VideoConf) -> (r: Option<String>)
    ensures
        spec_press(*old(entry), *final(entry), *pressed, r),
        final(entry).path@ == pressed.path@,
        final(entry).gap_x == pressed.gap_x,
        final(entry).gap_y == pressed.gap_y,
        final(entry).fps_bits == pressed.fps_bits || f32_eq(final(entry).fps_bits, pressed.fps_bits),
        (r is Some) == (old(entry).path@ != pressed.path@ || !f32_eq(old(entry).fps_bits, pressed.fps_bits)
            || old(entry).gap_x != pressed.gap_x || old(entry).gap_y != pressed.gap_y),
{
    if entry.path != pressed.path || !f32_bits_eq(entry.fps_bits, pressed.fps_bits) || entry.gap_x
        != pressed.gap_x || entry.gap_y != pressed.gap_y {
        let old_path = entry.path.clone();
        entry.path = pressed.path.clone();
        entry.fps_bits = pressed.fps_bits;
        entry.gap_x = pressed.gap_x;
        entry.gap_y = pressed.gap_y;
        Some(old_path)
    } else {
        None
    }
}

/// A press settles every button: afterwards the button shows the pressed video,
/// so pressing again changes nothing (where the frame rate is not a NaN, which
/// never equals itself).
pub proof fn lemma_press_settles(before: VideoConf, after: VideoConf, pressed: VideoConf, r: Option<String>)
    requires
        spec_press(before, after, pressed, r),
        !f32_is_nan(pressed.fps_bits),
    ensures
        !spec_differs(after, pressed),
{
    let b = pressed.fps_bits;
    assert(b == b || (b | b) & 0x7fff_ffff == 0);
}

/// A press hands over the whole video: afterwards the button plays the
/// pressed path with the pressed horizontal and vertical gaps and a frame rate
/// equal (as `f32`) to the pressed one, where that rate is a number; the press
/// reports the old path exactly when the path, the frame rate (as `f32`) or
/// either gap differed before, and keeps the button's grid and slot.
pub proof fn lemma_press_hands_over(before: VideoConf, after: VideoConf, pressed: VideoConf, r: Option<String>)
    requires
        spec_press(before, after, pressed, r),
    ensures
        after.path@ == pressed.path@,
        after.gap_x == pressed.gap_x,
        after.gap_y == pressed.gap_y,
        !f32_is_nan(pressed.fps_bits) ==> f32_eq(after.fps_bits, pressed.fps_bits),
        (r is Some) == (before.path@ != pressed.path@ || !f32_eq(before.fps_bits, pressed.fps_bits)
            || before.gap_x != pressed.gap_x || before.gap_y != pressed.gap_y),
        r is Some ==> r->0@ == before.path@,
        after.start == before.start && after.cols == before.cols && after.rows == before.rows
            && after.slot_index == before.slot_index,
{
    let b = pressed.fps_bits;
    assert(b == b || (b | b) & 0x7fff_ffff == 0);
}

/// A video path is played as a stream exactly when it begins with `http://` or
/// `https://`; any other path is a local file.
pub proof fn lemma_stream_paths(path: Seq<char>)
    ensures
        spec_is_stream(path) <==> ((path.len() >= 7 && path.take(7) == "http://"@) || (path.len() >= 8 && path.take(8)
            == "https://"@)),
{
    reveal_strlit("http://");
    reveal_strlit("https://");
}

} // verus!
