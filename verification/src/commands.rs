//! The external programs that the plugin runs, and their arguments: the shell
//! for shell buttons, `yt-dlp` and `ffmpeg` for video tiles, and the screenshot
//! script for web tiles.

use vstd::prelude::*;
use crate::ring::names;
use crate::text::{decimal, decimal_string, push_decimal};
use crate::tiling::TileGrid;

verus! {

fn push_arg(v: &mut Vec<String>, s: &str)
    ensures
        names(final(v)@) == names(old(v)@).push(s@),
{
    v.push(s.to_owned());
    assert(names(final(v)@) =~= names(old(v)@).push(s@));
}

fn push_string(v: &mut Vec<String>, s: String)
    ensures
        names(final(v)@) == names(old(v)@).push(s@),
{
    let ghost sv = s@;
    v.push(s);
    assert(names(final(v)@) =~= names(old(v)@).push(sv));
}

/// What a press on a shell button does: nothing but an alert where no command
/// is set; otherwise `sh` runs with these arguments.
pub open spec fn spec_shell_args(cmd: Seq<char>) -> Option<Seq<Seq<char>>> {
    if cmd.len() == 0 {
        None
    } else {
        Some(seq!["-c"@, cmd])
    }
}

/// The arguments for `sh` that run the command of a shell button, or `None`
/// (an alert) where the command is empty.
pub fn shell_args(cmd: &str) -> (r: Option<Vec<String>>)
    ensures
        match spec_shell_args(cmd@) {
            Some(a) => r is Some && names(r->0@) == a,
            None => r is None,
        },
{
    if cmd.is_empty() {
        return None;
    }
    let mut v: Vec<String> = Vec::new();
    assert(names(v@) =~= Seq::empty());
    push_arg(&mut v, "-c");
    push_arg(&mut v, cmd);
    assert(names(v@) =~= seq!["-c"@, cmd@]);
    Some(v)
}

/// The `yt-dlp` arguments that resolve a stream address to a direct video URL.
pub open spec fn spec_resolve_args(url: Seq<char>) -> Seq<Seq<char>> {
    seq![
        "-f"@,
        "worst[height>=240][vcodec^=avc1][ext=mp4]/worst[height>=240][ext=mp4]/worst"@,
        "-g"@,
        "--no-playlist"@,
        url,
    ]
}

pub fn resolve_args(url: &str) -> (r: Vec<String>)
    ensures
        names(r@) == spec_resolve_args(url@),
{
    let mut v: Vec<String> = Vec::new();
    assert(names(v@) =~= Seq::empty());
    push_arg(&mut v, "-f");
    push_arg(&mut v, "worst[height>=240][vcodec^=avc1][ext=mp4]/worst[height>=240][ext=mp4]/worst");
    push_arg(&mut v, "-g");
    push_arg(&mut v, "--no-playlist");
    push_arg(&mut v, url);
    assert(names(v@) =~= spec_resolve_args(url@));
    v
}

/// The canvas size as `ffmpeg` takes it: `WxH`.
pub open spec fn spec_size_text(g: TileGrid) -> Seq<char> {
    decimal(g.width as nat) + "x"@ + decimal(g.height as nat)
}

fn size_text(g: &TileGrid) -> (r: String)
    ensures
        r@ == spec_size_text(*g),
{
    let mut r = String::new();
    push_decimal(&mut r, g.width as u64);
    r.append("x");
    push_decimal(&mut r, g.height as u64);
    assert(r@ =~= spec_size_text(*g));
    r
}

/// The `ffmpeg` arguments that decode a live stream on the GPU, scaled to the
/// canvas at `fps` frames a second (`fps` as `ffmpeg` reads it), into raw RGB on
/// standard output, with the sound sent to the `deck-video` sink.
pub open spec fn spec_stream_ffmpeg_args(g: TileGrid, stream_url: Seq<char>, fps: Seq<char>) -> Seq<Seq<char>> {
    seq![
        "-threads"@, "1"@,
        "-hwaccel"@, "cuda"@, "-hwaccel_output_format"@, "cuda"@,
        "-c:v"@, "h264_cuvid"@,
        "-resize"@, spec_size_text(g),
        "-i"@, stream_url,
        "-vf"@, "fps="@ + fps + ",hwdownload,format=nv12"@,
        "-map"@, "0:v"@, "-f"@, "rawvideo"@, "-pix_fmt"@, "rgb24"@, "pipe:1"@,
        "-map"@, "0:a?"@, "-f"@, "pulse"@, "deck-video"@,
    ]
}

pub fn stream_ffmpeg_args(g: &TileGrid, stream_url: &str, fps: &str) -> (r: Vec<String>)
    ensures
        names(r@) == spec_stream_ffmpeg_args(*g, stream_url@, fps@),
{
    let mut v: Vec<String> = Vec::new();
    assert(names(v@) =~= Seq::empty());
    push_arg(&mut v, "-threads");
    push_arg(&mut v, "1");
    push_arg(&mut v, "-hwaccel");
    push_arg(&mut v, "cuda");
    push_arg(&mut v, "-hwaccel_output_format");
    push_arg(&mut v, "cuda");
    push_arg(&mut v, "-c:v");
    push_arg(&mut v, "h264_cuvid");
    push_arg(&mut v, "-resize");
    push_string(&mut v, size_text(g));
    push_arg(&mut v, "-i");
    push_arg(&mut v, stream_url);
    push_arg(&mut v, "-vf");
    let mut filter = "fps=".to_owned();
    filter.append(fps);
    filter.append(",hwdownload,format=nv12");
    push_string(&mut v, filter);
    push_arg(&mut v, "-map");
    push_arg(&mut v, "0:v");
    push_arg(&mut v, "-f");
    push_arg(&mut v, "rawvideo");
    push_arg(&mut v, "-pix_fmt");
    push_arg(&mut v, "rgb24");
    push_arg(&mut v, "pipe:1");
    push_arg(&mut v, "-map");
    push_arg(&mut v, "0:a?");
    push_arg(&mut v, "-f");
    push_arg(&mut v, "pulse");
    push_arg(&mut v, "deck-video");
    assert(names(v@) =~= spec_stream_ffmpeg_args(*g, stream_url@, fps@));
    v
}

/// The `ffmpeg` arguments that decode a local file at `fps` frames a second,
/// scaled to the canvas, into raw RGB on standard output.
pub open spec fn spec_file_ffmpeg_args(g: TileGrid, path: Seq<char>, fps: Seq<char>) -> Seq<Seq<char>> {
    seq![
        "-threads"@, "2"@, "-hwaccel"@, "auto"@,
        "-i"@, path,
        "-vf"@, "fps="@ + fps + ",scale="@ + spec_size_text(g) + ":flags=fast_bilinear"@,
        "-f"@, "rawvideo"@, "-pix_fmt"@, "rgb24"@, "pipe:1"@,
    ]
}

pub fn file_ffmpeg_args(g: &TileGrid, path: &str, fps: &str) -> (r: Vec<String>)
    ensures
        names(r@) == spec_file_ffmpeg_args(*g, path@, fps@),
{
    let mut v: Vec<String> = Vec::new();
    assert(names(v@) =~= Seq::empty());
    push_arg(&mut v, "-threads");
    push_arg(&mut v, "2");
    push_arg(&mut v, "-hwaccel");
    push_arg(&mut v, "auto");
    push_arg(&mut v, "-i");
    push_arg(&mut v, path);
    push_arg(&mut v, "-vf");
    let mut filter = "fps=".to_owned();
    filter.append(fps);
    filter.append(",scale=");
    let size = size_text(g);
    filter.append(size.as_str());
    filter.append(":flags=fast_bilinear");
    push_string(&mut v, filter);
    push_arg(&mut v, "-f");
    push_arg(&mut v, "rawvideo");
    push_arg(&mut v, "-pix_fmt");
    push_arg(&mut v, "rgb24");
    push_arg(&mut v, "pipe:1");
    assert(names(v@) =~= spec_file_ffmpeg_args(*g, path@, fps@));
    v
}

/// The file a web tile's screenshot is written to, named by the hash of its address.
pub open spec fn spec_screenshot_path(url_hash: u64) -> Seq<char> {
    "/tmp/chs-deck-webtile-"@ + decimal(url_hash as nat) + ".png"@
}

pub fn screenshot_path(url_hash: u64) -> (r: String)
    ensures
        r@ == spec_screenshot_path(url_hash),
{
    let mut r = "/tmp/chs-deck-webtile-".to_owned();
    push_decimal(&mut r, url_hash);
    r.append(".png");
    r
}

/// The arguments for `node` that run the screenshot script on `url` at the
/// canvas size, writing to `out`.
pub open spec fn spec_screenshot_args(script: Seq<char>, url: Seq<char>, g: TileGrid, out: Seq<char>) -> Seq<Seq<char>> {
    seq![script, url, decimal(g.width as nat), decimal(g.height as nat), out]
}

pub fn screenshot_args(script: &str, url: &str, g: &TileGrid, out: &str) -> (r: Vec<String>)
    ensures
        names(r@) == spec_screenshot_args(script@, url@, *g, out@),
{
    let mut v: Vec<String> = Vec::new();
    assert(names(v@) =~= Seq::empty());
    push_arg(&mut v, script);
    push_arg(&mut v, url);
    push_string(&mut v, decimal_string(g.width as u64));
    push_string(&mut v, decimal_string(g.height as u64));
    push_arg(&mut v, out);
    assert(names(v@) =~= spec_screenshot_args(script@, url@, *g, out@));
    v
}

/// `yt-dlp` is asked for the direct media URL of the stream (`-g`), in the
/// lowest format of at least 240 lines (preferring H.264 MP4), of this one video
/// rather than a playlist: exactly these five arguments, the address last.
pub proof fn lemma_resolve_prints_url(url: Seq<char>)
    ensures
        spec_resolve_args(url).len() == 5,
        spec_resolve_args(url)[0] == "-f"@,
        spec_resolve_args(url)[1] == "worst[height>=240][vcodec^=avc1][ext=mp4]/worst[height>=240][ext=mp4]/worst"@,
        spec_resolve_args(url)[2] == "-g"@,
        spec_resolve_args(url)[3] == "--no-playlist"@,
        spec_resolve_args(url)[4] == url,
{
}

/// `ffmpeg` reads the source after `-i` and writes raw 24-bit RGB frames of the
/// canvas size (width first, then height, as `WxH`) to standard output, at the
/// given frame rate: for a stream decoded on the GPU and resized there, with its
/// sound sent to the `deck-video` sink; for a file scaled in the filter chain.
pub proof fn lemma_ffmpeg_canvas_frames(g: TileGrid, source: Seq<char>, fps: Seq<char>)
    ensures
        ({
            let s = spec_stream_ffmpeg_args(g, source, fps);
            let size = decimal(g.width as nat) + "x"@ + decimal(g.height as nat);
            &&& s.len() == 26
            &&& s[6] == "-c:v"@ && s[7] == "h264_cuvid"@
            &&& s[8] == "-resize"@ && s[9] == size
            &&& s[10] == "-i"@ && s[11] == source
            &&& s[12] == "-vf"@ && s[13] == "fps="@ + fps + ",hwdownload,format=nv12"@
            &&& s[14] == "-map"@ && s[15] == "0:v"@
            &&& s[16] == "-f"@ && s[17] == "rawvideo"@ && s[18] == "-pix_fmt"@ && s[19] == "rgb24"@ && s[20] == "pipe:1"@
            &&& s[21] == "-map"@ && s[22] == "0:a?"@ && s[23] == "-f"@ && s[24] == "pulse"@ && s[25] == "deck-video"@
        }),
        ({
            let f = spec_file_ffmpeg_args(g, source, fps);
            let size = decimal(g.width as nat) + "x"@ + decimal(g.height as nat);
            &&& f.len() == 13
            &&& f[4] == "-i"@ && f[5] == source
            &&& f[6] == "-vf"@ && f[7] == "fps="@ + fps + ",scale="@ + size + ":flags=fast_bilinear"@
            &&& f[8] == "-f"@ && f[9] == "rawvideo"@ && f[10] == "-pix_fmt"@ && f[11] == "rgb24"@ && f[12] == "pipe:1"@
        }),
{
}

/// The screenshot script gets the script path, the page address, the canvas
/// width and height in decimal (width first) and the output file, in this order.
pub proof fn lemma_screenshot_canvas(script: Seq<char>, url: Seq<char>, g: TileGrid, out: Seq<char>)
    ensures
        spec_screenshot_args(script, url, g, out).len() == 5,
        spec_screenshot_args(script, url, g, out)[0] == script,
        spec_screenshot_args(script, url, g, out)[1] == url,
        spec_screenshot_args(script, url, g, out)[2] == decimal(g.width as nat),
        spec_screenshot_args(script, url, g, out)[3] == decimal(g.height as nat),
        spec_screenshot_args(script, url, g, out)[4] == out,
{
}

/// A shell button runs its command with `sh -c` exactly when it has one.
pub proof fn lemma_shell_runs_command(cmd: Seq<char>)
    ensures
        cmd.len() == 0 ==> spec_shell_args(cmd) is None,
        cmd.len() > 0 ==> spec_shell_args(cmd) == Some(seq!["-c"@, cmd]),
{
}

/// A web tile's screenshot goes to `/tmp`, in a PNG file named by the page's
/// hash: `/tmp/chs-deck-webtile-<hash>.png`, so that each page has its own file.
pub proof fn lemma_screenshot_file(h1: u64, h2: u64)
    ensures
        spec_screenshot_path(h1).take(22) == "/tmp/chs-deck-webtile-"@,
        spec_screenshot_path(h1).skip(spec_screenshot_path(h1).len() - 4) == ".png"@,
        spec_screenshot_path(h1).subrange(22, spec_screenshot_path(h1).len() - 4) == decimal(h1 as nat),
        h1 != h2 ==> spec_screenshot_path(h1) != spec_screenshot_path(h2),
{
    reveal_strlit("/tmp/chs-deck-webtile-");
    reveal_strlit(".png");
    let p1 = spec_screenshot_path(h1);
    assert(p1.take(22) =~= "/tmp/chs-deck-webtile-"@);
    assert(p1.skip(p1.len() - 4) =~= ".png"@);
    assert(p1.subrange(22, p1.len() - 4) =~= decimal(h1 as nat));
    let p2 = spec_screenshot_path(h2);
    assert(p2.subrange(22, p2.len() - 4) =~= decimal(h2 as nat));
    crate::text::lemma_parse_decimal(h1 as nat, u64::MAX as nat);
    crate::text::lemma_parse_decimal(h2 as nat, u64::MAX as nat);
}

} // verus!
