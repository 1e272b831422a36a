use chs_deck::commands::{file_ffmpeg_args, resolve_args, screenshot_args, screenshot_path, shell_args, stream_ffmpeg_args};
use chs_deck::tiling::TileGrid;

#[test]
fn shell_commands_run_in_sh() {
    assert_eq!(shell_args(""), None);
    assert_eq!(shell_args("echo hi"), Some(vec!["-c".to_string(), "echo hi".to_string()]));
}

#[test]
fn video_command_lines() {
    let g = TileGrid::new(5, 3, 8, 8, 0);
    assert_eq!(
        file_ffmpeg_args(&g, "/v.mp4", "10").join(" "),
        "-threads 2 -hwaccel auto -i /v.mp4 -vf fps=10,scale=392x232:flags=fast_bilinear -f rawvideo -pix_fmt rgb24 pipe:1"
    );
    assert_eq!(
        stream_ffmpeg_args(&g, "https://x", "10").join(" "),
        "-threads 1 -hwaccel cuda -hwaccel_output_format cuda -c:v h264_cuvid -resize 392x232 -i https://x -vf fps=10,hwdownload,format=nv12 -map 0:v -f rawvideo -pix_fmt rgb24 pipe:1 -map 0:a? -f pulse deck-video"
    );
    assert_eq!(resolve_args("https://y")[4], "https://y");
    assert_eq!(resolve_args("https://y").len(), 5);
}

#[test]
fn screenshot_command_line() {
    let g = TileGrid::new(2, 1, 0, 0, 0);
    assert_eq!(screenshot_path(42), "/tmp/chs-deck-webtile-42.png");
    assert_eq!(
        screenshot_args("screenshot.js", "https://a", &g, "/tmp/o.png"),
        vec!["screenshot.js", "https://a", "144", "72", "/tmp/o.png"]
    );
}
