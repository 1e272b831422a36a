use base64::Engine as _;
use chs_deck::raster::{crop, decode_screenshot, encode_tile, RgbFrame};
use chs_deck::tiling::{
    find_tile, frame_bytes, frame_bytes_fit, frame_tiles, gaps_fit, grid_fits, parse_slot, slot_tile_url,
    tile_for_slot, tile_lookup_fits, tile_origin, tile_url, tile_visible, TileGrid,
};

fn gradient(w: u32, h: u32) -> RgbFrame {
    let mut data = Vec::new();
    for y in 0..h {
        for x in 0..w {
            data.push((x % 256) as u8);
            data.push((y % 256) as u8);
            data.push(((x + y) % 256) as u8);
        }
    }
    RgbFrame::from_raw(w, h, data).unwrap()
}

#[test]
fn raw_frames_need_enough_bytes() {
    assert!(RgbFrame::from_raw(2, 2, vec![0; 11]).is_none());
    assert!(RgbFrame::from_raw(2, 2, vec![0; 12]).is_some());
    assert!(RgbFrame::from_raw(2, 2, vec![0; 20]).is_some());
    assert!(RgbFrame::from_raw(0, 5, vec![]).is_some());
}

#[test]
fn crop_copies_the_window() {
    let img = gradient(4, 3);
    let t = crop(&img, 1, 1, 2, 2);
    assert_eq!((t.width, t.height), (2, 2));
    assert_eq!(t.data, vec![1, 1, 2, 2, 1, 3, 1, 2, 3, 2, 2, 4]);
}

#[test]
fn crop_is_clamped_to_the_image() {
    let img = gradient(4, 3);
    let t = crop(&img, 3, 2, 72, 72);
    assert_eq!((t.width, t.height), (1, 1));
    assert_eq!(t.data, vec![3, 2, 5]);
    let t = crop(&img, 10, 10, 5, 5);
    assert_eq!((t.width, t.height), (0, 0));
    assert!(t.data.is_empty());
}

#[test]
fn tiles_encode_as_jpeg_data_urls() {
    let img = gradient(8, 8);
    let url = encode_tile(&img, 50);
    assert!(url.starts_with("data:image/jpeg;base64,/9j/"), "{}", &url[..40]);
    assert!(url.len() > "data:image/jpeg;base64,".len() + 100);
    assert_ne!(encode_tile(&img, 50), encode_tile(&gradient(8, 9), 50));
}

/// The data URL that the original pipeline (image's JPEG encoder, then
/// standard base64) gives for the same pixels.
fn reference_url(img: &RgbFrame, quality: u8) -> String {
    let tile = image::RgbImage::from_raw(img.width, img.height, img.data.clone()).unwrap();
    let mut jpg: Vec<u8> = Vec::new();
    image::codecs::jpeg::JpegEncoder::new_with_quality(&mut jpg, quality).encode_image(&tile).unwrap();
    format!("data:image/jpeg;base64,{}", base64::engine::general_purpose::STANDARD.encode(&jpg))
}

#[test]
fn tiles_encode_like_the_image_pipeline() {
    for (w, h, q) in [(8, 8, 50), (72, 72, 75), (3, 5, 50), (1, 1, 100)] {
        let img = gradient(w, h);
        assert_eq!(encode_tile(&img, q), reference_url(&img, q));
    }
    let img = gradient(100, 90);
    let g = TileGrid::new(2, 2, 4, 4, 0);
    let t = crop(&img, 76, 0, 72, 72);
    assert_eq!(tile_url(&img, &g, 1, 0, 75), reference_url(&t, 75));
}

#[test]
fn grid_geometry() {
    assert!(grid_fits(5, 3, 8, 8));
    let g = TileGrid::new(5, 3, 8, 8, 0);
    assert_eq!((g.width, g.height), (5 * 72 + 4 * 8, 3 * 72 + 2 * 8));
    let g = TileGrid::new(0, 0, 0, 0, 7);
    assert_eq!((g.cols, g.rows, g.width, g.height), (1, 1, 72, 72));
    assert_eq!((g.start_col, g.start_row), (1, 1));
    assert!(!grid_fits(100_000_000, 1, 0, 0));
    assert!(!grid_fits(2, 1, u32::MAX, 0));
    let g = TileGrid::new(5, 3, 0, 0, 0);
    assert!(frame_bytes_fit(&g));
    assert_eq!(frame_bytes(&g), 360 * 216 * 3);
    assert!(gaps_fit(&g));
}

#[test]
fn slots_map_to_tiles() {
    let g = TileGrid::new(5, 3, 0, 0, 0);
    assert!(tile_lookup_fits(&g, 7));
    assert_eq!(tile_for_slot(&g, 0), Some((0, 0)));
    assert_eq!(tile_for_slot(&g, 7), Some((1, 1)));
    assert_eq!(tile_for_slot(&g, 16), Some((4, 2)));
    assert_eq!(tile_for_slot(&g, 5), None);
    assert_eq!(tile_for_slot(&g, 18), None);
    let g = TileGrid::new(2, 2, 0, 0, 8);
    assert_eq!(tile_for_slot(&g, 8), Some((0, 0)));
    assert_eq!(tile_for_slot(&g, 15), Some((1, 1)));
    assert_eq!(tile_for_slot(&g, 7), None);
    assert_eq!(tile_for_slot(&g, 2), None);
}

#[test]
fn tile_origins_skip_the_gaps() {
    let g = TileGrid::new(5, 3, 8, 4, 0);
    assert_eq!(tile_origin(&g, 0, 0), (0, 0));
    assert_eq!(tile_origin(&g, 2, 1), (160, 76));
    assert_eq!(tile_origin(&g, 4, 2), (320, 152));
}

#[test]
fn slot_numbers_from_contexts() {
    assert_eq!(parse_slot("opendeck.work.dev.Keypad.7.0"), 7);
    assert_eq!(parse_slot("Keypad.12.0"), 12);
    assert_eq!(parse_slot("Keypad.x.0"), 0);
    assert_eq!(parse_slot("a.Keypad"), 0);
    assert_eq!(parse_slot("Keypad.3.Keypad.4"), 3);
    assert_eq!(parse_slot(""), 0);
    assert_eq!(parse_slot("Keypad.+5"), 5);
}

#[test]
fn every_button_gets_its_own_tile() {
    let g = TileGrid::new(3, 2, 4, 2, 0);
    let img = gradient(g.width, g.height);
    let frame = frame_tiles(&img, &g, 50);
    assert_eq!(frame.len(), 6);
    for tc in 0..3u32 {
        for tr in 0..2u32 {
            let k = find_tile(&frame, tc, tr).unwrap();
            assert_eq!(k, (tc * 2 + tr) as usize);
            assert_eq!(frame[k].2, tile_url(&img, &g, tc, tr, 50));
        }
    }
    assert_eq!(find_tile(&frame, 3, 0), None);
    assert_ne!(frame[0].2, frame[5].2);
}

#[test]
fn slot_tiles_of_a_frame() {
    let g = TileGrid::new(2, 1, 0, 0, 6);
    let img = gradient(g.width, g.height);
    assert_eq!(slot_tile_url(&img, &g, 7, 75), Some(tile_url(&img, &g, 1, 0, 75)));
    assert_eq!(slot_tile_url(&img, &g, 0, 75), None);
    let small = gradient(80, 72);
    assert!(tile_visible(&small, &g, 1, 0));
    let tiny = gradient(50, 50);
    assert!(!tile_visible(&tiny, &g, 1, 0));
}

#[test]
fn tiles_leave_the_physical_gaps() {
    let g = TileGrid::new(5, 3, 8, 6, 0);
    for r in 0..3u32 {
        assert_eq!(tile_origin(&g, 0, r).0, 0);
        for c in 0..4u32 {
            assert_eq!(tile_origin(&g, c + 1, r).0, tile_origin(&g, c, r).0 + 72 + 8);
        }
        assert_eq!(tile_origin(&g, 4, r).0 + 72, g.width);
    }
    for c in 0..5u32 {
        assert_eq!(tile_origin(&g, c, 0).1, 0);
        assert_eq!(tile_origin(&g, c, 1).1, 72 + 6);
        assert_eq!(tile_origin(&g, c, 2).1 + 72, g.height);
    }
}

#[test]
fn screenshots_decode_from_png_bytes() {
    let img = gradient(5, 3);
    let rgb = image::RgbImage::from_raw(5, 3, img.data.clone()).unwrap();
    let mut png: Vec<u8> = Vec::new();
    rgb.write_to(&mut std::io::Cursor::new(&mut png), image::ImageFormat::Png).unwrap();
    let frame = decode_screenshot(&png).unwrap();
    assert_eq!((frame.width, frame.height), (5, 3));
    assert_eq!(frame.data, img.data);
    let rgba = image::RgbaImage::from_pixel(2, 2, image::Rgba([10, 20, 30, 255]));
    let mut png2: Vec<u8> = Vec::new();
    rgba.write_to(&mut std::io::Cursor::new(&mut png2), image::ImageFormat::Png).unwrap();
    assert_eq!(decode_screenshot(&png2).unwrap().data, vec![10, 20, 30, 10, 20, 30, 10, 20, 30, 10, 20, 30]);
    assert!(decode_screenshot(b"not a png").is_none());
    assert!(decode_screenshot(&[]).is_none());
}
