use audio_mixer::icon::{
    icon_to_base64, pixel_buffer_len, png_to_base64, rgba_pixels, swap_red_blue, IconBitmap,
    IconSource,
};
use base64::Engine;

fn solid(width: i32, height: i32, bgra: [u8; 4]) -> IconBitmap {
    let mut pixels = Vec::new();
    for _ in 0..(width * height) {
        pixels.extend_from_slice(&bgra);
    }
    IconBitmap { width, height, rows_copied: height, pixels }
}

fn decode(icon: &str) -> (u32, u32, Vec<u8>) {
    let png = base64::engine::general_purpose::STANDARD.decode(icon).unwrap();
    assert_eq!(&png[..8], &[137u8, 80, 78, 71, 13, 10, 26, 10]);
    let raster = image::load_from_memory(&png).unwrap().into_rgba8();
    (raster.width(), raster.height(), raster.into_raw())
}

#[test]
fn buffer_holds_four_bytes_per_pixel() {
    assert_eq!(pixel_buffer_len(32, 32), Some(4096));
    assert_eq!(pixel_buffer_len(1, 1), Some(4));
    assert_eq!(pixel_buffer_len(48, 16), Some(3072));
}

#[test]
fn zero_dimension_has_no_buffer() {
    assert_eq!(pixel_buffer_len(0, 32), None);
    assert_eq!(pixel_buffer_len(32, 0), None);
    assert_eq!(pixel_buffer_len(0, 0), None);
}

#[test]
fn negative_dimension_has_no_buffer() {
    assert_eq!(pixel_buffer_len(-1, 32), None);
    assert_eq!(pixel_buffer_len(32, -32), None);
    assert_eq!(pixel_buffer_len(i32::MIN, i32::MIN), None);
}

#[test]
fn buffer_is_bounded() {
    assert_eq!(pixel_buffer_len(23170, 23170), Some(2_147_395_600));
    assert_eq!(pixel_buffer_len(536_870_911, 1), Some(2_147_483_644));
    assert_eq!(pixel_buffer_len(536_870_912, 1), None);
    assert_eq!(pixel_buffer_len(23171, 23171), None);
    assert_eq!(pixel_buffer_len(65536, 65536), None);
    assert_eq!(pixel_buffer_len(i32::MAX, i32::MAX), None);
}

#[test]
fn swap_exchanges_first_and_third_byte_of_each_pixel() {
    let mut pixels = vec![1u8, 2, 3, 4, 5, 6, 7, 8];
    swap_red_blue(&mut pixels);
    assert_eq!(pixels, vec![3u8, 2, 1, 4, 7, 6, 5, 8]);
}

#[test]
fn swap_leaves_an_incomplete_pixel() {
    let mut pixels = vec![1u8, 2, 3, 4, 5, 6, 7];
    swap_red_blue(&mut pixels);
    assert_eq!(pixels, vec![3u8, 2, 1, 4, 5, 6, 7]);
    let mut short = vec![9u8, 8, 7];
    swap_red_blue(&mut short);
    assert_eq!(short, vec![9u8, 8, 7]);
    let mut empty: Vec<u8> = Vec::new();
    swap_red_blue(&mut empty);
    assert!(empty.is_empty());
}

#[test]
fn swap_twice_gives_the_raster_back() {
    let start: Vec<u8> = (0u8..40).collect();
    let mut pixels = start.clone();
    swap_red_blue(&mut pixels);
    assert_ne!(pixels, start);
    swap_red_blue(&mut pixels);
    assert_eq!(pixels, start);
}

#[test]
fn raster_of_a_readable_bitmap_is_swapped() {
    let bitmap = IconBitmap {
        width: 2,
        height: 1,
        rows_copied: 1,
        pixels: vec![10, 20, 30, 40, 50, 60, 70, 80],
    };
    assert_eq!(rgba_pixels(&bitmap), Some(vec![30, 20, 10, 40, 70, 60, 50, 80]));
    assert_eq!(bitmap.pixels, vec![10, 20, 30, 40, 50, 60, 70, 80]);
}

#[test]
fn raster_needs_rows_and_the_exact_length() {
    let good = solid(2, 2, [1, 2, 3, 4]);
    assert!(rgba_pixels(&good).is_some());
    let unread = IconBitmap { rows_copied: 0, ..good.clone() };
    assert_eq!(rgba_pixels(&unread), None);
    let mut short = good.clone();
    short.pixels.pop();
    assert_eq!(rgba_pixels(&short), None);
    let mut long = good.clone();
    long.pixels.push(0);
    assert_eq!(rgba_pixels(&long), None);
    let negative_rows = IconBitmap { rows_copied: -1, ..good };
    assert!(rgba_pixels(&negative_rows).is_some());
}

#[test]
fn base64_of_known_bytes() {
    assert_eq!(png_to_base64(Some(b"hello world~".to_vec())), Some("aGVsbG8gd29ybGR+".to_string()));
    assert_eq!(png_to_base64(Some(vec![b'a'])), Some("YQ==".to_string()));
    assert_eq!(png_to_base64(Some(vec![b'a', b'b'])), Some("YWI=".to_string()));
    assert_eq!(png_to_base64(Some(vec![0xfb, 0xff])), Some("+/8=".to_string()));
    assert_eq!(png_to_base64(Some(Vec::new())), Some(String::new()));
}

#[test]
fn no_png_has_no_text() {
    assert_eq!(png_to_base64(None), None);
}

#[test]
fn solid_colour_survives_the_round_trip() {
    let blue = 0x10u8;
    let green = 0x80u8;
    let red = 0xF0u8;
    let alpha = 0xFFu8;
    let bitmap = solid(4, 4, [blue, green, red, alpha]);
    let icon = icon_to_base64(&IconSource::Bitmap(bitmap)).unwrap();
    assert!(!icon.is_empty());
    let (width, height, rgba) = decode(&icon);
    assert_eq!((width, height), (4, 4));
    assert_eq!(rgba.len(), 64);
    for pixel in rgba.chunks(4) {
        assert_eq!(pixel, &[red, green, blue, alpha]);
    }
}

#[test]
fn pixels_keep_their_place_in_the_round_trip() {
    let bitmap = IconBitmap {
        width: 2,
        height: 2,
        rows_copied: 2,
        pixels: vec![1, 2, 3, 255, 4, 5, 6, 200, 7, 8, 9, 100, 10, 11, 12, 0],
    };
    let icon = icon_to_base64(&IconSource::Bitmap(bitmap)).unwrap();
    let (width, height, rgba) = decode(&icon);
    assert_eq!((width, height), (2, 2));
    assert_eq!(rgba, vec![3, 2, 1, 255, 6, 5, 4, 200, 9, 8, 7, 100, 12, 11, 10, 0]);
}

#[test]
fn wide_bitmap_keeps_its_shape() {
    let bitmap = solid(3, 1, [0, 0, 255, 255]);
    let icon = icon_to_base64(&IconSource::Bitmap(bitmap)).unwrap();
    let (width, height, rgba) = decode(&icon);
    assert_eq!((width, height), (3, 1));
    assert_eq!(rgba, vec![255, 0, 0, 255, 255, 0, 0, 255, 255, 0, 0, 255]);
}

#[test]
fn icon_is_the_same_for_the_same_bitmap() {
    let first = icon_to_base64(&IconSource::Bitmap(solid(8, 8, [9, 8, 7, 6])));
    let second = icon_to_base64(&IconSource::Bitmap(solid(8, 8, [9, 8, 7, 6])));
    assert!(first.is_some());
    assert_eq!(first, second);
}

#[test]
fn invalid_handle_has_no_icon() {
    assert_eq!(icon_to_base64(&IconSource::Invalid), None);
    assert_eq!(icon_to_base64(&IconSource::Absent), None);
    assert_eq!(icon_to_base64(&IconSource::Unreadable), None);
}

#[test]
fn rejected_size_has_no_icon() {
    assert_eq!(icon_to_base64(&IconSource::Rejected { width: 0, height: 32 }), None);
    assert_eq!(icon_to_base64(&IconSource::Rejected { width: -4, height: -4 }), None);
    assert_eq!(icon_to_base64(&IconSource::Rejected { width: 65536, height: 65536 }), None);
    assert_eq!(icon_to_base64(&IconSource::Rejected { width: 32, height: 32 }), None);
}

#[test]
fn icon_text_is_whole_groups_of_four_characters() {
    for (width, height) in [(1, 1), (2, 3), (7, 5), (32, 32)] {
        let icon = icon_to_base64(&IconSource::Bitmap(solid(width, height, [1, 2, 3, 4]))).unwrap();
        assert!(icon.len() >= 12);
        assert_eq!(icon.len() % 4, 0);
        assert!(icon.starts_with("iVBORw0KGgo"));
    }
}

#[test]
fn base64_text_has_four_characters_for_every_three_bytes_begun() {
    for len in 0usize..40 {
        let bytes: Vec<u8> = (0..len).map(|i| (i * 7) as u8).collect();
        let text = png_to_base64(Some(bytes)).unwrap();
        assert_eq!(text.len(), 4 * ((len + 2) / 3));
        assert_eq!(text.chars().count(), text.len());
    }
}

#[test]
fn zero_dimension_bitmap_has_no_icon() {
    let flat = IconBitmap { width: 0, height: 16, rows_copied: 16, pixels: Vec::new() };
    assert_eq!(icon_to_base64(&IconSource::Bitmap(flat)), None);
    let thin = IconBitmap { width: 16, height: 0, rows_copied: 0, pixels: Vec::new() };
    assert_eq!(icon_to_base64(&IconSource::Bitmap(thin)), None);
    let stray = IconBitmap { width: 0, height: 0, rows_copied: 1, pixels: vec![1, 2, 3, 4] };
    assert_eq!(icon_to_base64(&IconSource::Bitmap(stray)), None);
}

#[test]
fn failed_read_has_no_icon() {
    let unread = IconBitmap { rows_copied: 0, ..solid(4, 4, [1, 2, 3, 4]) };
    assert_eq!(icon_to_base64(&IconSource::Bitmap(unread)), None);
}

#[test]
fn buffer_of_another_length_has_no_icon() {
    let mut short = solid(4, 4, [1, 2, 3, 4]);
    short.pixels.truncate(60);
    assert_eq!(icon_to_base64(&IconSource::Bitmap(short)), None);
    let mut long = solid(4, 4, [1, 2, 3, 4]);
    long.pixels.extend_from_slice(&[0, 0, 0, 0]);
    assert_eq!(icon_to_base64(&IconSource::Bitmap(long)), None);
}
