use std::hash::{Hash, Hasher};

use rexpaper::paths::path_file_name;
use rexpaper::thumbnail::{
    cache_path, frame_action, grab_args, grab_dir, grabbed_frame, make_thumbnail,
    placeholder_pixels, static_thumbnail_dir, thumbnail_scalable, video_thumbnail_dir,
    FrameAction, Image,
    THUMB_CACHE_VERSION, THUMB_HEIGHT, THUMB_WIDTH,
};

fn default_hash(s: &str) -> u64 {
    let mut h = std::collections::hash_map::DefaultHasher::new();
    s.hash(&mut h);
    h.finish()
}

#[test]
fn cache_names_come_from_the_path_hash_and_version() {
    let p = "C:\\Pictures\\Anime\\hero.png";
    let expected = format!("/cache/static-thumbs/v{:016x}.jpg", default_hash(p) ^ 6);
    assert_eq!(cache_path(p, "/cache/static-thumbs", THUMB_CACHE_VERSION, '/'), expected);
    let expected = format!("C:\\c\\v{:016x}.jpg", default_hash(p) ^ 6);
    assert_eq!(cache_path(p, "C:\\c", 6, '\\'), expected);
    // Deterministic, and different for another version or another file.
    assert_eq!(cache_path(p, "/c", 6, '/'), cache_path(p, "/c", 6, '/'));
    assert_ne!(cache_path(p, "/c", 6, '/'), cache_path(p, "/c", 7, '/'));
    assert_ne!(cache_path(p, "/c", 6, '/'), cache_path("C:\\other.png", "/c", 6, '/'));
}

#[test]
fn a_cached_thumbnail_is_found_again_by_its_name() {
    let p = "/w/Anime/hero.png";
    let written = cache_path(p, "C:\\cache", THUMB_CACHE_VERSION, '\\');
    let read = cache_path(p, "C:\\cache", THUMB_CACHE_VERSION, '\\');
    assert_eq!(written, read);
    let chars: Vec<char> = written.chars().collect();
    let name: String = path_file_name(&chars).unwrap().into_iter().collect();
    assert_eq!(name, format!("v{:016x}.jpg", default_hash(p) ^ THUMB_CACHE_VERSION));
}

#[test]
fn cache_folders() {
    assert_eq!(static_thumbnail_dir("/cache", '/'), "/cache/static-thumbs");
    assert_eq!(static_thumbnail_dir("C:\\cache", '\\'), "C:\\cache\\static-thumbs");
    assert_eq!(video_thumbnail_dir("/cache/", '\\'), "/cache/video-thumbs");
}

#[test]
fn frame_grabbing() {
    let v = "/v/fight.mp4";
    let d = grab_dir(v, "/cache/video-thumbs", '/');
    assert_eq!(d, format!("/cache/video-thumbs/tmp_{:016x}", default_hash(v)));
    assert_eq!(grabbed_frame(&d, '/'), format!("{}/thumb.jpg", d));
    let args = grab_args(&d, v);
    assert_eq!(args.len(), 16);
    assert_eq!(args[2], "--start=0.5");
    assert_eq!(args[12], format!("--screenshot-directory={}", d));
    assert_eq!(args[15], v);
}

#[test]
fn placeholder_is_a_flat_dark_card() {
    let px = placeholder_pixels();
    assert_eq!(px.len(), (THUMB_WIDTH * THUMB_HEIGHT * 3) as usize);
    let expected: image::RgbImage =
        image::ImageBuffer::from_pixel(THUMB_WIDTH, THUMB_HEIGHT, image::Rgb([24u8, 25, 32]));
    assert_eq!(px, expected.into_raw());
}

#[test]
fn thumbnails_have_the_thumbnail_size() {
    let img = Image::from_parts(1000, 500, vec![0u8; 1000 * 500 * 3]).unwrap();
    let t = make_thumbnail(&img);
    assert_eq!((t.width, t.height), (THUMB_WIDTH, THUMB_HEIGHT));
    assert_eq!(t.bytes.len(), (THUMB_WIDTH * THUMB_HEIGHT * 3) as usize);
}

#[test]
fn thumbnails_are_what_the_image_crate_makes() {
    let src: image::RgbImage = image::ImageBuffer::from_fn(800, 450, |x, y| {
        image::Rgb([(x % 256) as u8, (y % 256) as u8, ((x + y) % 256) as u8])
    });
    let expected = image::DynamicImage::ImageRgb8(src.clone()).thumbnail_exact(THUMB_WIDTH, THUMB_HEIGHT);
    let img = Image::from_parts(800, 450, src.into_raw()).unwrap();
    let t = make_thumbnail(&img);
    assert_eq!(t.bytes, expected.into_bytes());
}

#[test]
fn image_parts_must_fill_the_image() {
    assert!(Image::from_parts(2, 2, vec![0u8; 12]).is_some());
    assert!(Image::from_parts(2, 2, vec![0u8; 11]).is_none());
    assert!(Image::from_parts(0, 5, vec![]).is_some());
}

#[test]
fn a_grabbed_frame_is_scaled_copied_or_skipped() {
    let frame = || Image::from_parts(800, 450, vec![7u8; 800 * 450 * 3]).unwrap();
    match frame_action(true, true, Some(frame())) {
        FrameAction::SaveThumbnail(t) => {
            assert_eq!((t.width, t.height), (THUMB_WIDTH, THUMB_HEIGHT));
            assert!(t.bytes.iter().all(|b| *b == 7));
        }
        _ => panic!("a decoded frame is scaled"),
    }
    assert!(matches!(frame_action(true, true, None), FrameAction::CopyFrame));
    assert!(matches!(frame_action(true, false, None), FrameAction::Nothing));
    assert!(matches!(frame_action(false, true, Some(frame())), FrameAction::Nothing));
    assert!(matches!(frame_action(false, false, None), FrameAction::Nothing));
}

#[test]
fn only_images_whose_sums_fit_are_scaled() {
    assert!(thumbnail_scalable(1000, 500));
    assert!(thumbnail_scalable(0, 0));
    assert!(thumbnail_scalable(7680, 4320));
    assert!(thumbnail_scalable(1 << 24, 1));
    assert!(!thumbnail_scalable((1 << 24) + 1, 1));
    assert!(!thumbnail_scalable(1 << 24, 1 << 24));
    assert!(!thumbnail_scalable(4_000_000, 4_000_000));
    assert!(thumbnail_scalable(100_000, 100_000));
}
