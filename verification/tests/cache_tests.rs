use std::io::Cursor;

use imgcache::cache::{AddOutcome, ImageCache};
use imgcache::errors::CacheError;

fn gradient_pixels(seed: u32) -> image::RgbImage {
    image::RgbImage::from_fn(32, 32, |x, y| {
        let s = (seed * 37) % 200;
        image::Rgb([
            ((x * 8 + s) % 256) as u8,
            ((y * 8 + s * 2) % 256) as u8,
            (((x + y) * 4 + s * 3) % 256) as u8,
        ])
    })
}

fn png_bytes(img: &image::RgbImage) -> Vec<u8> {
    let mut buf = Cursor::new(Vec::new());
    image::DynamicImage::ImageRgb8(img.clone())
        .write_to(&mut buf, image::ImageFormat::Png)
        .unwrap();
    buf.into_inner()
}

fn bmp_bytes(img: &image::RgbImage) -> Vec<u8> {
    let mut buf = Cursor::new(Vec::new());
    image::DynamicImage::ImageRgb8(img.clone())
        .write_to(&mut buf, image::ImageFormat::Bmp)
        .unwrap();
    buf.into_inner()
}

fn fresh_store() -> ImageCache {
    let mut cache = ImageCache::new();
    cache.initialize(Vec::new(), None, 1000).unwrap();
    cache
}

#[test]
fn add_to_empty_store_and_read_back_exact_bytes() {
    let mut cache = fresh_store();
    let bytes = png_bytes(&gradient_pixels(1));
    let outcome = cache.add_image(bytes.clone(), 2000).unwrap();
    assert_eq!(outcome, AddOutcome::Added(0));
    assert_eq!(cache.get_items_count(), 1);
    let served = cache.get_random_image().unwrap();
    assert_eq!(served, bytes);
}

#[test]
fn get_random_image_on_empty_store_fails() {
    let cache = fresh_store();
    assert_eq!(cache.get_items_count(), 0);
    assert_eq!(cache.get_random_image(), Err(CacheError::EmptyCache));
}

#[test]
fn adding_identical_bytes_twice_counts_once() {
    let mut cache = fresh_store();
    let bytes = png_bytes(&gradient_pixels(2));
    assert_eq!(cache.add_image(bytes.clone(), 2000), Ok(AddOutcome::Added(0)));
    assert_eq!(cache.add_image(bytes, 2001), Ok(AddOutcome::Duplicate));
    assert_eq!(cache.get_items_count(), 1);
}

#[test]
fn two_encodings_of_one_picture_share_a_hash() {
    let mut cache = fresh_store();
    let pixels = gradient_pixels(3);
    let as_png = png_bytes(&pixels);
    let as_bmp = bmp_bytes(&pixels);
    assert_ne!(as_png, as_bmp);
    assert_eq!(cache.add_image(as_png, 2000), Ok(AddOutcome::Added(0)));
    assert_eq!(cache.add_image(as_bmp, 2001), Ok(AddOutcome::Duplicate));
    assert_eq!(cache.get_items_count(), 1);
}

#[test]
fn distinct_images_receive_distinct_indices() {
    let mut cache = fresh_store();
    let first = png_bytes(&gradient_pixels(4));
    let second = png_bytes(&gradient_pixels(5));
    assert_eq!(cache.add_image(first, 2000), Ok(AddOutcome::Added(0)));
    assert_eq!(cache.add_image(second, 2001), Ok(AddOutcome::Added(1)));
    assert_eq!(cache.get_items_count(), 2);
}

#[test]
fn store_is_fresh_right_after_a_novel_add() {
    let mut cache = fresh_store();
    assert!(cache.is_stale_at(1000));
    let bytes = png_bytes(&gradient_pixels(6));
    cache.add_image(bytes, 5000).unwrap();
    assert!(!cache.is_stale_at(5000));
    assert!(!cache.is_stale_at(5000 + 86399));
    assert!(cache.is_stale_at(5000 + 86400));
}

#[test]
fn uninitialized_store_is_stale_and_rejects_adds() {
    let mut cache = ImageCache::new();
    assert!(cache.is_stale_at(0));
    assert!(cache.is_stale());
    let bytes = png_bytes(&gradient_pixels(7));
    assert_eq!(cache.add_image(bytes, 1), Err(CacheError::Uninitialized));
}

#[test]
fn initializing_twice_reports_a_race() {
    let mut cache = fresh_store();
    assert_eq!(
        cache.initialize(Vec::new(), None, 1000),
        Err(CacheError::InitializationRace)
    );
}

#[test]
fn initialization_fails_on_undecodable_entry() {
    let mut cache = ImageCache::new();
    let scanned = vec![png_bytes(&gradient_pixels(8)), vec![0, 1, 2, 3]];
    assert_eq!(
        cache.initialize(scanned, Some(500), 1000),
        Err(CacheError::StorageError)
    );
    let bytes = png_bytes(&gradient_pixels(8));
    assert_eq!(cache.add_image(bytes, 1), Err(CacheError::Uninitialized));
}

#[test]
fn undecodable_candidate_is_a_decode_error() {
    let mut cache = fresh_store();
    assert_eq!(
        cache.add_image(vec![255, 254, 0, 77], 2000),
        Err(CacheError::DecodeError)
    );
    assert_eq!(cache.get_items_count(), 0);
}

#[test]
fn restart_reproduces_count_and_hashes_without_refetching() {
    let mut cache = fresh_store();
    let images = vec![
        png_bytes(&gradient_pixels(10)),
        png_bytes(&gradient_pixels(11)),
        png_bytes(&gradient_pixels(12)),
    ];
    for (k, img) in images.iter().enumerate() {
        assert_eq!(
            cache.add_image(img.clone(), 2000 + k as u64),
            Ok(AddOutcome::Added(k as u32))
        );
    }
    assert_eq!(cache.get_items_count(), 3);

    let mut restarted = ImageCache::new();
    restarted.initialize(images.clone(), Some(2002), 9000).unwrap();
    assert_eq!(restarted.get_items_count(), 3);
    assert!(!restarted.is_stale_at(2002));
    for img in images {
        assert_eq!(
            restarted.add_image(img, 9001),
            Ok(AddOutcome::Duplicate)
        );
    }
    assert_eq!(restarted.get_items_count(), 3);
}

#[test]
fn initialize_defaults_timestamp_to_now_with_images_and_zero_without() {
    let mut with_images = ImageCache::new();
    with_images
        .initialize(vec![png_bytes(&gradient_pixels(13))], None, 7000)
        .unwrap();
    assert!(!with_images.is_stale_at(7000));
    assert!(with_images.is_stale_at(7000 + 86400));

    let mut empty = ImageCache::new();
    empty.initialize(Vec::new(), None, 7000).unwrap();
    assert!(empty.is_stale_at(0));
}
