use std::io::Cursor;

use imgcache::cache::{AddOutcome, ImageCache};
use imgcache::errors::CacheError;
use imgcache::source::{plan_refresh, ImageSource};

fn tiny_png() -> Vec<u8> {
    let img = image::RgbImage::from_fn(16, 16, |x, y| {
        image::Rgb([(x * 16) as u8, (y * 16) as u8, ((x ^ y) * 16) as u8])
    });
    let mut buf = Cursor::new(Vec::new());
    image::DynamicImage::ImageRgb8(img)
        .write_to(&mut buf, image::ImageFormat::Png)
        .unwrap();
    buf.into_inner()
}

fn initialized_source() -> ImageSource {
    let mut cache = ImageCache::new();
    cache.initialize(Vec::new(), None, 1000).unwrap();
    ImageSource::new(cache)
}

#[test]
fn refresh_without_candidates_fails_only_on_an_empty_store() {
    assert_eq!(plan_refresh(0, 0), Err(CacheError::NoCandidatesFound));
    assert_eq!(plan_refresh(0, 2), Ok(()));
    assert_eq!(plan_refresh(3, 0), Ok(()));
    assert_eq!(plan_refresh(3, 2), Ok(()));
}

#[test]
fn a_claimed_window_rejects_the_second_claim() {
    let mut source = initialized_source();
    let observed = source.observe_attempt();
    assert_eq!(observed, 0);
    assert!(source.can_update(4000));

    assert!(source.try_claim(observed, 4000));
    assert_eq!(source.observe_attempt(), 4000);

    // The second caller still holds the observation it took before the claim.
    assert!(!source.try_claim(observed, 4001));
    assert_eq!(source.observe_attempt(), 4000);
}

#[test]
fn rate_limit_blocks_a_window_shorter_than_an_hour() {
    let mut source = initialized_source();
    assert!(!source.can_update(0));
    assert!(!source.can_update(3600));
    assert!(source.can_update(3601));

    assert!(source.try_claim(0, 3601));
    assert!(!source.can_update(3601 + 3600));
    assert!(source.can_update(3601 + 3601));
}

#[test]
fn source_serves_from_the_store() {
    let mut source = initialized_source();
    // An empty store is stale whatever the clock reads.
    assert!(source.is_stale());
    assert_eq!(source.get_image(), Err(CacheError::EmptyCache));

    let bytes = tiny_png();
    assert_eq!(
        source.cache.add_image(bytes.clone(), 2000),
        Ok(AddOutcome::Added(0))
    );
    assert_eq!(source.get_image(), Ok(bytes));
    assert!(!source.cache.is_stale_at(2000));
}

#[test]
fn transport_error_variants_exist_for_the_refresh_driver() {
    assert_ne!(CacheError::SearchUnreachable, CacheError::DownloadError);
    assert_eq!(CacheError::SearchUnreachable, CacheError::SearchUnreachable);
}
