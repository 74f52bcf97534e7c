use std::sync::Arc;

use image::{DynamicImage, RgbImage};
use sptf_tui::common::error::ArtError;
use sptf_tui::rendering::cache::{ArtCache, ART_CACHE_CAPACITY};
use sptf_tui::rendering::loader::{
    decode_image, file_path_for, file_path_from, plan_fetch, source_for_parsed, ArtSource,
};

fn tiny_image() -> Arc<DynamicImage> {
    Arc::new(DynamicImage::ImageRgb8(RgbImage::new(2, 2)))
}

#[test]
fn get_returns_none_for_missing_url() {
    let mut cache: ArtCache<Arc<DynamicImage>> = ArtCache::new();
    assert!(cache.get("https://x").is_none());
    assert!(cache.is_empty());
}

#[test]
fn put_then_get_round_trips() {
    let mut cache = ArtCache::new();
    cache.put("https://x".to_string(), tiny_image());
    assert!(cache.get("https://x").is_some());
    assert_eq!(cache.len(), 1);
}

#[test]
fn put_overwrites_existing_entry() {
    let mut cache = ArtCache::new();
    cache.put("u".into(), tiny_image());
    cache.put("u".into(), tiny_image());
    assert_eq!(cache.len(), 1);
}

#[test]
fn cache_keeps_one_value_per_url() {
    let mut cache = ArtCache::new();
    cache.put("a".to_string(), 1u32);
    cache.put("b".to_string(), 2u32);
    cache.put("a".to_string(), 3u32);
    assert_eq!(cache.len(), 2);
    assert_eq!(cache.get("a"), Some(&3));
    assert_eq!(cache.get("b"), Some(&2));
    assert_eq!(cache.get("c"), None);
    assert!(!cache.is_empty());
}

#[test]
fn empty_url_is_unavailable() {
    assert!(matches!(plan_fetch(""), Err(ArtError::Unavailable)));
}

#[test]
fn unsupported_scheme_errors() {
    let err = plan_fetch("ftp://example.com/x.png").unwrap_err();
    assert!(matches!(err, ArtError::Network(_)));
}

#[test]
fn invalid_url_errors() {
    let err = plan_fetch("not a url").unwrap_err();
    assert!(matches!(err, ArtError::Network(_)));
}

#[test]
fn schemes_choose_the_source() {
    assert_eq!(plan_fetch("file:///tmp/cover.png").ok(), Some(ArtSource::File));
    assert_eq!(plan_fetch("https://i.scdn.co/image/ab67").ok(), Some(ArtSource::Http));
    assert_eq!(plan_fetch("HTTP://example.com/a.jpg").ok(), Some(ArtSource::Http));
    let err = plan_fetch("ftp://example.com/x.png").unwrap_err();
    assert!(matches!(err, ArtError::Network(m) if m == "unsupported scheme \"ftp\""));
}

#[test]
fn parse_outcome_maps_to_source() {
    assert_eq!(source_for_parsed(Ok("file".to_string())).ok(), Some(ArtSource::File));
    assert_eq!(source_for_parsed(Ok("https".to_string())).ok(), Some(ArtSource::Http));
    let e = source_for_parsed(Err("relative URL without a base".to_string())).unwrap_err();
    assert!(matches!(e, ArtError::Network(m) if m == "relative URL without a base"));
    let f = source_for_parsed(Ok("data".to_string())).unwrap_err();
    assert!(matches!(f, ArtError::Network(m) if m == "unsupported scheme \"data\""));
}

#[test]
fn garbage_bytes_fail_to_decode() {
    assert!(matches!(decode_image(b"definitely not an image"), Err(ArtError::Decode(_))));
    assert!(matches!(decode_image(&[]), Err(ArtError::Decode(_))));
}

#[test]
fn png_bytes_decode() {
    let img = DynamicImage::ImageRgb8(RgbImage::new(3, 2));
    let mut bytes: Vec<u8> = Vec::new();
    img.write_to(&mut std::io::Cursor::new(&mut bytes), image::ImageFormat::Png).unwrap();
    let decoded = decode_image(&bytes).unwrap();
    assert_eq!(decoded, decode_image(&bytes).unwrap());
    assert_eq!(decoded.width(), 3);
    assert_eq!(decoded.height(), 2);
}

#[test]
fn file_urls_name_local_paths() {
    assert_eq!(file_path_for("file:///tmp/cover.png").ok(), Some(b"/tmp/cover.png".to_vec()));
    assert_eq!(file_path_for("file:///tmp/a%20b.png").ok(), Some(b"/tmp/a b.png".to_vec()));
    assert_eq!(file_path_for("file:///tmp/%FF.png").ok(), Some(b"/tmp/\xff.png".to_vec()));
    let bad = file_path_for("not a url").unwrap_err();
    assert!(matches!(bad, ArtError::Network(m) if m == "relative URL without a base"));
    let remote = file_path_for("file://example.com/cover.png").unwrap_err();
    assert!(matches!(remote, ArtError::Network(m) if m == "invalid file:// URL"));
    assert_eq!(file_path_from(Ok(Some(b"/a".to_vec()))).ok(), Some(b"/a".to_vec()));
    assert!(matches!(file_path_from(Ok(None)), Err(ArtError::Network(m)) if m == "invalid file:// URL"));
    assert!(matches!(file_path_from(Err("boom".into())), Err(ArtError::Network(m)) if m == "boom"));
}

#[test]
fn cache_evicts_least_recently_used_beyond_capacity() {
    let mut cache = ArtCache::new();
    for i in 0..32u32 {
        cache.put(format!("https://x/{i}"), i);
    }
    assert_eq!(cache.len(), ART_CACHE_CAPACITY);
    cache.put("https://x/32".to_string(), 32);
    assert_eq!(cache.len(), 32);
    assert_eq!(cache.get("https://x/32"), Some(&32));
    assert_eq!(cache.get("https://x/0"), None);
    assert_eq!(cache.get("https://x/1"), Some(&1));
}

#[test]
fn a_get_keeps_an_entry_from_eviction() {
    let mut cache = ArtCache::new();
    for i in 0..32u32 {
        cache.put(format!("u{i}"), i);
    }
    assert_eq!(cache.get("u0"), Some(&0));
    cache.put("new".to_string(), 99);
    assert_eq!(cache.get("u0"), Some(&0));
    assert_eq!(cache.get("u1"), None);
    cache.put("u5".to_string(), 55);
    assert_eq!(cache.len(), 32);
    assert_eq!(cache.get("u5"), Some(&55));
}
