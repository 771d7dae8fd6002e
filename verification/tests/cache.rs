use dagger::resolver::{base64_encode, classify_extension, ext_tag, generate_preview, pick_lnk_target,
    resolve_cached, MediaKind};
use dagger::thumbs::{get_thumb, hash_path, prune_thumbs, set_thumb, ThumbDb};

#[test]
fn store_then_lookup_round_trips() {
    let mut db = ThumbDb::open(":memory:").unwrap();
    let hash = hash_path("/pictures/cat.png");
    let preview = vec![1u8, 2, 3, 4];
    set_thumb(&mut db, hash, 1111, Some(9000), Some("png"), &preview).unwrap();

    let got = get_thumb(&db, hash, 1111).unwrap();
    let (bytes, size, tag) = got.expect("fresh entry must hit");
    assert_eq!(bytes, preview);
    assert_eq!(size, Some(9000));
    assert_eq!(tag.as_deref(), Some("png"));
}

#[test]
fn changed_modification_time_misses() {
    let mut db = ThumbDb::open(":memory:").unwrap();
    let hash = hash_path("/pictures/dog.jpg");
    set_thumb(&mut db, hash, 500, None, None, &vec![9u8, 9]).unwrap();
    assert!(get_thumb(&db, hash, 501).unwrap().is_none());
    assert!(get_thumb(&db, hash, 499).unwrap().is_none());
    assert!(get_thumb(&db, hash, 500).unwrap().is_some());
}

#[test]
fn upsert_overwrites_stale_entry() {
    let mut db = ThumbDb::open(":memory:").unwrap();
    let hash = hash_path("/pictures/bird.gif");
    set_thumb(&mut db, hash, 1, None, Some("gif"), &vec![1u8]).unwrap();
    set_thumb(&mut db, hash, 2, None, Some("gif"), &vec![2u8]).unwrap();
    assert!(get_thumb(&db, hash, 1).unwrap().is_none());
    let (bytes, _, _) = get_thumb(&db, hash, 2).unwrap().unwrap();
    assert_eq!(bytes, vec![2u8]);
}

#[test]
fn missing_key_misses() {
    let db = ThumbDb::open(":memory:").unwrap();
    assert!(get_thumb(&db, hash_path("/nowhere"), 0).unwrap().is_none());
}

#[test]
fn pruning_removes_old_rows_only() {
    let mut db = ThumbDb::open(":memory:").unwrap();
    let old_hash = hash_path("/a");
    let new_hash = hash_path("/b");
    set_thumb(&mut db, old_hash, 10, None, None, &vec![1u8]).unwrap();
    set_thumb(&mut db, new_hash, 100, None, None, &vec![2u8]).unwrap();
    prune_thumbs(&mut db, 50).unwrap();
    assert!(get_thumb(&db, old_hash, 10).unwrap().is_none());
    assert!(get_thumb(&db, new_hash, 100).unwrap().is_some());
}

#[test]
fn hash_is_deterministic_and_spreads() {
    assert_eq!(hash_path("/same/path"), hash_path("/same/path"));
    assert_ne!(hash_path("/same/path"), hash_path("/same/path2"));
}

#[test]
fn cached_preview_returns_exact_base64() {
    // "hello" encodes as aGVsbG8= ; an encoder that handed its input
    // back unchanged would fail this.
    let mut db = ThumbDb::open(":memory:").unwrap();
    let hash = hash_path("/pictures/h.png");
    let bytes = b"hello".to_vec();
    set_thumb(&mut db, hash, 7, None, None, &bytes).unwrap();
    assert_eq!(resolve_cached(&db, "/pictures/h.png", 7).as_deref(), Some("aGVsbG8="));
    assert_eq!(resolve_cached(&db, "/pictures/h.png", 8), None);
}

fn tiny_png() -> Vec<u8> {
    let img = image::RgbaImage::from_pixel(4, 4, image::Rgba([10u8, 20, 30, 255]));
    let mut buf: Vec<u8> = Vec::new();
    image::DynamicImage::ImageRgba8(img)
        .write_to(&mut std::io::Cursor::new(&mut buf), image::ImageFormat::Png)
        .unwrap();
    buf
}

#[test]
fn generating_a_preview_populates_the_cache() {
    let mut db = ThumbDb::open(":memory:").unwrap();
    let path = "/pictures/tiny.png";
    assert!(resolve_cached(&db, path, 42).is_none());

    let data = tiny_png();
    let encoded = generate_preview(&mut db, path, 42, &data, Some(data.len() as i64), Some("png"))
        .expect("a valid image must yield a preview");
    assert!(!encoded.is_empty());

    // The chain now answers from the cache with the same preview.
    assert_eq!(resolve_cached(&db, path, 42).as_deref(), Some(encoded.as_str()));
    // A changed modification time invalidates it again.
    assert!(resolve_cached(&db, path, 43).is_none());
}

#[test]
fn undecodable_bytes_degrade_to_no_preview() {
    let mut db = ThumbDb::open(":memory:").unwrap();
    let path = "/pictures/not-an-image.png";
    let garbage = vec![0u8; 64];
    assert!(generate_preview(&mut db, path, 1, &garbage, None, Some("png")).is_none());
    assert!(resolve_cached(&db, path, 1).is_none());
}

#[test]
fn extension_classification() {
    assert_eq!(classify_extension("/a/photo.PNG"), MediaKind::Image);
    assert_eq!(classify_extension("/a/photo.jpeg"), MediaKind::Image);
    assert_eq!(classify_extension("/a/clip.MkV"), MediaKind::Video);
    assert_eq!(classify_extension("/a/notes.txt"), MediaKind::Other);
    assert_eq!(classify_extension("/a/noext"), MediaKind::Other);
    assert_eq!(classify_extension("/a.png/noext"), MediaKind::Other);
    assert_eq!(ext_tag("/a/photo.PNG"), "png");
    assert_eq!(ext_tag("/a/noext"), "");
}

#[test]
fn base64_of_empty_is_empty() {
    assert_eq!(base64_encode(&Vec::new()), "");
}

#[test]
fn lnk_fallback_chain() {
    assert_eq!(
        pick_lnk_target(Some("C:/real".to_string()), Some("rel".to_string()), None, "orig"),
        "C:/real"
    );
    assert_eq!(pick_lnk_target(None, Some("rel".to_string()), None, "orig"), "rel");
    assert_eq!(pick_lnk_target(None, None, Some("wd".to_string()), "orig"), "wd");
    assert_eq!(pick_lnk_target(None, None, None, "orig"), "orig");
}
