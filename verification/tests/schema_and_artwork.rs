use crate_library::artwork::{
    are_artworks_identical, artwork_file_name, artwork_from_picture, artwork_relative_path,
    choose_picture, needs_resize, ARTWORK_MAX_DIMENSION,
};
use crate_library::schema::{
    get_migrations, migrations_after, MIGRATION_COUNT, MIGRATION_INITIAL_SCHEMA,
    MIGRATION_TRACK_FILE_HASH_INDEX,
};

#[test]
fn migrations_apply_in_order_to_an_empty_database() {
    let migrations = get_migrations();
    assert_eq!(migrations.len(), MIGRATION_COUNT);
    assert_eq!(migrations[0], MIGRATION_INITIAL_SCHEMA);
    assert_eq!(migrations[MIGRATION_COUNT - 1], MIGRATION_TRACK_FILE_HASH_INDEX);

    let conn = rusqlite::Connection::open_in_memory().unwrap();
    conn.execute_batch("PRAGMA foreign_keys = ON;").unwrap();
    for sql in &migrations {
        conn.execute_batch(sql).unwrap();
    }
    let tables: i64 = conn
        .query_row(
            "SELECT COUNT(*) FROM sqlite_master WHERE type = 'table' AND name IN ('tracks', 'library_roots', 'sync_root_mappings')",
            [],
            |row| row.get(0),
        )
        .unwrap();
    assert_eq!(tables, 3);
}

#[test]
fn artwork_is_stored_per_track_as_webp() {
    assert_eq!(artwork_file_name("abc"), "abc.webp");
    assert_eq!(artwork_relative_path("abc"), "artwork/abc.webp");
}

#[test]
fn only_images_larger_than_the_maximum_are_resized() {
    assert_eq!(ARTWORK_MAX_DIMENSION, 500);
    assert!(!needs_resize(500, 500));
    assert!(needs_resize(501, 10));
    assert!(needs_resize(10, 501));
    assert!(!needs_resize(0, 0));
}

#[test]
fn front_cover_is_preferred_over_the_first_picture() {
    assert_eq!(choose_picture(&vec![false, true, true]), Some(1));
    assert_eq!(choose_picture(&vec![false, false]), Some(0));
    assert_eq!(choose_picture(&Vec::new()), None);
}

#[test]
fn artworks_are_identical_only_when_every_digest_agrees() {
    let a = Some(vec![1u8, 2, 3]);
    let b = Some(vec![1u8, 2, 3]);
    let c = Some(vec![1u8, 2, 4]);
    assert!(are_artworks_identical(&vec![a.clone(), b.clone()]));
    assert!(are_artworks_identical(&vec![a.clone(), b.clone(), a.clone()]));
    assert!(!are_artworks_identical(&vec![a.clone(), c.clone()]));
    assert!(!are_artworks_identical(&vec![a.clone(), b.clone(), c]));
    assert!(!are_artworks_identical(&vec![a.clone()]));
    assert!(!are_artworks_identical(&Vec::new()));
    assert!(!are_artworks_identical(&vec![a, None]));
    assert!(are_artworks_identical(&vec![Some(Vec::new()), Some(Vec::new())]));
}

#[test]
fn an_older_database_runs_only_the_migrations_it_lacks() {
    let all = get_migrations();
    assert_eq!(migrations_after(0), all);
    assert_eq!(migrations_after(5), all[5..].to_vec());
    assert!(migrations_after(MIGRATION_COUNT).is_empty());
    assert!(migrations_after(MIGRATION_COUNT + 3).is_empty());

    let conn = rusqlite::Connection::open_in_memory().unwrap();
    for sql in &all[..3] {
        conn.execute_batch(sql).unwrap();
    }
    for sql in migrations_after(3) {
        conn.execute_batch(sql).unwrap();
    }
    let indexes: i64 = conn
        .query_row(
            "SELECT COUNT(*) FROM sqlite_master WHERE type = 'index' AND name = 'idx_tracks_file_hash'",
            [],
            |row| row.get(0),
        )
        .unwrap();
    assert_eq!(indexes, 1);
}

fn png_bytes(width: u32, height: u32) -> Vec<u8> {
    let img = image::DynamicImage::ImageRgb8(image::RgbImage::new(width, height));
    let mut out = std::io::Cursor::new(Vec::new());
    img.write_to(&mut out, image::ImageFormat::Png).unwrap();
    out.into_inner()
}

#[test]
fn large_pictures_are_scaled_to_fit_and_stored_as_webp() {
    let stored = artwork_from_picture(&png_bytes(1000, 600)).expect("a PNG is an image");
    assert_eq!(image::guess_format(&stored).unwrap(), image::ImageFormat::WebP);
    let back = image::load_from_memory(&stored).unwrap();
    assert_eq!((back.width(), back.height()), (500, 300));
}

#[test]
fn small_pictures_keep_their_size() {
    let stored = artwork_from_picture(&png_bytes(40, 30)).unwrap();
    assert_eq!(image::guess_format(&stored).unwrap(), image::ImageFormat::WebP);
    let back = image::load_from_memory(&stored).unwrap();
    assert_eq!((back.width(), back.height()), (40, 30));
    let tall = artwork_from_picture(&png_bytes(100, 800)).unwrap();
    let back = image::load_from_memory(&tall).unwrap();
    assert_eq!((back.width(), back.height()), (63, 500));
}

#[test]
fn bytes_that_are_no_image_give_no_artwork() {
    assert_eq!(artwork_from_picture(b"not an image"), None);
    assert_eq!(artwork_from_picture(&[]), None);
}
