use crate_library::error::CrateError;
use crate_library::library::{
    audio_format, check_import_candidate, check_music_folder, check_relocation, check_scan_root,
    extension, file_not_found, is_supported_audio_format, replacement_file_match,
    stored_music_folder, supported_audio_extensions, ImportTally,
};
use crate_library::tags::{extract_bpm_text, extract_key, tag_metadata, trimmed_text};
use crate_library::text::is_whitespace;
use lofty::tag::{ItemKey, Tag, TagType};

fn extract_bpm(tag: &Tag) -> Option<f64> {
    extract_bpm_text(tag).and_then(|s| s.parse::<f64>().ok())
}

#[test]
fn extract_bpm_reads_integer_bpm_tag() {
    let mut tag = Tag::new(TagType::Id3v2);
    tag.insert_text(ItemKey::IntegerBpm, "120".to_string());

    assert_eq!(extract_bpm(&tag), Some(120.0));
}

#[test]
fn extract_key_reads_initial_key_tag_trimmed() {
    let mut tag = Tag::new(TagType::Id3v2);
    tag.insert_text(ItemKey::InitialKey, "Am ".to_string());

    assert_eq!(extract_key(&tag), Some("Am".to_string()));
}

#[test]
fn empty_tag_yields_no_bpm_or_key() {
    let tag = Tag::new(TagType::Id3v2);

    assert_eq!(extract_bpm(&tag), None);
    assert_eq!(extract_key(&tag), None);
}

#[test]
fn bpm_text_is_trimmed_before_it_is_read() {
    let mut tag = Tag::new(TagType::Id3v2);
    tag.insert_text(ItemKey::IntegerBpm, " 128 ".to_string());
    assert_eq!(extract_bpm_text(&tag), Some("128".to_string()));
    assert_eq!(extract_bpm(&tag), Some(128.0));
}

#[test]
fn trimmed_text_trims_unicode_whitespace() {
    assert_eq!(trimmed_text(Some("\u{3000} 8A\t\n")), Some("8A".to_string()));
    assert_eq!(trimmed_text(Some("   ")), Some(String::new()));
    assert_eq!(trimmed_text(None), None);
}

#[test]
fn supported_formats_are_the_seven_extensions() {
    let all = supported_audio_extensions();
    assert_eq!(all, vec!["mp3", "wav", "aiff", "aif", "flac", "m4a", "aac"]);
    for f in &all {
        assert!(is_supported_audio_format(f));
    }
    assert!(!is_supported_audio_format("MP3"));
    assert!(!is_supported_audio_format("ogg"));
    assert!(!is_supported_audio_format(""));
}

#[test]
fn extension_follows_the_final_dot() {
    assert_eq!(extension("song.mp3").as_deref(), Some("mp3"));
    assert_eq!(extension("a.b.FLAC").as_deref(), Some("FLAC"));
    assert_eq!(extension("song.").as_deref(), Some(""));
    assert_eq!(extension(".hidden"), None);
    assert_eq!(extension("noext"), None);
}

#[test]
fn audio_format_is_the_lower_cased_extension() {
    assert_eq!(audio_format(Some("Track.MP3")), "mp3");
    assert_eq!(audio_format(Some("Track.ÀIFF")), "àiff");
    assert_eq!(audio_format(Some("Track")), "");
    assert_eq!(audio_format(None), "");
}

#[test]
fn import_candidate_must_exist_and_be_supported() {
    assert!(matches!(
        check_import_candidate("/m/a.mp3", false, Some("a.mp3")),
        Err(CrateError::FileNotFound(ref p)) if p == "/m/a.mp3"
    ));
    assert!(matches!(
        check_import_candidate("/m/a.ogg", true, Some("a.ogg")),
        Err(CrateError::Import(ref m)) if m == "Unsupported format: ogg"
    ));
    assert!(matches!(
        check_import_candidate("/m/a", true, Some("a")),
        Err(CrateError::Import(ref m)) if m == "Unsupported format: "
    ));
    assert_eq!(check_import_candidate("/m/A.WAV", true, Some("A.WAV")).ok().as_deref(), Some("wav"));
}

#[test]
fn tally_counts_one_failure_per_message() {
    let mut tally: ImportTally<u32, u32> = ImportTally::new();
    tally.add_track(1);
    tally.add_failure("/m/bad.mp3", "Failed to read metadata");
    tally.add_duplicate(7);
    tally.add_track(2);
    tally.add_failure("/m/x.ogg", "Unsupported format: ogg");
    let r = tally.into_result_with_duplicates();
    assert_eq!(r.tracks, vec![1, 2]);
    assert_eq!(r.duplicates, vec![7]);
    assert_eq!(r.failed_count, 2);
    assert_eq!(
        r.errors,
        vec![
            "/m/bad.mp3: Failed to read metadata".to_string(),
            "/m/x.ogg: Unsupported format: ogg".to_string()
        ]
    );

    let mut plain: ImportTally<u32, u32> = ImportTally::new();
    plain.add_track(3);
    let p = plain.into_import_result();
    assert_eq!(p.tracks, vec![3]);
    assert_eq!(p.failed_count, 0);
    assert!(p.errors.is_empty());
}

#[test]
fn replacement_matches_only_an_equal_known_hash() {
    let same = replacement_file_match(Some("h1".to_string()), "h1".to_string(), Some("new.flac"));
    assert!(same.matches);
    assert!(same.format_valid);
    let other = replacement_file_match(Some("h1".to_string()), "h2".to_string(), Some("new.txt"));
    assert!(!other.matches);
    assert!(!other.format_valid);
    let unknown = replacement_file_match(None, "h2".to_string(), Some("new.mp3"));
    assert!(!unknown.matches);
    assert!(unknown.format_valid);
}

#[test]
fn relocation_refuses_different_content_unless_forced() {
    let other = replacement_file_match(Some("h1".to_string()), "h2".to_string(), Some("new.mp3"));
    assert!(matches!(
        check_relocation(&other, false),
        Err(CrateError::Import(ref m))
            if m == "File content does not match original. Use force=true to override."
    ));
    assert!(check_relocation(&other, true).is_ok());
    let unknown = replacement_file_match(None, "h2".to_string(), Some("new.mp3"));
    assert!(check_relocation(&unknown, false).is_ok());
    let bad_format = replacement_file_match(Some("h1".to_string()), "h1".to_string(), Some("new.doc"));
    assert!(matches!(
        check_relocation(&bad_format, true),
        Err(CrateError::Import(ref m)) if m == "Unsupported audio format"
    ));
    assert!(matches!(file_not_found("/x"), CrateError::FileNotFound(ref p) if p == "/x"));
}

#[test]
fn music_folder_must_be_a_directory() {
    assert!(check_music_folder("/music", true).is_ok());
    assert!(matches!(
        check_music_folder("/music.txt", false),
        Err(CrateError::InvalidOperation(ref m)) if m == "Not a directory: /music.txt"
    ));
    assert_eq!(stored_music_folder(Some("/music".to_string())).ok().as_deref(), Some("/music"));
    assert!(matches!(
        stored_music_folder(None),
        Err(CrateError::InvalidOperation(ref m)) if m == "Failed to persist music library folder"
    ));
}

#[test]
fn scan_root_must_be_configured_and_present() {
    assert!(matches!(
        check_scan_root(None, false),
        Err(CrateError::InvalidOperation(ref m)) if m == "No music library folder configured"
    ));
    assert!(matches!(
        check_scan_root(Some("/gone".to_string()), false),
        Err(CrateError::InvalidOperation(ref m)) if m == "Music library folder is unavailable: /gone"
    ));
    assert_eq!(check_scan_root(Some("/m".to_string()), true).ok().as_deref(), Some("/m"));
}

#[test]
fn tag_metadata_reads_every_field() {
    let mut tag = Tag::new(TagType::Id3v2);
    tag.insert_text(ItemKey::TrackTitle, "Strings of Life".to_string());
    tag.insert_text(ItemKey::TrackArtist, "Rhythim Is Rhythim".to_string());
    tag.insert_text(ItemKey::AlbumTitle, "Innovator".to_string());
    tag.insert_text(ItemKey::Genre, "Techno".to_string());
    tag.insert_text(ItemKey::RecordingDate, "1987-05-01".to_string());
    tag.insert_text(ItemKey::IntegerBpm, "123".to_string());
    tag.insert_text(ItemKey::InitialKey, " 10A".to_string());
    let m = tag_metadata(&tag);
    assert_eq!(m.title.as_deref(), Some("Strings of Life"));
    assert_eq!(m.artist.as_deref(), Some("Rhythim Is Rhythim"));
    assert_eq!(m.album.as_deref(), Some("Innovator"));
    assert_eq!(m.genre.as_deref(), Some("Techno"));
    assert_eq!(m.year, Some(1987));
    assert_eq!(m.bpm_text.as_deref(), Some("123"));
    assert_eq!(m.key.as_deref(), Some("10A"));

    let empty = tag_metadata(&Tag::new(TagType::Id3v2));
    assert!(empty.title.is_none() && empty.year.is_none() && empty.key.is_none());
}

#[test]
fn whitespace_is_the_unicode_white_space_set() {
    for code in 0u32..=0x10FFFF {
        if let Some(c) = char::from_u32(code) {
            assert_eq!(is_whitespace(c), c.is_whitespace(), "U+{code:04X}");
        }
    }
}

#[test]
fn year_is_read_from_the_year_text_first() {
    let mut tag = Tag::new(TagType::VorbisComments);
    tag.insert_text(ItemKey::Year, " 2001".to_string());
    tag.insert_text(ItemKey::RecordingDate, "1999-01-01".to_string());
    assert_eq!(tag_metadata(&tag).year, Some(2001));
    let mut short = Tag::new(TagType::VorbisComments);
    short.insert_text(ItemKey::RecordingDate, "99-01".to_string());
    assert_eq!(tag_metadata(&short).year, None);
}
