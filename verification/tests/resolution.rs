use crate_library::resolution::{
    assign_root, choose_root, new_root_id, resolution_candidate, resolved_path, ResolvedPath,
    RootMapping,
};

fn mapping(id: &str, folder: &str) -> RootMapping {
    RootMapping { library_root_id: id.to_string(), local_absolute_path: folder.to_string() }
}

const TMP: &str = "/tmp/crate-test-5b1c";

#[test]
fn assign_root_prefers_the_nested_root() {
    let inner = format!("{TMP}/inner");
    let file = format!("{inner}/song.mp3");
    let mappings = vec![mapping("outer", TMP), mapping("inner", &inner)];

    let (root_id, rel) = assign_root(&mappings, &file);
    assert_eq!(root_id.as_deref(), Some("inner"));
    assert_eq!(rel.as_deref(), Some("song.mp3"));

    // The order in which the mappings are listed does not matter.
    let reversed = vec![mapping("inner", &inner), mapping("outer", TMP)];
    let (root_id, rel) = assign_root(&reversed, &file);
    assert_eq!(root_id.as_deref(), Some("inner"));
    assert_eq!(rel.as_deref(), Some("song.mp3"));
}

#[test]
fn assign_root_leaves_outside_files_device_local() {
    let mapped = format!("{TMP}/mapped");
    let file = format!("{TMP}/outside/song.mp3");
    let mappings = vec![mapping("root", &mapped)];

    let (root_id, rel) = assign_root(&mappings, &file);
    assert_eq!(root_id, None);
    assert_eq!(rel, None);
}

#[test]
fn assign_root_rejects_a_sibling_prefix() {
    let sibling = format!("{TMP}-other");
    let file = format!("{sibling}/song.mp3");
    let mappings = vec![mapping("root", TMP)];

    let (root_id, rel) = assign_root(&mappings, &file);
    assert_eq!(root_id, None);
    assert_eq!(rel, None);
}

#[test]
fn relative_path_keeps_nested_folders() {
    let mappings = vec![mapping("root", "/music")];
    let (root_id, rel) = assign_root(&mappings, "/music/house/2024/a.flac");
    assert_eq!(root_id.as_deref(), Some("root"));
    assert_eq!(rel.as_deref(), Some("house/2024/a.flac"));
}

#[test]
fn no_mappings_leave_the_track_device_local() {
    assert_eq!(assign_root(&Vec::new(), "/music/a.mp3"), (None, None));
}

#[test]
fn equal_length_folders_prefer_the_first_listed() {
    let mappings = vec![mapping("a", "/m/x"), mapping("b", "/m/y"), mapping("c", "/m/x")];
    let stripped = vec![Some("s.mp3".to_string()), None, Some("t.mp3".to_string())];
    let (root_id, rel) = choose_root(&mappings, &stripped);
    assert_eq!(root_id.as_deref(), Some("a"));
    assert_eq!(rel.as_deref(), Some("s.mp3"));
    assert_eq!(choose_root(&mappings, &vec![None, None, None]), (None, None));
}

#[test]
fn rooted_track_is_looked_for_under_its_mapped_folder() {
    let c = resolution_candidate(Some("root"), Some("a/b.mp3"), "/old/b.mp3", Some("/music"));
    assert_eq!(c.as_deref(), Some("/music/a/b.mp3"));
    assert_eq!(resolution_candidate(Some("root"), Some("a/b.mp3"), "/old/b.mp3", None), None);
    assert_eq!(
        resolution_candidate(None, None, "/old/b.mp3", Some("/music")).as_deref(),
        Some("/old/b.mp3")
    );
    assert_eq!(
        resolution_candidate(Some("root"), None, "/old/b.mp3", Some("/music")).as_deref(),
        Some("/old/b.mp3")
    );
}

#[test]
fn missing_file_or_unmapped_root_is_unavailable() {
    assert_eq!(
        resolved_path(Some("/music/a.mp3".to_string()), true),
        ResolvedPath::Playable("/music/a.mp3".to_string())
    );
    assert_eq!(resolved_path(Some("/music/a.mp3".to_string()), false), ResolvedPath::Unavailable);
    assert_eq!(resolved_path(None, true), ResolvedPath::Unavailable);
}

#[test]
fn new_root_ids_are_fresh_v4_uuids() {
    let a = new_root_id();
    let b = new_root_id();
    assert_ne!(a, b);
    for id in [&a, &b] {
        assert_eq!(id.len(), 36);
        let chars: Vec<char> = id.chars().collect();
        for (i, c) in chars.iter().enumerate() {
            if i == 8 || i == 13 || i == 18 || i == 23 {
                assert_eq!(*c, '-');
            } else {
                assert!(c.is_ascii_hexdigit() && !c.is_ascii_uppercase());
            }
        }
        assert_eq!(chars[14], '4');
        assert!(matches!(chars[19], '8' | '9' | 'a' | 'b'));
    }
}

#[test]
fn mapped_track_is_joined_under_its_folder_and_ends_with_its_relative_path() {
    let c = resolution_candidate(Some("r"), Some("house/a.mp3"), "/old/a.mp3", Some("/music/")).unwrap();
    assert!(c.ends_with("house/a.mp3"));
    assert!(c.starts_with("/music/"));
    assert_eq!(c, "/music/house/a.mp3");
    let absolute = resolution_candidate(Some("r"), Some("/elsewhere/a.mp3"), "/old/a.mp3", Some("/music")).unwrap();
    assert!(absolute.ends_with("/elsewhere/a.mp3"));
}

#[test]
fn components_decide_the_prefix_not_characters() {
    let mappings = vec![mapping("root", "/music/./crates//")];
    let (root_id, rel) = assign_root(&mappings, "/music/crates/a/b.mp3");
    assert_eq!(root_id.as_deref(), Some("root"));
    assert_eq!(rel.as_deref(), Some("a/b.mp3"));
    let (root_id, _) = assign_root(&vec![mapping("root", "/music/cr")], "/music/crates/a.mp3");
    assert_eq!(root_id, None);
}
