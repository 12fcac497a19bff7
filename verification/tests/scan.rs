use crate_library::library::{
    lookup_outcome, ContentLookup, FileOutcome, LibraryFolderScanResult, LibraryScanProgress, ScanRun, SCAN_BATCH_SIZE,
};

/// Drives the scan bookkeeping over `files` as the application's scan loop does,
/// with `library` standing in for the database's content hashes: each file is
/// given with its content hash, and counts as existing when its hash is already
/// there (an earlier file of the same run included).
fn scan(
    files: &[(String, u8)],
    library: &mut Vec<u8>,
    progress: &mut Vec<LibraryScanProgress>,
) -> LibraryFolderScanResult {
    let mut run = ScanRun::new();
    run.begin(files.len());
    for chunk in files.chunks(SCAN_BATCH_SIZE) {
        for (name, hash) in chunk {
            let lookup = if library.contains(hash) { ContentLookup::Found } else { ContentLookup::Absent };
            let outcome = match lookup_outcome(lookup) {
                Some(settled) => settled,
                None => {
                    library.push(*hash);
                    FileOutcome::Imported(format!("id-{name}"))
                }
            };
            let p = run.finish_file(outcome, &format!("/music/{name}"), Some(name.clone()));
            progress.push(p);
        }
    }
    run.into_result()
}

fn tracks(count: usize) -> Vec<(String, u8)> {
    (0..count).map(|i| (format!("track-{i}.wav"), i as u8)).collect()
}

#[test]
fn scan_run_counts_new_files_as_imported() {
    let count = 5;
    let mut library = Vec::new();
    let result = scan(&tracks(count), &mut library, &mut Vec::new());

    assert_eq!(result.scanned_count, count);
    assert_eq!(result.imported_count, count);
    assert_eq!(result.imported_track_ids.len(), count);
    assert_eq!(result.skipped_existing_count, 0);
    assert_eq!(result.failed_count, 0);
    assert!(result.errors.is_empty());
}

#[test]
fn scan_run_counts_known_content_as_skipped() {
    let count = 5;
    let mut library = Vec::new();
    let first = scan(&tracks(count), &mut library, &mut Vec::new());
    assert_eq!(first.imported_count, count);

    let second = scan(&tracks(count), &mut library, &mut Vec::new());

    assert_eq!(second.scanned_count, count);
    assert_eq!(second.imported_count, 0);
    assert_eq!(second.skipped_existing_count, count);
    assert_eq!(second.failed_count, 0);
}

#[test]
fn scan_run_counts_a_repeated_hash_once() {
    let files = vec![("a.wav".to_string(), 3u8), ("b.wav".to_string(), 3u8)];
    let mut library = Vec::new();
    let result = scan(&files, &mut library, &mut Vec::new());

    assert_eq!(result.scanned_count, 2);
    assert_eq!(result.imported_count, 1);
    assert_eq!(result.imported_track_ids.len(), 1);
    assert_eq!(result.skipped_existing_count, 1);
    assert_eq!(result.failed_count, 0);
}

#[test]
fn scan_run_spans_several_batches() {
    let count = SCAN_BATCH_SIZE + 8;
    let mut library = Vec::new();
    let result = scan(&tracks(count), &mut library, &mut Vec::new());

    assert_eq!(result.scanned_count, count);
    assert_eq!(result.imported_count, count);
    assert_eq!(result.imported_track_ids.len(), count);
    assert_eq!(result.skipped_existing_count, 0);
    assert_eq!(result.failed_count, 0);
}

#[test]
fn scan_run_reports_progress_once_per_file() {
    let count = 5;
    let mut library = Vec::new();
    let mut seen: Vec<LibraryScanProgress> = Vec::new();
    let result = scan(&tracks(count), &mut library, &mut seen);

    assert_eq!(seen.len(), count);
    assert_eq!(seen.iter().map(|p| p.current).collect::<Vec<_>>(), vec![1, 2, 3, 4, 5]);
    assert_eq!(seen.last().unwrap().current, result.scanned_count);
    assert_eq!(seen.last().unwrap().total, result.scanned_count);
    assert!(seen.iter().all(|p| p.current_file.is_some()));
}

#[test]
fn failures_are_counted_once_with_their_messages() {
    let mut run = ScanRun::new();
    run.record_walk_error("IO error for operation on /music/locked".to_string());
    run.begin(3);
    run.record_hash_failure("/music/a.wav", "permission denied");
    let p1 = run.finish_file(FileOutcome::HashFailed, "/music/a.wav", Some("a.wav".to_string()));
    assert_eq!(p1.current, 1);
    assert_eq!(p1.failed_count, 2);
    let p2 = run.finish_file(
        FileOutcome::Failed("Failed to read metadata".to_string()),
        "/music/b.wav",
        Some("b.wav".to_string()),
    );
    assert_eq!(p2.failed_count, 3);
    let p3 = run.finish_file(FileOutcome::Imported("t-c".to_string()), "/music/c.wav", None);
    assert_eq!(p3.current, 3);
    assert_eq!(p3.total, 3);
    assert_eq!(p3.imported_count, 1);
    assert_eq!(p3.current_file, None);
    let result = run.into_result();
    assert_eq!(result.failed_count, 3);
    assert_eq!(
        result.errors,
        vec![
            "IO error for operation on /music/locked".to_string(),
            "/music/a.wav: permission denied".to_string(),
            "/music/b.wav: Failed to read metadata".to_string(),
        ]
    );
    assert_eq!(result.imported_track_ids, vec!["t-c".to_string()]);
    assert_eq!(result.imported_count + result.skipped_existing_count + result.failed_count - 1, 3);
}

#[test]
fn a_failed_lookup_is_a_failed_file() {
    match lookup_outcome(ContentLookup::Failed("database is locked".to_string())) {
        Some(FileOutcome::Failed(m)) => assert_eq!(m, "database is locked"),
        _ => panic!("a failed lookup must fail the file"),
    }
    assert!(lookup_outcome(ContentLookup::Absent).is_none());
    assert!(matches!(lookup_outcome(ContentLookup::Found), Some(FileOutcome::Existing)));
}
