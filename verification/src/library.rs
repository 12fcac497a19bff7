//! Library bookkeeping: which files are importable, how an import or a folder
//! scan is tallied, the checks before a track is relocated, and the device's
//! music-folder setting.
use vstd::prelude::*;

use crate::error::CrateError;
use crate::text::{
    chars_of, concat, concat3, owned, str_eq, string_from_range, to_lowercase, unicode_lowercase,
};

verus! {

// ---------------------------------------------------------------------------
// Supported formats
// ---------------------------------------------------------------------------

/// The audio formats (lower-case file extensions) the library imports.
pub open spec fn is_supported_format(format: Seq<char>) -> bool {
    format == "mp3"@ || format == "wav"@ || format == "aiff"@ || format == "aif"@ || format
        == "flac"@ || format == "m4a"@ || format == "aac"@
}

/// The audio formats (lower-case file extensions) the library imports.
pub fn supported_audio_extensions() -> (v: Vec<&'static str>)
    ensures
        v@.len() == 7,
        v@[0]@ == "mp3"@,
        v@[1]@ == "wav"@,
        v@[2]@ == "aiff"@,
        v@[3]@ == "aif"@,
        v@[4]@ == "flac"@,
        v@[5]@ == "m4a"@,
        v@[6]@ == "aac"@,
        forall|f: Seq<char>| is_supported_format(f) <==> exists|i: int| 0 <= i < 7 && f == (#[trigger] v@[i])@,
{
    let mut v: Vec<&'static str> = Vec::new();
    v.push("mp3");
    v.push("wav");
    v.push("aiff");
    v.push("aif");
    v.push("flac");
    v.push("m4a");
    v.push("aac");
    proof {
        assert forall|f: Seq<char>| is_supported_format(f) implies exists|i: int|
            0 <= i < 7 && f == (#[trigger] v@[i])@ by {
            if f == "mp3"@ {
                assert(f == v@[0]@);
            } else if f == "wav"@ {
                assert(f == v@[1]@);
            } else if f == "aiff"@ {
                assert(f == v@[2]@);
            } else if f == "aif"@ {
                assert(f == v@[3]@);
            } else if f == "flac"@ {
                assert(f == v@[4]@);
            } else if f == "m4a"@ {
                assert(f == v@[5]@);
            } else {
                assert(f == v@[6]@);
            }
        }
    }
    v
}

/// Whether `format` is one of the supported audio formats.
pub fn is_supported_audio_format(format: &str) -> (b: bool)
    ensures
        b == is_supported_format(format@),
{
    str_eq(format, "mp3") || str_eq(format, "wav") || str_eq(format, "aiff") || str_eq(
        format,
        "aif",
    ) || str_eq(format, "flac") || str_eq(format, "m4a") || str_eq(format, "aac")
}

/// Index of the last `.` in `s`.
pub open spec fn last_dot(s: Seq<char>) -> Option<int>
    decreases s.len(),
{
    if s.len() == 0 {
        None
    } else if s.last() == '.' {
        Some(s.len() - 1)
    } else {
        last_dot(s.drop_last())
    }
}

/// The extension of a file name: the text after its final `.`; none when the name
/// has no `.`, or begins with `.` and has no other `.`.
pub open spec fn extension_of(file_name: Seq<char>) -> Option<Seq<char>> {
    match last_dot(file_name) {
        None => None,
        Some(i) => if i == 0 {
            None
        } else {
            Some(file_name.subrange(i + 1, file_name.len() as int))
        },
    }
}

/// The format of a file, from its file name: the lower-cased extension, or the
/// empty string when there is no file name or no extension.
pub open spec fn audio_format_of(file_name: Option<Seq<char>>) -> Seq<char> {
    match file_name {
        None => Seq::empty(),
        Some(n) => match extension_of(n) {
            None => Seq::empty(),
            Some(e) => unicode_lowercase(e),
        },
    }
}

proof fn lemma_last_dot_at(s: Seq<char>, k: int)
    requires
        -1 <= k < s.len(),
        forall|i: int| k < i < s.len() ==> #[trigger] s[i] != '.',
        k >= 0 ==> s[k] == '.',
    ensures
        last_dot(s) == (if k < 0 {
            None::<int>
        } else {
            Some(k)
        }),
    decreases s.len(),
{
    if s.len() > 0 && k != s.len() - 1 {
        let t = s.drop_last();
        assert forall|i: int| k < i < t.len() implies #[trigger] t[i] != '.' by {
            assert(t[i] == s[i]);
        }
        assert(s.last() != '.');
        if k >= 0 {
            assert(t[k] == s[k]);
        }
        lemma_last_dot_at(t, k);
    }
}

/// The extension of a file name.
pub fn extension(file_name: &str) -> (r: Option<String>)
    ensures
        r matches Some(e) ==> extension_of(file_name@) == Some(e@),
        r is None ==> extension_of(file_name@) is None,
{
    let chars = chars_of(file_name);
    let mut k = chars.len();
    while k > 0 && chars[k - 1] != '.'
        invariant
            k <= chars@.len(),
            forall|i: int| k <= i < chars@.len() ==> #[trigger] chars@[i] != '.',
        decreases k,
    {
        k = k - 1;
    }
    proof {
        lemma_last_dot_at(chars@, k - 1);
    }
    if k <= 1 {
        return None;
    }
    Some(string_from_range(chars.as_slice(), k, chars.len()))
}

/// The format of a file given its file name (the final component of its path).
pub fn audio_format(file_name: Option<&str>) -> (f: String)
    ensures
        f@ == audio_format_of(
            match file_name {
                Some(n) => Some(n@),
                None => None,
            },
        ),
{
    match file_name {
        None => String::new(),
        Some(n) => match extension(n) {
            None => String::new(),
            Some(e) => to_lowercase(e.as_str()),
        },
    }
}

// ---------------------------------------------------------------------------
// Importing files
// ---------------------------------------------------------------------------

/// The message recorded when one file of a batch fails: `"{path}: {error}"`.
pub open spec fn failure_message(path: Seq<char>, error: Seq<char>) -> Seq<char> {
    path + ": "@ + error
}

/// The checks before a file is read for import: it must exist, and its format
/// must be supported. Returns the file's format.
pub fn check_import_candidate(path: &str, exists: bool, file_name: Option<&str>) -> (r: Result<
    String,
    CrateError,
>)
    ensures
        !exists ==> (r matches Err(CrateError::FileNotFound(p)) && p@ == path@),
        exists && !is_supported_format(
            audio_format_of(
                match file_name {
                    Some(n) => Some(n@),
                    None => None,
                },
            ),
        ) ==> (r matches Err(CrateError::Import(m)) && m@ == "Unsupported format: "@
            + audio_format_of(
            match file_name {
                Some(n) => Some(n@),
                None => None,
            },
        )),
        exists && is_supported_format(
            audio_format_of(
                match file_name {
                    Some(n) => Some(n@),
                    None => None,
                },
            ),
        ) ==> (r matches Ok(f) && f@ == audio_format_of(
            match file_name {
                Some(n) => Some(n@),
                None => None,
            },
        )),
{
    if !exists {
        return Err(CrateError::FileNotFound(owned(path)));
    }
    let format = audio_format(file_name);
    if !is_supported_audio_format(format.as_str()) {
        return Err(CrateError::Import(concat("Unsupported format: ", format.as_str())));
    }
    Ok(format)
}

/// Outcome of importing a batch of files.
pub struct ImportResult<T> {
    pub tracks: Vec<T>,
    pub failed_count: usize,
    pub errors: Vec<String>,
}

/// Outcome of importing a batch of files with duplicate detection.
pub struct ImportResultWithDuplicates<T, D> {
    pub tracks: Vec<T>,
    pub failed_count: usize,
    pub errors: Vec<String>,
    pub duplicates: Vec<D>,
}

/// Running tally of a batch import: imported tracks, detected duplicates, and
/// one message per failed file.
pub struct ImportTally<T, D> {
    pub tracks: Vec<T>,
    pub duplicates: Vec<D>,
    pub errors: Vec<String>,
}

impl<T, D> ImportTally<T, D> {
    /// An empty tally.
    pub fn new() -> (t: Self)
        ensures
            t.tracks@.len() == 0,
            t.duplicates@.len() == 0,
            t.errors@.len() == 0,
    {
        ImportTally { tracks: Vec::new(), duplicates: Vec::new(), errors: Vec::new() }
    }

    /// Records an imported track.
    pub fn add_track(&mut self, track: T)
        ensures
            final(self).tracks@ == old(self).tracks@.push(track),
            final(self).duplicates@ == old(self).duplicates@,
            final(self).errors@ == old(self).errors@,
    {
        self.tracks.push(track);
    }

    /// Records a file whose content is already in the library.
    pub fn add_duplicate(&mut self, duplicate: D)
        ensures
            final(self).tracks@ == old(self).tracks@,
            final(self).duplicates@ == old(self).duplicates@.push(duplicate),
            final(self).errors@ == old(self).errors@,
    {
        self.duplicates.push(duplicate);
    }

    /// Records a failed file as `"{path}: {error}"`.
    pub fn add_failure(&mut self, path: &str, error: &str)
        ensures
            final(self).tracks@ == old(self).tracks@,
            final(self).duplicates@ == old(self).duplicates@,
            final(self).errors@.len() == old(self).errors@.len() + 1,
            forall|i: int|
                0 <= i < old(self).errors@.len() ==> #[trigger] final(self).errors@[i] == old(
                    self,
                ).errors@[i],
            final(self).errors@.last()@ == failure_message(path@, error@),
    {
        self.errors.push(concat3(path, ": ", error));
    }

    /// The result of an import without duplicate detection; the failure count is
    /// the number of error messages.
    pub fn into_import_result(self) -> (r: ImportResult<T>)
        ensures
            r.tracks@ == self.tracks@,
            r.errors@ == self.errors@,
            r.failed_count == self.errors@.len(),
    {
        let failed_count = self.errors.len();
        ImportResult { tracks: self.tracks, failed_count, errors: self.errors }
    }

    /// The result of an import with duplicate detection; the failure count is the
    /// number of error messages.
    pub fn into_result_with_duplicates(self) -> (r: ImportResultWithDuplicates<T, D>)
        ensures
            r.tracks@ == self.tracks@,
            r.duplicates@ == self.duplicates@,
            r.errors@ == self.errors@,
            r.failed_count == self.errors@.len(),
    {
        let failed_count = self.errors.len();
        ImportResultWithDuplicates {
            tracks: self.tracks,
            failed_count,
            errors: self.errors,
            duplicates: self.duplicates,
        }
    }
}

// ---------------------------------------------------------------------------
// Relocating a track to a replacement file
// ---------------------------------------------------------------------------

/// How a replacement file compares with the track it should replace.
#[derive(Debug, Clone)]
pub struct FileMatchResult {
    /// The replacement has the same content hash as the original.
    pub matches: bool,
    pub original_hash: Option<String>,
    pub new_hash: String,
    /// The replacement's format is supported.
    pub format_valid: bool,
}

/// The error for a file that should exist and does not.
pub fn file_not_found(path: &str) -> (e: CrateError)
    ensures
        e matches CrateError::FileNotFound(p) && p@ == path@,
{
    CrateError::FileNotFound(owned(path))
}

/// Compare a replacement file with the original track: the contents match when
/// the original has a hash equal to the replacement's; the format is valid when
/// it is supported.
pub fn replacement_file_match(
    original_hash: Option<String>,
    new_hash: String,
    new_file_name: Option<&str>,
) -> (r: FileMatchResult)
    ensures
        r.matches == (original_hash matches Some(h) && h@ == new_hash@),
        r.original_hash == original_hash,
        r.new_hash == new_hash,
        r.format_valid == is_supported_format(
            audio_format_of(
                match new_file_name {
                    Some(n) => Some(n@),
                    None => None,
                },
            ),
        ),
{
    let format = audio_format(new_file_name);
    let format_valid = is_supported_audio_format(format.as_str());
    let matches = match &original_hash {
        Some(h) => *h == new_hash,
        None => false,
    };
    FileMatchResult { matches, original_hash, new_hash, format_valid }
}

/// Whether a track may be moved to a validated replacement file. Without `force`,
/// a replacement whose content differs from a known original is refused; a file
/// of an unsupported format is refused in any case.
pub fn check_relocation(validation: &FileMatchResult, force: bool) -> (r: Result<(), CrateError>)
    ensures
        (!force && !validation.matches && validation.original_hash is Some) ==> (r matches Err(
            CrateError::Import(m),
        ) && m@ == "File content does not match original. Use force=true to override."@),
        !(!force && !validation.matches && validation.original_hash is Some)
            && !validation.format_valid ==> (r matches Err(CrateError::Import(m)) && m@
            == "Unsupported audio format"@),
        !(!force && !validation.matches && validation.original_hash is Some)
            && validation.format_valid ==> r is Ok,
{
    if !force && !validation.matches && validation.original_hash.is_some() {
        return Err(
            CrateError::Import(
                owned("File content does not match original. Use force=true to override."),
            ),
        );
    }
    if !validation.format_valid {
        return Err(CrateError::Import(owned("Unsupported audio format")));
    }
    Ok(())
}

// ---------------------------------------------------------------------------
// The device's music folder
// ---------------------------------------------------------------------------

/// Logical library root that represents this device's music folder.
pub const LOCAL_MUSIC_ROOT_ID: &'static str = "local-music-library";

/// Name stored on that root; it syncs, while each device maps its own folder.
pub const LOCAL_MUSIC_ROOT_NAME: &'static str = "Music Library";

/// Files imported within a single transaction of a folder scan.
pub const SCAN_BATCH_SIZE: usize = 32;

/// A folder can be chosen as the music folder only when it is a directory.
pub fn check_music_folder(path: &str, is_dir: bool) -> (r: Result<(), CrateError>)
    ensures
        !is_dir ==> (r matches Err(CrateError::InvalidOperation(m)) && m@ == "Not a directory: "@
            + path@),
        is_dir ==> r is Ok,
{
    if !is_dir {
        return Err(CrateError::InvalidOperation(concat("Not a directory: ", path)));
    }
    Ok(())
}

/// The folder read back after storing the music-folder mapping.
pub fn stored_music_folder(mapping: Option<String>) -> (r: Result<String, CrateError>)
    ensures
        match mapping {
            Some(p) => r matches Ok(q) && q@ == p@,
            None => r matches Err(CrateError::InvalidOperation(m)) && m@
                == "Failed to persist music library folder"@,
        },
{
    match mapping {
        Some(p) => Ok(p),
        None => Err(CrateError::InvalidOperation(owned("Failed to persist music library folder"))),
    }
}

/// The folder a scan walks: it must be configured and must be a directory.
pub fn check_scan_root(root: Option<String>, root_is_dir: bool) -> (r: Result<String, CrateError>)
    ensures
        match root {
            None => r matches Err(CrateError::InvalidOperation(m)) && m@
                == "No music library folder configured"@,
            Some(p) => if root_is_dir {
                r matches Ok(q) && q@ == p@
            } else {
                r matches Err(CrateError::InvalidOperation(m)) && m@
                    == "Music library folder is unavailable: "@ + p@
            },
        },
{
    match root {
        None => Err(CrateError::InvalidOperation(owned("No music library folder configured"))),
        Some(p) => {
            if !root_is_dir {
                return Err(
                    CrateError::InvalidOperation(
                        concat("Music library folder is unavailable: ", p.as_str()),
                    ),
                );
            }
            Ok(p)
        },
    }
}

// ---------------------------------------------------------------------------
// Folder scans
// ---------------------------------------------------------------------------

/// Outcome of a recursive scan of the device's music folder. Imported tracks are
/// reported by id.
#[derive(Debug, Clone)]
pub struct LibraryFolderScanResult {
    /// Supported audio files discovered.
    pub scanned_count: usize,
    pub imported_count: usize,
    /// Files whose content was already in the library.
    pub skipped_existing_count: usize,
    /// Failed directory entries and failed files.
    pub failed_count: usize,
    pub imported_track_ids: Vec<String>,
    /// One message per failure.
    pub errors: Vec<String>,
}

/// Progress reported after each file of a scan.
#[derive(Debug, Clone)]
pub struct LibraryScanProgress {
    /// Files processed so far, this one included.
    pub current: usize,
    /// Files the scan will process.
    pub total: usize,
    pub imported_count: usize,
    pub skipped_existing_count: usize,
    pub failed_count: usize,
    pub current_file: Option<String>,
}

/// Outcome of artwork re-extraction over the library.
#[derive(Debug, Clone)]
pub struct RescanResult {
    pub updated_count: usize,
    pub failed_count: usize,
}

/// What became of one discovered file, decided after its hash was attempted.
pub enum FileOutcome {
    /// Hashing the file failed (already recorded by `record_hash_failure`).
    HashFailed,
    /// A track with the same content hash is already in the library.
    Existing,
    /// The file was imported as the track with this id.
    Imported(String),
    /// Looking up, reading or inserting the file failed with this message.
    Failed(String),
}

/// What looking up a file's content hash in the library found.
pub enum ContentLookup {
    /// A track with the same content is already in the library.
    Found,
    /// No track has this content.
    Absent,
    /// The lookup failed with this message.
    Failed(String),
}

/// The outcome of a scanned file once its content hash has been looked up:
/// content already in the library is skipped silently (no error, no new track),
/// a failed lookup is a failed file, and `None` means the file is to be imported.
pub fn lookup_outcome(lookup: ContentLookup) -> (r: Option<FileOutcome>)
    ensures
        match lookup {
            ContentLookup::Found => r matches Some(FileOutcome::Existing),
            ContentLookup::Absent => r is None,
            ContentLookup::Failed(e) => r matches Some(FileOutcome::Failed(m)) && m@ == e@,
        },
{
    match lookup {
        ContentLookup::Found => Some(FileOutcome::Existing),
        ContentLookup::Absent => None,
        ContentLookup::Failed(e) => Some(FileOutcome::Failed(e)),
    }
}

/// The state of a folder scan in progress.
pub struct ScanRun {
    pub result: LibraryFolderScanResult,
    /// Directory entries that could not be read.
    pub walk_failures: usize,
    /// Files whose outcome has been recorded.
    pub processed: usize,
    /// Files whose hash failed and whose outcome is not yet recorded.
    pub pending_hash_failures: usize,
}

impl ScanRun {
    /// The counters are consistent: one message per failure, one id per import,
    /// and every processed or pending file counted exactly once among imported,
    /// skipped and failed files.
    pub open spec fn wf(&self) -> bool {
        &&& self.result.errors@.len() == self.result.failed_count
        &&& self.result.imported_track_ids@.len() == self.result.imported_count
        &&& self.walk_failures <= self.result.failed_count
        &&& self.result.imported_count + self.result.skipped_existing_count + (
        self.result.failed_count - self.walk_failures) == self.processed
            + self.pending_hash_failures
        &&& self.processed + self.pending_hash_failures <= self.result.scanned_count
    }

    /// A scan that has discovered nothing yet.
    pub fn new() -> (s: Self)
        ensures
            s.wf(),
            s.processed == 0,
            s.pending_hash_failures == 0,
            s.walk_failures == 0,
            s.result.scanned_count == 0,
            s.result.imported_count == 0,
            s.result.skipped_existing_count == 0,
            s.result.failed_count == 0,
    {
        ScanRun {
            result: LibraryFolderScanResult {
                scanned_count: 0,
                imported_count: 0,
                skipped_existing_count: 0,
                failed_count: 0,
                imported_track_ids: Vec::new(),
                errors: Vec::new(),
            },
            walk_failures: 0,
            processed: 0,
            pending_hash_failures: 0,
        }
    }

    /// Records a directory entry that could not be read.
    pub fn record_walk_error(&mut self, message: String)
        requires
            old(self).wf(),
            old(self).result.failed_count < usize::MAX,
        ensures
            final(self).wf(),
            final(self).result.failed_count == old(self).result.failed_count + 1,
            final(self).walk_failures == old(self).walk_failures + 1,
            final(self).result.errors@ == old(self).result.errors@.push(message),
            final(self).processed == old(self).processed,
            final(self).pending_hash_failures == old(self).pending_hash_failures,
            final(self).result.scanned_count == old(self).result.scanned_count,
            final(self).result.imported_count == old(self).result.imported_count,
            final(self).result.skipped_existing_count == old(self).result.skipped_existing_count,
            final(self).result.imported_track_ids@ == old(self).result.imported_track_ids@,
    {
        self.result.failed_count = self.result.failed_count + 1;
        self.walk_failures = self.walk_failures + 1;
        self.result.errors.push(message);
    }

    /// Records how many supported files were discovered; processing starts.
    pub fn begin(&mut self, scanned_count: usize)
        requires
            old(self).wf(),
            old(self).processed == 0,
            old(self).pending_hash_failures == 0,
        ensures
            final(self).wf(),
            final(self).result.scanned_count == scanned_count,
            final(self).processed == 0,
            final(self).pending_hash_failures == 0,
            final(self).walk_failures == old(self).walk_failures,
            final(self).result.failed_count == old(self).result.failed_count,
            final(self).result.errors@ == old(self).result.errors@,
            final(self).result.imported_count == old(self).result.imported_count,
            final(self).result.skipped_existing_count == old(self).result.skipped_existing_count,
            final(self).result.imported_track_ids@ == old(self).result.imported_track_ids@,
    {
        self.result.scanned_count = scanned_count;
    }

    /// Records that hashing a not-yet-processed file failed, as
    /// `"{path}: {error}"`. Its outcome is recorded later as `HashFailed`.
    pub fn record_hash_failure(&mut self, path: &str, error: &str)
        requires
            old(self).wf(),
            old(self).processed + old(self).pending_hash_failures < old(self).result.scanned_count,
            old(self).result.failed_count < usize::MAX,
        ensures
            final(self).wf(),
            final(self).result.failed_count == old(self).result.failed_count + 1,
            final(self).result.errors@.len() == old(self).result.errors@.len() + 1,
            final(self).result.errors@.last()@ == failure_message(path@, error@),
            final(self).pending_hash_failures == old(self).pending_hash_failures + 1,
            final(self).processed == old(self).processed,
            final(self).walk_failures == old(self).walk_failures,
            final(self).result.scanned_count == old(self).result.scanned_count,
            final(self).result.imported_count == old(self).result.imported_count,
            final(self).result.skipped_existing_count == old(self).result.skipped_existing_count,
            final(self).result.imported_track_ids@ == old(self).result.imported_track_ids@,
    {
        self.result.failed_count = self.result.failed_count + 1;
        self.pending_hash_failures = self.pending_hash_failures + 1;
        self.result.errors.push(concat3(path, ": ", error));
    }

    /// Records the outcome of the next file and returns the progress to report.
    pub fn finish_file(&mut self, outcome: FileOutcome, path: &str, file_name: Option<String>) -> (p:
        LibraryScanProgress)
        requires
            old(self).wf(),
            match outcome {
                FileOutcome::HashFailed => old(self).pending_hash_failures > 0,
                _ => old(self).processed + old(self).pending_hash_failures < old(
                    self,
                ).result.scanned_count && old(self).result.failed_count < usize::MAX,
            },
        ensures
            final(self).wf(),
            final(self).processed == old(self).processed + 1,
            final(self).walk_failures == old(self).walk_failures,
            final(self).result.scanned_count == old(self).result.scanned_count,
            match outcome {
                FileOutcome::HashFailed => {
                    &&& final(self).pending_hash_failures == old(self).pending_hash_failures - 1
                    &&& final(self).result.imported_count == old(self).result.imported_count
                    &&& final(self).result.skipped_existing_count == old(
                        self,
                    ).result.skipped_existing_count
                    &&& final(self).result.failed_count == old(self).result.failed_count
                    &&& final(self).result.errors@ == old(self).result.errors@
                    &&& final(self).result.imported_track_ids@ == old(
                        self,
                    ).result.imported_track_ids@
                },
                FileOutcome::Existing => {
                    &&& final(self).pending_hash_failures == old(self).pending_hash_failures
                    &&& final(self).result.imported_count == old(self).result.imported_count
                    &&& final(self).result.skipped_existing_count == old(
                        self,
                    ).result.skipped_existing_count + 1
                    &&& final(self).result.failed_count == old(self).result.failed_count
                    &&& final(self).result.errors@ == old(self).result.errors@
                    &&& final(self).result.imported_track_ids@ == old(
                        self,
                    ).result.imported_track_ids@
                },
                FileOutcome::Imported(id) => {
                    &&& final(self).pending_hash_failures == old(self).pending_hash_failures
                    &&& final(self).result.imported_count == old(self).result.imported_count + 1
                    &&& final(self).result.skipped_existing_count == old(
                        self,
                    ).result.skipped_existing_count
                    &&& final(self).result.failed_count == old(self).result.failed_count
                    &&& final(self).result.errors@ == old(self).result.errors@
                    &&& final(self).result.imported_track_ids@ == old(
                        self,
                    ).result.imported_track_ids@.push(id)
                },
                FileOutcome::Failed(e) => {
                    &&& final(self).pending_hash_failures == old(self).pending_hash_failures
                    &&& final(self).result.imported_count == old(self).result.imported_count
                    &&& final(self).result.skipped_existing_count == old(
                        self,
                    ).result.skipped_existing_count
                    &&& final(self).result.failed_count == old(self).result.failed_count + 1
                    &&& final(self).result.errors@.len() == old(self).result.errors@.len() + 1
                    &&& final(self).result.errors@.last()@ == failure_message(path@, e@)
                    &&& final(self).result.imported_track_ids@ == old(
                        self,
                    ).result.imported_track_ids@
                },
            },
            p.current == final(self).processed,
            p.total == final(self).result.scanned_count,
            p.imported_count == final(self).result.imported_count,
            p.skipped_existing_count == final(self).result.skipped_existing_count,
            p.failed_count == final(self).result.failed_count,
            p.current_file == file_name,
    {
        match outcome {
            FileOutcome::HashFailed => {
                self.pending_hash_failures = self.pending_hash_failures - 1;
            },
            FileOutcome::Existing => {
                self.result.skipped_existing_count = self.result.skipped_existing_count + 1;
            },
            FileOutcome::Imported(id) => {
                self.result.imported_count = self.result.imported_count + 1;
                self.result.imported_track_ids.push(id);
            },
            FileOutcome::Failed(e) => {
                self.result.failed_count = self.result.failed_count + 1;
                self.result.errors.push(concat3(path, ": ", e.as_str()));
            },
        }
        self.processed = self.processed + 1;
        LibraryScanProgress {
            current: self.processed,
            total: self.result.scanned_count,
            imported_count: self.result.imported_count,
            skipped_existing_count: self.result.skipped_existing_count,
            failed_count: self.result.failed_count,
            current_file: file_name,
        }
    }

    /// The scan's result.
    pub fn into_result(self) -> (r: LibraryFolderScanResult)
        ensures
            r == self.result,
    {
        self.result
    }
}

/// When every discovered file has been processed, each was counted exactly once
/// as imported, skipped or failed, besides the unreadable directory entries; and
/// the scan reports one message per failure and one id per imported track.
pub proof fn lemma_scan_accounts_for_every_file(run: ScanRun)
    requires
        run.wf(),
        run.processed == run.result.scanned_count,
        run.pending_hash_failures == 0,
    ensures
        run.result.imported_count + run.result.skipped_existing_count + (run.result.failed_count
            - run.walk_failures) == run.result.scanned_count,
        run.result.errors@.len() == run.result.failed_count,
        run.result.imported_track_ids@.len() == run.result.imported_count,
{
}

} // verus!
