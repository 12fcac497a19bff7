//! Library-root path resolution.
//!
//! A synced track carries a logical `(library_root_id, relative_path)` pair; each
//! device maps a root id to a local absolute folder. Resolution joins the two.
//! When no mapping resolves (or the file is missing) the track is `Unavailable`
//! on this device. Tracks with no root association fall back to their absolute
//! `file_path`.
use vstd::prelude::*;
use vstd::string::StrSliceExecFns;

use crate::text::ends_with;

verus! {

/// Where a track resolves on this device.
#[derive(Debug, Clone, PartialEq, Eq)]
pub enum ResolvedPath {
    /// Present and playable at this absolute path.
    Playable(String),
    /// No local file resolves (unmapped root, or missing file).
    Unavailable,
}

/// A device-local mapping from a library root to an absolute folder.
#[derive(Debug, Clone)]
pub struct RootMapping {
    pub library_root_id: String,
    pub local_absolute_path: String,
}

// ---------------------------------------------------------------------------
// Path operations of the platform
// ---------------------------------------------------------------------------

/// Length of the text before the first `/` of `s` (all of `s` when there is none).
pub open spec fn piece_len(s: Seq<char>) -> nat
    decreases s.len(),
{
    if s.len() == 0 || s[0] == '/' {
        0
    } else {
        1 + piece_len(s.drop_first())
    }
}

/// A piece never runs past the end of the text.
pub proof fn lemma_piece_len_bound(s: Seq<char>)
    ensures
        piece_len(s) <= s.len(),
    decreases s.len(),
{
    if s.len() > 0 && s[0] != '/' {
        lemma_piece_len_bound(s.drop_first());
    }
}

/// The pieces of `s` between `/` characters, empty pieces included.
pub open spec fn slash_pieces(s: Seq<char>) -> Seq<Seq<char>>
    decreases s.len(),
{
    proof {
        lemma_piece_len_bound(s);
    }
    if piece_len(s) == s.len() {
        seq![s]
    } else {
        seq![s.take(piece_len(s) as int)] + slash_pieces(s.skip(piece_len(s) + 1int))
    }
}

/// A piece that names a file or folder: neither empty nor `.`.
pub open spec fn is_normal_piece(p: Seq<char>) -> bool {
    p.len() > 0 && p != "."@
}

/// A path written the same way on every platform: no `\`, no `:`, and no
/// leading `//` (which some platforms read as a network share).
pub open spec fn portable_path(s: Seq<char>) -> bool {
    &&& !s.contains('\\')
    &&& !s.contains(':')
    &&& !(s.len() >= 2 && s[0] == '/' && s[1] == '/')
}

/// The components of a portable path, as `std::path::Components` documents
/// them: a leading `/` is the root (written `"/"` here), repeated separators are
/// ignored, and `.` is dropped except at the beginning of a relative path.
pub open spec fn path_components(s: Seq<char>) -> Seq<Seq<char>> {
    let pieces = slash_pieces(s);
    if s.len() > 0 && s[0] == '/' {
        seq![seq!['/']] + pieces.filter(|p: Seq<char>| is_normal_piece(p))
    } else if pieces[0] == "."@ {
        seq!["."@] + pieces.drop_first().filter(|p: Seq<char>| is_normal_piece(p))
    } else {
        pieces.filter(|p: Seq<char>| is_normal_piece(p))
    }
}

/// `result` is what `Path::strip_prefix` gives for `path` and `base`, as far as
/// its documentation states it for portable paths: `Some` exactly when the
/// components of `base` begin those of `path`, and then a path that, joined onto
/// `base`, gives `path` back (its components are the rest of `path`'s).
pub open spec fn prefix_result(path: Seq<char>, base: Seq<char>, result: Option<String>) -> bool {
    portable_path(path) && portable_path(base) ==> {
        &&& (result is Some == path_components(base).is_prefix_of(path_components(path)))
        &&& (result matches Some(rel) ==> path_components(rel@) == path_components(path).skip(
            path_components(base).len() as int,
        ))
    }
}

/// Calls `Path::strip_prefix` and converts the remainder to a `String`. Whether a
/// folder is a prefix is decided component by component (so `/music` is not a
/// prefix of `/music-other/a.mp3`). For paths that every platform reads alike,
/// the result is stated as std documents it; for others it is left open.
#[verifier::external_body]
fn strip_path_prefix(path: &str, base: &str) -> (r: Option<String>)
    ensures
        prefix_result(path@, base@, r),
{
    std::path::Path::new(path).strip_prefix(base).ok().map(|p| p.to_string_lossy().to_string())
}

/// `result` is what `Path::join` gives for `base` and `relative`, as far as std
/// documents it on every platform: it ends with `relative` (an absolute
/// `relative` replaces `base`) unless `base` holds a `\`; and when both are
/// portable and `relative` is relative, it is `base`, then a separator where
/// `base` does not end in one, then `relative`.
pub open spec fn join_result(base: Seq<char>, relative: Seq<char>, result: Seq<char>) -> bool {
    &&& !base.contains('\\') ==> ends_with(result, relative)
    &&& (portable_path(base) && !relative.contains(':') && !relative.contains('\\') && !(
    relative.len() > 0 && relative[0] == '/')) ==> (result == base + relative || result == base
        + seq!['/'] + relative || result == base + seq!['\\'] + relative)
}

/// Calls `Path::join` and converts the result to a `String`; what every platform
/// shares of the result is stated by `join_result`.
#[verifier::external_body]
fn join_path(base: &str, relative: &str) -> (r: String)
    ensures
        join_result(base@, relative@, r@),
{
    std::path::Path::new(base).join(relative).to_string_lossy().to_string()
}

// ---------------------------------------------------------------------------
// Choosing the root of a file at import time
// ---------------------------------------------------------------------------

/// The length of a mapping's folder, in characters.
pub open spec fn mapped_len(m: RootMapping) -> nat {
    m.local_absolute_path@.len()
}

/// Mapping `i` matches (its folder is a prefix of the file) and no matching
/// mapping has a longer folder, nor one of equal length earlier in the list.
pub open spec fn is_most_specific(
    mappings: Seq<RootMapping>,
    stripped: Seq<Option<String>>,
    i: int,
) -> bool {
    &&& 0 <= i < mappings.len()
    &&& stripped[i] is Some
    &&& forall|j: int|
        0 <= j < mappings.len() && (#[trigger] stripped[j]) is Some ==> mapped_len(mappings[j])
            <= mapped_len(mappings[i])
    &&& forall|j: int|
        0 <= j < i && (#[trigger] stripped[j]) is Some ==> mapped_len(mappings[j]) < mapped_len(
            mappings[i],
        )
}

/// `r` is the root assignment for the given prefix tests: `(None, None)` when no
/// mapping matches; otherwise the id of the most specific matching mapping and the
/// file's path relative to its folder.
pub open spec fn is_root_choice(
    mappings: Seq<RootMapping>,
    stripped: Seq<Option<String>>,
    r: (Option<String>, Option<String>),
) -> bool {
    &&& (forall|j: int| 0 <= j < stripped.len() ==> (#[trigger] stripped[j]) is None) ==> (r.0 is None
        && r.1 is None)
    &&& (exists|j: int| 0 <= j < stripped.len() && (#[trigger] stripped[j]) is Some) ==> (exists|
        i: int,
    |
        is_most_specific(mappings, stripped, i) && (r.0 matches Some(id) && id@
            == mappings[i].library_root_id@) && (r.1 matches Some(rel) && stripped[i] matches Some(s)
            && rel@ == s@))
}

/// The root and relative path assigned to a file, given for each mapping the
/// file's path relative to the mapped folder (`None` when the folder is not a
/// prefix of the file): the most specific matching mapping wins, so nested roots
/// resolve deterministically; `(None, None)` when no mapping matches.
pub fn choose_root(mappings: &Vec<RootMapping>, stripped: &Vec<Option<String>>) -> (r: (
    Option<String>,
    Option<String>,
))
    requires
        mappings@.len() == stripped@.len(),
    ensures
        is_root_choice(mappings@, stripped@, r),
{
    let mut best: Option<usize> = None;
    let mut i: usize = 0;
    while i < mappings.len()
        invariant
            i <= mappings@.len(),
            mappings@.len() == stripped@.len(),
            match best {
                None => forall|j: int| 0 <= j < i ==> (#[trigger] stripped@[j]) is None,
                Some(b) => b < i && is_most_specific(mappings@.take(i as int), stripped@.take(
                    i as int,
                ), b as int),
            },
        decreases mappings@.len() - i,
    {
        let ghost prev = best;
        if stripped[i].is_some() {
            let better = match best {
                None => true,
                Some(b) => mappings[b].local_absolute_path.as_str().unicode_len()
                    < mappings[i].local_absolute_path.as_str().unicode_len(),
            };
            if better {
                best = Some(i);
            }
        }
        proof {
            let m1 = mappings@.take(i + 1);
            let s1 = stripped@.take(i + 1);
            assert forall|j: int| 0 <= j < i + 1 implies #[trigger] m1[j] == mappings@[j]
                && s1[j] == stripped@[j] by {}
            match prev {
                Some(b) => {
                    let m0 = mappings@.take(i as int);
                    let s0 = stripped@.take(i as int);
                    assert forall|j: int| 0 <= j < i implies #[trigger] m0[j] == mappings@[j]
                        && s0[j] == stripped@[j] by {}
                    assert(forall|j: int|
                        0 <= j < i && (#[trigger] s0[j]) is Some ==> mapped_len(m0[j]) <= mapped_len(
                            m0[b as int],
                        ));
                },
                None => {},
            }
            match best {
                Some(b) => {
                    assert(is_most_specific(m1, s1, b as int));
                },
                None => {},
            }
        }
        i = i + 1;
    }
    proof {
        assert(mappings@.take(mappings@.len() as int) =~= mappings@);
        assert(stripped@.take(stripped@.len() as int) =~= stripped@);
    }
    match best {
        None => (None, None),
        Some(b) => {
            let rel = match &stripped[b] {
                Some(s) => s.clone(),
                None => String::new(),
            };
            (Some(mappings[b].library_root_id.clone()), Some(rel))
        },
    }
}

/// Nested roots resolve to the most specific one: a mapping whose folder is
/// shorter than that of another matching mapping is never chosen.
pub proof fn lemma_most_specific_root_wins(
    mappings: Seq<RootMapping>,
    stripped: Seq<Option<String>>,
    shorter: int,
    longer: int,
)
    requires
        mappings.len() == stripped.len(),
        0 <= longer < mappings.len(),
        stripped[longer] is Some,
        mapped_len(mappings[shorter]) < mapped_len(mappings[longer]),
    ensures
        !is_most_specific(mappings, stripped, shorter),
{
    if is_most_specific(mappings, stripped, shorter) {
        assert(mapped_len(mappings[longer]) <= mapped_len(mappings[shorter]));
    }
}

/// Two mappings that are both most specific are the same mapping.
pub proof fn lemma_most_specific_is_unique(
    mappings: Seq<RootMapping>,
    stripped: Seq<Option<String>>,
    a: int,
    b: int,
)
    requires
        is_most_specific(mappings, stripped, a),
        is_most_specific(mappings, stripped, b),
    ensures
        a == b,
{
    if a < b {
        assert(mapped_len(mappings[a]) < mapped_len(mappings[b]));
        assert(mapped_len(mappings[a]) <= mapped_len(mappings[b]));
        assert(mapped_len(mappings[b]) <= mapped_len(mappings[a]));
    } else if b < a {
        assert(mapped_len(mappings[b]) < mapped_len(mappings[a]));
        assert(mapped_len(mappings[a]) <= mapped_len(mappings[b]));
    }
}

/// Decide whether `canonical_file` falls under a mapped library root. Returns
/// `(library_root_id, relative_path)` of the most specific mapping whose folder
/// is a prefix of the file, or `(None, None)` when none is (a device-local track).
pub fn assign_root(mappings: &Vec<RootMapping>, canonical_file: &str) -> (r: (
    Option<String>,
    Option<String>,
))
    ensures
        exists|stripped: Seq<Option<String>>|
            #![trigger is_root_choice(mappings@, stripped, r)]
            stripped.len() == mappings@.len() && is_root_choice(mappings@, stripped, r) && forall|
                i: int,
            |
                0 <= i < mappings@.len() ==> prefix_result(
                    canonical_file@,
                    (#[trigger] mappings@[i]).local_absolute_path@,
                    stripped[i],
                ),
{
    let mut stripped: Vec<Option<String>> = Vec::new();
    let mut i: usize = 0;
    while i < mappings.len()
        invariant
            i <= mappings@.len(),
            stripped@.len() == i,
            forall|j: int|
                0 <= j < i ==> prefix_result(
                    canonical_file@,
                    (#[trigger] mappings@[j]).local_absolute_path@,
                    stripped@[j],
                ),
        decreases mappings@.len() - i,
    {
        stripped.push(strip_path_prefix(canonical_file, mappings[i].local_absolute_path.as_str()));
        i = i + 1;
    }
    let r = choose_root(mappings, &stripped);
    assert(is_root_choice(mappings@, stripped@, r));
    r
}

/// The folder of mapping `m` is, component by component, a prefix of `file`.
pub open spec fn folder_is_prefix(m: RootMapping, file: Seq<char>) -> bool {
    path_components(m.local_absolute_path@).is_prefix_of(path_components(file))
}

/// The rule of root assignment at import, for paths every platform reads alike:
/// a file stays device-local exactly when no mapped folder is a component prefix
/// of it; otherwise it goes to a mapping whose folder is such a prefix and is
/// longest among them, with the rest of the file's components as its relative
/// path. `assign_root` gives a result of which this holds.
pub proof fn lemma_import_assignment_rule(
    mappings: Seq<RootMapping>,
    file: Seq<char>,
    stripped: Seq<Option<String>>,
    r: (Option<String>, Option<String>),
)
    requires
        stripped.len() == mappings.len(),
        is_root_choice(mappings, stripped, r),
        portable_path(file),
        forall|i: int|
            0 <= i < mappings.len() ==> portable_path((#[trigger] mappings[i]).local_absolute_path@),
        forall|i: int|
            0 <= i < mappings.len() ==> prefix_result(
                file,
                (#[trigger] mappings[i]).local_absolute_path@,
                stripped[i],
            ),
    ensures
        r.0 is None <==> forall|i: int|
            0 <= i < mappings.len() ==> !folder_is_prefix(#[trigger] mappings[i], file),
        r.0 matches Some(id) ==> exists|i: int|
            #![trigger mappings[i]]
            0 <= i < mappings.len() && id@ == mappings[i].library_root_id@ && folder_is_prefix(
                mappings[i],
                file,
            ) && (forall|j: int|
                0 <= j < mappings.len() && folder_is_prefix(#[trigger] mappings[j], file)
                    ==> mapped_len(mappings[j]) <= mapped_len(mappings[i])) && (r.1 matches Some(
                rel,
            ) && path_components(rel@) == path_components(file).skip(
                path_components(mappings[i].local_absolute_path@).len() as int,
            )),
{
    assert forall|i: int| 0 <= i < mappings.len() implies (stripped[i] is Some
        == folder_is_prefix(#[trigger] mappings[i], file)) by {
        assert(prefix_result(file, mappings[i].local_absolute_path@, stripped[i]));
    }
    if exists|j: int| 0 <= j < stripped.len() && (#[trigger] stripped[j]) is Some {
        let i = choose|i: int|
            is_most_specific(mappings, stripped, i) && (r.0 matches Some(id) && id@
                == mappings[i].library_root_id@) && (r.1 matches Some(rel) && stripped[i] matches Some(
                s,
            ) && rel@ == s@);
        assert(prefix_result(file, mappings[i].local_absolute_path@, stripped[i]));
        assert(folder_is_prefix(mappings[i], file));
        assert forall|j: int|
            0 <= j < mappings.len() && folder_is_prefix(#[trigger] mappings[j], file) implies mapped_len(
            mappings[j],
        ) <= mapped_len(mappings[i]) by {
            assert(stripped[j] is Some);
        }
    } else {
        assert forall|i: int| 0 <= i < mappings.len() implies !folder_is_prefix(
            #[trigger] mappings[i],
            file,
        ) by {
            assert(stripped[i] is None);
        }
    }
}

// ---------------------------------------------------------------------------
// Resolving a track on this device
// ---------------------------------------------------------------------------

/// Where to look for a track's file on this device. A rooted track is looked for
/// under its root's local folder, and has nowhere to be looked for when the root
/// is not mapped here; any other track is looked for at its absolute path.
pub fn resolution_candidate(
    library_root_id: Option<&str>,
    relative_path: Option<&str>,
    file_path: &str,
    mapped_folder: Option<&str>,
) -> (c: Option<String>)
    ensures
        library_root_id is Some && relative_path is Some && mapped_folder is None ==> c is None,
        library_root_id is Some && relative_path is Some && mapped_folder is Some ==> (c matches Some(
            p,
        ) && join_result(mapped_folder->0@, relative_path->0@, p@)),
        !(library_root_id is Some && relative_path is Some) ==> (c matches Some(p) && p@
            == file_path@),
{
    match (library_root_id, relative_path) {
        (Some(_), Some(rel)) => match mapped_folder {
            Some(root) => Some(join_path(root, rel)),
            None => None,
        },
        _ => Some(file_path.to_owned()),
    }
}

/// The resolution of a track given where it was looked for and whether a file
/// exists there.
pub fn resolved_path(candidate: Option<String>, exists: bool) -> (r: ResolvedPath)
    ensures
        match candidate {
            Some(p) => if exists {
                r matches ResolvedPath::Playable(q) && q@ == p@
            } else {
                r is Unavailable
            },
            None => r is Unavailable,
        },
{
    match candidate {
        Some(p) => if exists {
            ResolvedPath::Playable(p)
        } else {
            ResolvedPath::Unavailable
        },
        None => ResolvedPath::Unavailable,
    }
}

// ---------------------------------------------------------------------------
// Identifiers of new roots
// ---------------------------------------------------------------------------

/// `c` is a lower-case hexadecimal digit.
pub open spec fn is_lower_hex(c: char) -> bool {
    ('0' <= c && c <= '9') || ('a' <= c && c <= 'f')
}

/// `s` is a version-4 UUID in lower-case hyphenated form.
pub open spec fn is_hyphenated_uuid_v4(s: Seq<char>) -> bool {
    &&& s.len() == 36
    &&& forall|i: int|
        0 <= i < 36 ==> if i == 8 || i == 13 || i == 18 || i == 23 {
            s[i] == '-'
        } else {
            is_lower_hex(#[trigger] s[i])
        }
    &&& s[14] == '4'
    &&& (s[19] == '8' || s[19] == '9' || s[19] == 'a' || s[19] == 'b')
}

/// Calls `uuid::Uuid::new_v4` and formats it with `to_string`. The value is
/// random; the uuid crate sets the version nibble to 4 and the variant bits to
/// `10`, and `Display` writes the lower-case hyphenated form.
#[verifier::external_body]
fn random_uuid_string() -> (s: String)
    ensures
        is_hyphenated_uuid_v4(s@),
{
    uuid::Uuid::new_v4().to_string()
}

/// A fresh identifier for a library root registered on this device.
pub fn new_root_id() -> (id: String)
    ensures
        is_hyphenated_uuid_v4(id@),
{
    random_uuid_string()
}

} // verus!
