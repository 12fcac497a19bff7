//! Removable-device management: volume naming rules, identification of volumes
//! from system-tool output, the device list shown to the user, and the
//! messages reported when an eject or a reformat fails.
use vstd::prelude::*;

use crate::error::CrateError;
use crate::resolution::portable_path;
use crate::text::{
    char_is_whitespace, chars_of, concat, concat3, contains, contains_seq, find_first, find_from,
    ends_with, has_prefix, has_suffix, is_first_occurrence, is_whitespace, matches_at, occurs_at, owned, starts_with, str_eq, push_char, string_from_range, to_uppercase, trim,
    trim_end_by, trim_range, trim_string, unicode_uppercase,
};

verus! {

// ---------------------------------------------------------------------------
// FAT32 volume names
// ---------------------------------------------------------------------------

/// Maximum length of a FAT32 volume label.
pub const FAT32_VOLUME_NAME_MAX: usize = 11;

/// `c` is an ASCII letter or digit.
pub open spec fn is_ascii_alnum(c: char) -> bool {
    ('A' <= c && c <= 'Z') || ('a' <= c && c <= 'z') || ('0' <= c && c <= '9')
}

/// `c` may appear in a sanitized FAT32 volume label.
pub open spec fn is_fat32_char(c: char) -> bool {
    is_ascii_alnum(c) || c == ' ' || c == '_'
}

/// The characters of `s` that may appear in a FAT32 label, in order.
pub open spec fn keep_fat32_chars(s: Seq<char>) -> Seq<char>
    decreases s.len(),
{
    if s.len() == 0 {
        Seq::empty()
    } else if is_fat32_char(s.last()) {
        keep_fat32_chars(s.drop_last()).push(s.last())
    } else {
        keep_fat32_chars(s.drop_last())
    }
}

/// The first `n` elements of `s` (all of `s` when it is shorter).
pub open spec fn take_at_most(s: Seq<char>, n: nat) -> Seq<char> {
    if s.len() > n {
        s.subrange(0, n as int)
    } else {
        s
    }
}

/// The label a requested volume name becomes: trimmed, upper-cased, reduced to
/// ASCII letters, digits, spaces and underscores, and cut to 11 characters.
pub open spec fn fat32_volume_name(name: Seq<char>) -> Seq<char> {
    take_at_most(keep_fat32_chars(unicode_uppercase(trim(name))), FAT32_VOLUME_NAME_MAX as nat)
}

fn exec_is_fat32_char(c: char) -> (b: bool)
    ensures
        b == is_fat32_char(c),
{
    ('A' <= c && c <= 'Z') || ('a' <= c && c <= 'z') || ('0' <= c && c <= '9') || c == ' ' || c
        == '_'
}

/// The sanitized FAT32 label for `s` (no trimming or case mapping).
fn sanitize_fat32_chars(s: &[char]) -> (r: String)
    ensures
        r@ == take_at_most(keep_fat32_chars(s@), FAT32_VOLUME_NAME_MAX as nat),
{
    let mut out = String::new();
    let mut n: usize = 0;
    let mut i: usize = 0;
    while i < s.len()
        invariant
            i <= s@.len(),
            n == out@.len(),
            out@ == take_at_most(keep_fat32_chars(s@.subrange(0, i as int)), 11),
        decreases s@.len() - i,
    {
        let c = s[i];
        proof {
            let p = s@.subrange(0, i as int);
            assert(s@.subrange(0, i + 1).drop_last() =~= p);
            assert(s@.subrange(0, i + 1).last() == c);
        }
        if n < FAT32_VOLUME_NAME_MAX && exec_is_fat32_char(c) {
            push_char(&mut out, c);
            n = n + 1;
        }
        i = i + 1;
    }
    assert(s@.subrange(0, s@.len() as int) =~= s@);
    out
}

/// Validate and sanitize a volume name for FAT32: at most 11 characters,
/// upper case, and only `A-Z`, `0-9`, space and underscore.
pub fn validate_fat32_volume_name(name: &str) -> (r: Result<String, CrateError>)
    ensures
        trim(name@).len() == 0 ==> (r matches Err(CrateError::Device(m))
            && m@ == "Volume name cannot be empty"@),
        trim(name@).len() > 0 && fat32_volume_name(name@).len() == 0 ==> (r matches Err(
            CrateError::Device(m),
        ) && m@ == "Volume name contains no valid characters"@),
        trim(name@).len() > 0 && fat32_volume_name(name@).len() > 0 ==> (r matches Ok(v)
            && v@ == fat32_volume_name(name@)),
{
    let trimmed = trim_string(name);
    if trimmed.as_str().is_empty() {
        return Err(CrateError::Device(owned("Volume name cannot be empty")));
    }
    let upper = to_uppercase(trimmed.as_str());
    let chars = chars_of(upper.as_str());
    let sanitized = sanitize_fat32_chars(chars.as_slice());
    if sanitized.as_str().is_empty() {
        return Err(CrateError::Device(owned("Volume name contains no valid characters")));
    }
    Ok(sanitized)
}

/// Keeping the FAT32 characters of a text is filtering them out of it, in order.
proof fn lemma_keep_is_filter(s: Seq<char>)
    ensures
        keep_fat32_chars(s) == s.filter(|c: char| is_fat32_char(c)),
    decreases s.len(),
{
    reveal(Seq::filter);
    let f = |c: char| is_fat32_char(c);
    if s.len() > 0 {
        lemma_keep_is_filter(s.drop_last());
        assert(s.filter(f) == (if f(s.last()) {
            s.drop_last().filter(f).push(s.last())
        } else {
            s.drop_last().filter(f)
        }));
    } else {
        assert(s.filter(f) == s);
    }
}

/// The label of a name is made from its valid characters first and cut second:
/// it is the first (at most) 11 of the valid characters (`A-Z`, `a-z`, `0-9`,
/// space, `_`) of the trimmed, upper-cased name, so every valid character is kept
/// when there are at most 11 of them.
pub proof fn lemma_fat32_name_filters_then_cuts(name: Seq<char>)
    ensures
        ({
            let valid = unicode_uppercase(trim(name)).filter(|c: char| is_fat32_char(c));
            &&& fat32_volume_name(name).is_prefix_of(valid)
            &&& fat32_volume_name(name).len() == if valid.len() <= 11 {
                valid.len()
            } else {
                11
            }
            &&& valid.len() <= 11 ==> fat32_volume_name(name) == valid
        }),
{
    let u = unicode_uppercase(trim(name));
    lemma_keep_is_filter(u);
    let valid = u.filter(|c: char| is_fat32_char(c));
    if valid.len() > 11 {
        assert(fat32_volume_name(name) == valid.subrange(0, 11));
    } else {
        assert(fat32_volume_name(name) == valid);
    }
}

/// Every character of a sanitized volume name is `A-Z`, `a-z`, `0-9`, space or
/// underscore, and the name has between 1 and 11 characters: the name can be
/// placed inside a quoted shell argument without escaping.
pub proof fn lemma_fat32_name_is_safe(name: Seq<char>)
    requires
        fat32_volume_name(name).len() > 0,
    ensures
        1 <= fat32_volume_name(name).len() <= 11,
        forall|i: int|
            0 <= i < fat32_volume_name(name).len() ==> is_fat32_char(
                #[trigger] fat32_volume_name(name)[i],
            ),
{
    let k = keep_fat32_chars(unicode_uppercase(trim(name)));
    lemma_keep_fat32_only_valid(unicode_uppercase(trim(name)));
    assert forall|i: int| 0 <= i < fat32_volume_name(name).len() implies is_fat32_char(
        #[trigger] fat32_volume_name(name)[i],
    ) by {
        assert(fat32_volume_name(name)[i] == k[i]);
    }
}

proof fn lemma_keep_fat32_only_valid(s: Seq<char>)
    ensures
        forall|i: int|
            0 <= i < keep_fat32_chars(s).len() ==> is_fat32_char(#[trigger] keep_fat32_chars(s)[i]),
    decreases s.len(),
{
    if s.len() > 0 {
        let k = keep_fat32_chars(s.drop_last());
        lemma_keep_fat32_only_valid(s.drop_last());
        if is_fat32_char(s.last()) {
            assert forall|i: int| 0 <= i < k.len() + 1 implies is_fat32_char(
                #[trigger] k.push(s.last())[i],
            ) by {
                if i < k.len() {
                    assert(k.push(s.last())[i] == k[i]);
                }
            }
        }
    }
}

// ---------------------------------------------------------------------------
// Device names
// ---------------------------------------------------------------------------

/// `c` separates path components on some supported platform.
pub open spec fn is_path_separator(c: char) -> bool {
    c == '/' || c == '\\'
}

/// Display name for a mount point, given the final component of its path:
/// that component, or (for root paths such as `/` or `D:\`) the mount point
/// without its trailing separators.
pub open spec fn device_display_name(mount_point: Seq<char>, file_name: Option<Seq<char>>) -> Seq<
    char,
> {
    match file_name {
        Some(n) => n,
        None => trim_end_by(mount_point, |c: char| is_path_separator(c)),
    }
}

/// The last piece of a path once its trailing separators are removed.
pub open spec fn final_piece(path: Seq<char>) -> Seq<char> {
    last_segment(trim_end_by(path, |c: char| is_path_separator(c)))
}

/// The final component of a path that every platform reads alike, as
/// `Path::file_name` documents it: the last piece after trailing separators are
/// ignored; none for a root or empty path, or one that ends in `..`.
pub open spec fn final_component(path: Seq<char>) -> Option<Seq<char>> {
    let f = final_piece(path);
    if f.len() == 0 || f == ".."@ {
        None
    } else {
        Some(f)
    }
}

/// The final component of `path` is stated by `final_component`: the path is
/// read alike on every platform and does not end in a `.` piece (which is
/// skipped, so that the component before it is the final one).
pub open spec fn final_component_known(path: Seq<char>) -> bool {
    portable_path(path) && final_piece(path) != "."@
}

/// Calls `Path::file_name` (with the `OsStr` converted to a `String`). On every
/// platform a file name is a non-empty component, so it holds no `/` and is never
/// `..`; for paths that every platform reads alike (and that do not end in a `.`
/// piece) it is the last piece once trailing separators are removed.
#[verifier::external_body]
fn path_file_name(path: &str) -> (r: Option<String>)
    ensures
        r matches Some(n) ==> n@ != ".."@ && n@.len() > 0 && !n@.contains('/'),
        final_component_known(path@) ==> (match r {
            Some(n) => Some(n@),
            None => None,
        }) == final_component(path@),
{
    std::path::Path::new(path).file_name().and_then(|n| n.to_str()).map(|s| s.to_string())
}

/// `mount_point` without its trailing `/` and `\` characters.
pub fn trim_trailing_separators(mount_point: &str) -> (r: String)
    ensures
        r@ == trim_end_by(mount_point@, |c: char| is_path_separator(c)),
{
    let chars = chars_of(mount_point);
    let mut end = chars.len();
    while end > 0 && (chars[end - 1] == '/' || chars[end - 1] == '\\')
        invariant
            end <= chars@.len(),
            forall|i: int| end <= i < chars@.len() ==> is_path_separator(#[trigger] chars@[i]),
        decreases end,
    {
        end = end - 1;
    }
    proof {
        let sep = |c: char| is_path_separator(c);
        assert forall|i: int| end <= i < chars@.len() implies #[trigger] sep(chars@[i]) by {}
        lemma_trim_end_by_prefix(chars@, sep, end as int);
    }
    string_from_range(chars.as_slice(), 0, end)
}

/// Trimming trailing characters stops at the last character that is not trimmed.
pub proof fn lemma_trim_end_by_prefix(s: Seq<char>, is_sep: spec_fn(char) -> bool, k: int)
    requires
        0 <= k <= s.len(),
        forall|i: int| k <= i < s.len() ==> #[trigger] is_sep(s[i]),
        k > 0 ==> !is_sep(s[k - 1]),
    ensures
        trim_end_by(s, is_sep) == s.subrange(0, k),
    decreases s.len() - k,
{
    if k == s.len() {
        assert(s.subrange(0, k) =~= s);
    } else {
        let t = s.drop_last();
        assert forall|i: int| k <= i < t.len() implies #[trigger] is_sep(t[i]) by {
            assert(t[i] == s[i]);
        }
        assert(is_sep(s[s.len() - 1]));
        lemma_trim_end_by_prefix(t, is_sep, k);
        assert(t.subrange(0, k) =~= s.subrange(0, k));
    }
}

/// Display name for a mount point given its final path component.
/// `/Volumes/MY_USB` has the component `MY_USB`; `D:\` and `/` have none and are
/// shown as `D:` and the empty string.
pub fn device_name_from_file_name(mount_point: &str, file_name: Option<&str>) -> (r: String)
    ensures
        r@ == device_display_name(
            mount_point@,
            match file_name {
                Some(n) => Some(n@),
                None => None,
            },
        ),
{
    match file_name {
        Some(n) => owned(n),
        None => trim_trailing_separators(mount_point),
    }
}

/// Extract a human-readable name from a mount point path: its final component,
/// or the mount point without trailing separators when it has none.
pub fn device_name_from_mount_point(mount_point: &str) -> (r: String)
    ensures
        final_component_known(mount_point@) ==> r@ == device_display_name(
            mount_point@,
            final_component(mount_point@),
        ),
        exists|file_name: Option<Seq<char>>|
            (file_name matches Some(n) ==> n != ".."@ && n.len() > 0 && !n.contains('/')) && r@
                == #[trigger] device_display_name(mount_point@, file_name),
{
    let file_name = path_file_name(mount_point);
    let r = device_name_from_file_name(
        mount_point,
        match &file_name {
            Some(n) => Some(n.as_str()),
            None => None,
        },
    );
    proof {
        let fv = match file_name {
            Some(n) => Some(n@),
            None => None::<Seq<char>>,
        };
        assert(r@ == device_display_name(mount_point@, fv));
    }
    r
}

// ---------------------------------------------------------------------------
// Values read from `diskutil info -plist`
// ---------------------------------------------------------------------------

/// The text after the first `key` in `plist`, between the next `open` tag and
/// the `close` tag that follows it, trimmed; `None` when any marker is missing
/// or the value is blank.
pub open spec fn tagged_value(plist: Seq<char>, key: Seq<char>, open: Seq<char>, close: Seq<char>) -> Option<
    Seq<char>,
> {
    match find_first(plist, key) {
        None => None,
        Some(k) => {
            let after = plist.subrange(k + key.len(), plist.len() as int);
            match find_first(after, open) {
                None => None,
                Some(s) => {
                    let rest = after.subrange(s + open.len(), after.len() as int);
                    match find_first(rest, close) {
                        None => None,
                        Some(e) => {
                            let v = trim(rest.subrange(0, e));
                            if v.len() == 0 {
                                None
                            } else {
                                Some(v)
                            }
                        },
                    }
                },
            }
        },
    }
}

/// The `<string>` value that follows `key` in a property list.
pub open spec fn plist_string_value(plist: Seq<char>, key: Seq<char>) -> Option<Seq<char>> {
    tagged_value(plist, key, "<string>"@, "</string>"@)
}

proof fn lemma_occurs_shift(h: Seq<char>, n: Seq<char>, a: int, i: int)
    requires
        0 <= a <= h.len(),
        0 <= i,
    ensures
        occurs_at(h.subrange(a, h.len() as int), n, i) == occurs_at(h, n, a + i),
{
    let t = h.subrange(a, h.len() as int);
    if i + n.len() <= t.len() {
        assert(t.subrange(i, i + n.len()) =~= h.subrange(a + i, a + i + n.len()));
    }
}

/// The first occurrence of `needle` in `hay[from..]`, as an index into `hay`.
fn find_after(hay: &[char], needle: &[char], from: usize) -> (r: Option<usize>)
    requires
        from <= hay@.len(),
    ensures
        r matches Some(i) ==> occurs_at(hay@, needle@, i as int),
        r matches Some(i) ==> from <= i && find_first(
            hay@.subrange(from as int, hay@.len() as int),
            needle@,
        ) == Some(i - from),
        r is None ==> find_first(hay@.subrange(from as int, hay@.len() as int), needle@) is None,
{
    let r = find_from(hay, needle, from);
    let ghost t = hay@.subrange(from as int, hay@.len() as int);
    proof {
        match r {
            Some(i) => {
                lemma_occurs_shift(hay@, needle@, from as int, i - from);
                assert forall|j: int| 0 <= j < i - from implies !occurs_at(t, needle@, j) by {
                    lemma_occurs_shift(hay@, needle@, from as int, j);
                }
                let c = choose|j: int| is_first_occurrence(t, needle@, j);
                assert(is_first_occurrence(t, needle@, i - from));
                if c < i - from {
                } else if c > i - from {
                    assert(!occurs_at(t, needle@, i - from));
                }
            },
            None => {
                assert forall|j: int| !occurs_at(t, needle@, j) by {
                    if 0 <= j {
                        lemma_occurs_shift(hay@, needle@, from as int, j);
                    }
                }
            },
        }
    }
    r
}

/// The trimmed text between the `open` and `close` tags that follow `key`.
fn find_tagged_value(plist: &[char], key: &[char], open: &[char], close: &[char]) -> (r: Option<
    String,
>)
    ensures
        r matches Some(v) ==> tagged_value(plist@, key@, open@, close@) == Some(v@),
        r is None ==> tagged_value(plist@, key@, open@, close@) is None,
{
    let k = match find_after(plist, key, 0) {
        Some(k) => k,
        None => {
            assert(plist@.subrange(0, plist@.len() as int) =~= plist@);
            return None;
        },
    };
    assert(plist@.subrange(0, plist@.len() as int) =~= plist@);
    if key.len() > plist.len() - k {
        // `key` occurs at `k`, so it fits; this branch is unreachable.
        return None;
    }
    let a = k + key.len();
    let ghost after = plist@.subrange(a as int, plist@.len() as int);
    let s = match find_after(plist, open, a) {
        Some(s) => s,
        None => {
            return None;
        },
    };
    let ghost sa = s - a;
    if open.len() > plist.len() - s {
        return None;
    }
    let b = s + open.len();
    let ghost rest = after.subrange(sa + open@.len(), after.len() as int);
    assert(rest =~= plist@.subrange(b as int, plist@.len() as int));
    let e = match find_after(plist, close, b) {
        Some(e) => e,
        None => {
            return None;
        },
    };
    assert(rest.subrange(0, e - b) =~= plist@.subrange(b as int, e as int));
    let (ts, te) = trim_range(plist, b, e);
    let v = string_from_range(plist, ts, te);
    if te == ts {
        return None;
    }
    Some(v)
}

/// The `<string>` value that follows `key` (a full `<key>...</key>` tag) in the
/// property list printed by `diskutil info -plist`.
pub fn plist_string(plist: &str, key: &str) -> (r: Option<String>)
    ensures
        r matches Some(v) ==> plist_string_value(plist@, key@) == Some(v@),
        r is None ==> plist_string_value(plist@, key@) is None,
{
    let p = chars_of(plist);
    let k = chars_of(key);
    let open = chars_of("<string>");
    let close = chars_of("</string>");
    find_tagged_value(p.as_slice(), k.as_slice(), open.as_slice(), close.as_slice())
}

/// The volume UUID reported in `diskutil info -plist` output.
pub fn volume_uuid_from_plist(plist: &str) -> (r: Option<String>)
    ensures
        r matches Some(v) ==> plist_string_value(plist@, "<key>VolumeUUID</key>"@) == Some(v@),
        r is None ==> plist_string_value(plist@, "<key>VolumeUUID</key>"@) is None,
{
    plist_string(plist, "<key>VolumeUUID</key>")
}

/// The whole-disk device (e.g. `/dev/disk2`) that holds a volume, from
/// `diskutil info -plist` output.
pub fn disk_identifier_from_plist(plist: &str) -> (r: Result<String, CrateError>)
    ensures
        match plist_string_value(plist@, "<key>ParentWholeDisk</key>"@) {
            Some(d) => r matches Ok(v) && v@ == "/dev/"@ + d,
            None => r matches Err(CrateError::Device(m)) && m@
                == "Could not determine disk identifier"@,
        },
{
    match plist_string(plist, "<key>ParentWholeDisk</key>") {
        Some(d) => Ok(concat("/dev/", d.as_str())),
        None => Err(CrateError::Device(owned("Could not determine disk identifier"))),
    }
}

/// The device path printed by `findmnt -n -o SOURCE`.
pub fn device_path_from_findmnt(stdout: &str) -> (r: Result<String, CrateError>)
    ensures
        trim(stdout@).len() == 0 ==> (r matches Err(CrateError::Device(m)) && m@
            == "Could not determine device path"@),
        trim(stdout@).len() > 0 ==> (r matches Ok(v) && v@ == trim(stdout@)),
{
    let t = trim_string(stdout);
    if t.as_str().is_empty() {
        return Err(CrateError::Device(owned("Could not determine device path")));
    }
    Ok(t)
}

// ---------------------------------------------------------------------------
// Failure messages of eject and reformat
// ---------------------------------------------------------------------------

/// The message shown when the user dismisses an authorization prompt.
pub open spec fn cancelled_by_user() -> Seq<char> {
    "Operation cancelled by user"@
}

/// The error reported when `umount` fails while reformatting: a busy device gets
/// a hint, anything else reports the tool's error output.
pub fn unmount_failure(stderr: &str) -> (e: CrateError)
    ensures
        contains_seq(stderr@, "busy"@) ==> (e matches CrateError::Device(m) && m@
            == "Device is busy. Close any applications using it and try again."@),
        !contains_seq(stderr@, "busy"@) ==> (e matches CrateError::Device(m) && m@
            == "Failed to unmount: "@ + stderr@),
{
    if contains(stderr, "busy") {
        CrateError::Device(owned("Device is busy. Close any applications using it and try again."))
    } else {
        CrateError::Device(concat("Failed to unmount: ", stderr))
    }
}

/// The error reported when `pkexec mkfs.vfat` fails: a dismissed or refused
/// authorization is a cancellation, anything else reports the error output.
pub fn mkfs_failure(stderr: &str) -> (e: CrateError)
    ensures
        (contains_seq(stderr@, "dismissed"@) || contains_seq(stderr@, "Not authorized"@)) ==> (
        e matches CrateError::Device(m) && m@ == cancelled_by_user()),
        !(contains_seq(stderr@, "dismissed"@) || contains_seq(stderr@, "Not authorized"@)) ==> (
        e matches CrateError::Device(m) && m@ == "Failed to reformat: "@ + stderr@),
{
    if contains(stderr, "dismissed") || contains(stderr, "Not authorized") {
        CrateError::Device(owned("Operation cancelled by user"))
    } else {
        CrateError::Device(concat("Failed to reformat: ", stderr))
    }
}

/// The error reported when the privileged `osascript` erase fails: error -128 or
/// "User canceled" is a cancellation, anything else reports the trimmed output.
pub fn osascript_failure(stderr: &str) -> (e: CrateError)
    ensures
        (contains_seq(stderr@, "-128"@) || contains_seq(stderr@, "User canceled"@)) ==> (
        e matches CrateError::Device(m) && m@ == cancelled_by_user()),
        !(contains_seq(stderr@, "-128"@) || contains_seq(stderr@, "User canceled"@)) ==> (
        e matches CrateError::Device(m) && m@ == "Failed to reformat device: "@ + trim(stderr@)),
{
    if contains(stderr, "-128") || contains(stderr, "User canceled") {
        CrateError::Device(owned("Operation cancelled by user"))
    } else {
        let t = trim_string(stderr);
        CrateError::Device(concat("Failed to reformat device: ", t.as_str()))
    }
}

/// The error reported when `diskutil eject` or `umount` fails.
pub fn eject_failure(stderr: &str) -> (e: CrateError)
    ensures
        e matches CrateError::Device(m) && m@ == "Failed to eject: "@ + stderr@,
{
    CrateError::Device(concat("Failed to eject: ", stderr))
}

/// The AppleScript that erases `disk_id` as an MBR-partitioned FAT32 volume named
/// `volume_name`, with administrator privileges.
pub fn reformat_script(volume_name: &str, disk_id: &str) -> (s: String)
    ensures
        s@ == "do shell script \"/usr/sbin/diskutil eraseDisk FAT32 '"@ + volume_name@ + "' MBR "@
            + disk_id@ + "\" with administrator privileges"@,
{
    let a = concat3("do shell script \"/usr/sbin/diskutil eraseDisk FAT32 '", volume_name, "' MBR ");
    concat3(a.as_str(), disk_id, "\" with administrator privileges")
}

/// The `pkexec` arguments that format `device_path` as FAT32 labelled `volume_name`.
pub fn mkfs_arguments(volume_name: &str, device_path: &str) -> (args: Vec<String>)
    ensures
        args@.len() == 6,
        args@[0]@ == "mkfs.vfat"@,
        args@[1]@ == "-F"@,
        args@[2]@ == "32"@,
        args@[3]@ == "-n"@,
        args@[4]@ == volume_name@,
        args@[5]@ == device_path@,
{
    let mut args: Vec<String> = Vec::new();
    args.push(owned("mkfs.vfat"));
    args.push(owned("-F"));
    args.push(owned("32"));
    args.push(owned("-n"));
    args.push(owned(volume_name));
    args.push(owned(device_path));
    args
}

// ---------------------------------------------------------------------------
// The removable-device list
// ---------------------------------------------------------------------------

/// The kind of storage reported for a disk.
#[derive(Debug, Clone, Copy, PartialEq, Eq)]
pub enum DiskKind {
    Ssd,
    Hdd,
    Unknown,
}

/// The label shown for a disk kind.
pub open spec fn disk_kind_label(kind: DiskKind) -> Seq<char> {
    match kind {
        DiskKind::Ssd => "SSD"@,
        DiskKind::Hdd => "HDD"@,
        DiskKind::Unknown => "Unknown"@,
    }
}

/// A removable volume that can receive exports.
#[derive(Debug, Clone)]
pub struct UsbDevice {
    /// Stable identifier: the volume UUID when known, otherwise the mount point.
    pub id: String,
    pub name: String,
    pub mount_point: String,
    pub volume_uuid: Option<String>,
    pub total_space_bytes: u64,
    pub available_space_bytes: u64,
    pub is_removable: bool,
    pub file_system: String,
    pub disk_kind: String,
}

/// A disk is offered to the user when it is removable and is not a system
/// volume (mounted at `/` or under `/System`).
pub open spec fn listable_disk(is_removable: bool, mount: Seq<char>) -> bool {
    is_removable && !starts_with(mount, "/System"@) && mount != "/"@
}

/// The root of a drive letter, such as `E:\`.
pub open spec fn drive_root(drive: char) -> Seq<char> {
    seq![drive, ':', '\\']
}

/// A removable disk is listed unless it is mounted at the root `/` or under
/// `/System`; in particular every drive root such as `E:\` is listed, and a disk
/// that is not removable never is.
pub proof fn lemma_listed_disks(is_removable: bool, mount: Seq<char>)
    ensures
        listable_disk(is_removable, mount) <==> (is_removable && mount != "/"@ && !(mount.len() >= 7
            && mount.subrange(0, 7) == "/System"@)),
        forall|drive: char| 'A' <= drive <= 'Z' ==> listable_disk(true, #[trigger] drive_root(drive)),
{
    assert forall|drive: char| 'A' <= drive <= 'Z' implies listable_disk(
        true,
        #[trigger] drive_root(drive),
    ) by {
        reveal_strlit("/System");
        let m = drive_root(drive);
        assert(m.len() == 3);
        assert(m != "/"@) by {
            reveal_strlit("/");
            assert("/"@.len() == 1);
        }
    }
    reveal_strlit("/System");
    reveal_strlit("/");
}

/// Whether a disk belongs in the removable-device list.
pub fn is_listable_disk(is_removable: bool, mount: &str) -> (b: bool)
    ensures
        b == listable_disk(is_removable, mount@),
{
    if !is_removable {
        return false;
    }
    let m = chars_of(mount);
    let system = chars_of("/System");
    if has_prefix(m.as_slice(), system.as_slice()) {
        return false;
    }
    !str_eq(mount, "/")
}

/// The label for a disk kind.
pub fn disk_kind_name(kind: DiskKind) -> (s: String)
    ensures
        s@ == disk_kind_label(kind),
{
    match kind {
        DiskKind::Ssd => owned("SSD"),
        DiskKind::Hdd => owned("HDD"),
        DiskKind::Unknown => owned("Unknown"),
    }
}

/// Build the device entry for a listed disk. The id is the volume UUID when one
/// was found and the mount point otherwise; an unnamed disk is named after its
/// mount point.
pub fn make_usb_device(
    mount_point: String,
    disk_name: String,
    volume_uuid: Option<String>,
    total_space_bytes: u64,
    available_space_bytes: u64,
    file_system: String,
    kind: DiskKind,
) -> (d: UsbDevice)
    ensures
        d.id@ == (match volume_uuid {
            Some(u) => u@,
            None => mount_point@,
        }),
        disk_name@.len() > 0 ==> d.name@ == disk_name@,
        disk_name@.len() == 0 && final_component_known(mount_point@) ==> d.name@
            == device_display_name(mount_point@, final_component(mount_point@)),
        disk_name@.len() == 0 ==> exists|file_name: Option<Seq<char>>|
            (file_name matches Some(n) ==> n != ".."@ && n.len() > 0 && !n.contains('/'))
                && d.name@ == #[trigger] device_display_name(mount_point@, file_name),
        d.mount_point@ == mount_point@,
        d.volume_uuid == volume_uuid,
        d.total_space_bytes == total_space_bytes,
        d.available_space_bytes == available_space_bytes,
        d.is_removable,
        d.file_system@ == file_system@,
        d.disk_kind@ == disk_kind_label(kind),
{
    let id = match &volume_uuid {
        Some(u) => u.clone(),
        None => mount_point.clone(),
    };
    let name = if disk_name.as_str().is_empty() {
        device_name_from_mount_point(mount_point.as_str())
    } else {
        disk_name
    };
    UsbDevice {
        id,
        name,
        mount_point,
        volume_uuid,
        total_space_bytes,
        available_space_bytes,
        is_removable: true,
        file_system,
        disk_kind: disk_kind_name(kind),
    }
}

/// The set of device ids in a device list.
pub open spec fn device_ids(devices: Seq<UsbDevice>) -> Set<Seq<char>> {
    Set::new(|id: Seq<char>| exists|i: int| 0 <= i < devices.len() && (#[trigger] devices[i]).id@ == id)
}

/// Whether some device of `devices` has id `id`.
fn has_device_id(devices: &Vec<UsbDevice>, id: &String) -> (b: bool)
    ensures
        b == device_ids(devices@).contains(id@),
{
    let mut i: usize = 0;
    while i < devices.len()
        invariant
            i <= devices@.len(),
            forall|j: int| 0 <= j < i ==> (#[trigger] devices@[j]).id@ != id@,
        decreases devices@.len() - i,
    {
        if devices[i].id == *id {
            assert(devices@[i as int].id@ == id@);
            return true;
        }
        i = i + 1;
    }
    false
}

/// Whether every id of `a` is an id of `b`.
fn ids_included(a: &Vec<UsbDevice>, b: &Vec<UsbDevice>) -> (r: bool)
    ensures
        r == device_ids(a@).subset_of(device_ids(b@)),
{
    let mut i: usize = 0;
    while i < a.len()
        invariant
            i <= a@.len(),
            forall|j: int| 0 <= j < i ==> device_ids(b@).contains(#[trigger] a@[j].id@),
        decreases a@.len() - i,
    {
        if !has_device_id(b, &a[i].id) {
            assert(device_ids(a@).contains(a@[i as int].id@));
            return false;
        }
        i = i + 1;
    }
    assert forall|id: Seq<char>| device_ids(a@).contains(id) implies device_ids(b@).contains(id) by {
        let j = choose|j: int| 0 <= j < a@.len() && (#[trigger] a@[j]).id@ == id;
    }
    true
}

/// Whether the set of device ids differs between two polls of the device list;
/// the list is only re-published to the user when it does.
pub fn device_ids_changed(previous: &Vec<UsbDevice>, current: &Vec<UsbDevice>) -> (changed: bool)
    ensures
        changed == (device_ids(previous@) != device_ids(current@)),
{
    let a = ids_included(previous, current);
    let b = ids_included(current, previous);
    proof {
        if a && b {
            assert(device_ids(previous@) =~= device_ids(current@));
        }
    }
    !(a && b)
}

// ---------------------------------------------------------------------------
// Linux volume UUID lookup
// ---------------------------------------------------------------------------

/// Length of the run of non-whitespace characters at the start of `s`.
pub open spec fn word_len(s: Seq<char>) -> nat
    decreases s.len(),
{
    if s.len() == 0 || char_is_whitespace(s[0]) {
        0
    } else {
        1 + word_len(s.drop_first())
    }
}

/// A word never runs past the end of the text.
pub proof fn lemma_word_len_bound(s: Seq<char>)
    ensures
        word_len(s) <= s.len(),
    decreases s.len(),
{
    if s.len() > 0 && !char_is_whitespace(s[0]) {
        lemma_word_len_bound(s.drop_first());
    }
}

/// The whitespace-separated fields of `s`, in order (what `str::split_whitespace`
/// yields; both go by `char::is_whitespace`).
pub open spec fn fields(s: Seq<char>) -> Seq<Seq<char>>
    decreases s.len(),
{
    if s.len() == 0 {
        Seq::empty()
    } else if char_is_whitespace(s[0]) {
        fields(s.drop_first())
    } else {
        proof {
            lemma_word_len_bound(s);
        }
        seq![s.take(word_len(s) as int)] + fields(s.skip(word_len(s) as int))
    }
}

/// Length of the text before the first `'\n'` of `s` (all of `s` when there is none).
pub open spec fn line_len(s: Seq<char>) -> nat
    decreases s.len(),
{
    if s.len() == 0 || s[0] == '\n' {
        0
    } else {
        1 + line_len(s.drop_first())
    }
}

/// A line never runs past the end of the text.
pub proof fn lemma_line_len_bound(s: Seq<char>)
    ensures
        line_len(s) <= s.len(),
    decreases s.len(),
{
    if s.len() > 0 && s[0] != '\n' {
        lemma_line_len_bound(s.drop_first());
    }
}

/// The lines of `s`: the pieces between `'\n'` characters, with no empty piece
/// after a final `'\n'`. (`str::lines` also drops a `'\r'` that ends a line; that
/// character is whitespace, so each line has the same fields either way.)
pub open spec fn text_lines(s: Seq<char>) -> Seq<Seq<char>>
    decreases s.len(),
{
    if s.len() == 0 {
        Seq::empty()
    } else {
        proof {
            lemma_line_len_bound(s);
        }
        if line_len(s) == s.len() {
            seq![s]
        } else {
            seq![s.take(line_len(s) as int)] + text_lines(s.skip(line_len(s) + 1int))
        }
    }
}

/// The device of the first mount-table line whose second field is `mount_point`.
pub open spec fn mount_source_in(lines: Seq<Seq<char>>, mount_point: Seq<char>) -> Option<Seq<char>>
    decreases lines.len(),
{
    if lines.len() == 0 {
        None
    } else if fields(lines[0]).len() >= 2 && fields(lines[0])[1] == mount_point {
        Some(fields(lines[0])[0])
    } else {
        mount_source_in(lines.drop_first(), mount_point)
    }
}

/// The device mounted at `mount_point` according to the mount table `mounts`
/// (in the format of `/proc/mounts`: device, then mount point, then the rest).
pub open spec fn mount_source(mounts: Seq<char>, mount_point: Seq<char>) -> Option<Seq<char>> {
    mount_source_in(text_lines(mounts), mount_point)
}

proof fn lemma_word_len_at(s: Seq<char>, k: int)
    requires
        0 <= k <= s.len(),
        forall|i: int| 0 <= i < k ==> !char_is_whitespace(#[trigger] s[i]),
        k == s.len() || char_is_whitespace(s[k]),
    ensures
        word_len(s) == k,
    decreases k,
{
    if k > 0 {
        let t = s.drop_first();
        assert forall|i: int| 0 <= i < k - 1 implies !char_is_whitespace(#[trigger] t[i]) by {
            assert(t[i] == s[i + 1]);
        }
        if k < s.len() {
            assert(t[k - 1] == s[k]);
        }
        lemma_word_len_at(t, k - 1);
    }
}

proof fn lemma_line_len_at(s: Seq<char>, k: int)
    requires
        0 <= k <= s.len(),
        forall|i: int| 0 <= i < k ==> #[trigger] s[i] != '\n',
        k == s.len() || s[k] == '\n',
    ensures
        line_len(s) == k,
    decreases k,
{
    if k > 0 {
        let t = s.drop_first();
        assert forall|i: int| 0 <= i < k - 1 implies #[trigger] t[i] != '\n' by {
            assert(t[i] == s[i + 1]);
        }
        if k < s.len() {
            assert(t[k - 1] == s[k]);
        }
        lemma_line_len_at(t, k - 1);
    }
}

/// The next field of `chars[from..to]`: `None` when only whitespace is left,
/// else its bounds, so that the fields are it followed by those after it.
fn next_field(chars: &Vec<char>, from: usize, to: usize) -> (r: Option<(usize, usize)>)
    requires
        from <= to <= chars@.len(),
    ensures
        r is None ==> fields(chars@.subrange(from as int, to as int)).len() == 0,
        r matches Some((a, b)) ==> from <= a < b <= to && fields(chars@.subrange(from as int, to as int))
            == seq![chars@.subrange(a as int, b as int)] + fields(chars@.subrange(b as int, to as int)),
{
    let mut a = from;
    while a < to && is_whitespace(chars[a])
        invariant
            from <= a <= to <= chars@.len(),
            fields(chars@.subrange(from as int, to as int)) == fields(chars@.subrange(a as int, to as int)),
        decreases to - a,
    {
        proof {
            let s = chars@.subrange(a as int, to as int);
            assert(s.drop_first() =~= chars@.subrange(a + 1, to as int));
        }
        a = a + 1;
    }
    if a == to {
        return None;
    }
    let mut b = a + 1;
    while b < to && !is_whitespace(chars[b])
        invariant
            a < b <= to <= chars@.len(),
            forall|i: int| a <= i < b ==> !char_is_whitespace(#[trigger] chars@[i]),
        decreases to - b,
    {
        b = b + 1;
    }
    proof {
        let s = chars@.subrange(a as int, to as int);
        assert forall|i: int| 0 <= i < b - a implies !char_is_whitespace(#[trigger] s[i]) by {
            assert(s[i] == chars@[a + i]);
        }
        if b < to {
            assert(s[b - a] == chars@[b as int]);
        }
        lemma_word_len_at(s, b - a);
        assert(s.take(b - a) =~= chars@.subrange(a as int, b as int));
        assert(s.skip(b - a) =~= chars@.subrange(b as int, to as int));
    }
    Some((a, b))
}

/// The device named by one mount-table line, if its mount point is `mount_point`.
fn line_mount_source(chars: &Vec<char>, from: usize, to: usize, mount_point: &Vec<char>) -> (r: Option<String>)
    requires
        from <= to <= chars@.len(),
    ensures
        ({
            let f = fields(chars@.subrange(from as int, to as int));
            if f.len() >= 2 && f[1] == mount_point@ {
                r matches Some(d) && d@ == f[0]
            } else {
                r is None
            }
        }),
{
    let first = next_field(chars, from, to);
    match first {
        None => None,
        Some((a0, b0)) => {
            let second = next_field(chars, b0, to);
            match second {
                None => None,
                Some((a1, b1)) => {
                    let same = b1 - a1 == mount_point.len() && matches_at(
                        chars.as_slice(),
                        mount_point.as_slice(),
                        a1,
                    );
                    if same {
                        Some(string_from_range(chars.as_slice(), a0, b0))
                    } else {
                        None
                    }
                },
            }
        },
    }
}

/// The device mounted at `mount_point`, read from a mount table in the format
/// of `/proc/mounts`: the first field of the first line whose second field is
/// `mount_point`.
pub fn mount_source_device(mounts: &str, mount_point: &str) -> (r: Option<String>)
    ensures
        (match r {
            Some(d) => Some(d@),
            None => None,
        }) == mount_source(mounts@, mount_point@),
{
    let c = chars_of(mounts);
    let mp = chars_of(mount_point);
    let n = c.len();
    let mut i: usize = 0;
    proof {
        assert(c@.subrange(0, n as int) =~= c@);
    }
    while i < n
        invariant
            i <= n == c@.len(),
            c@ == mounts@,
            mp@ == mount_point@,
            mount_source(mounts@, mount_point@) == mount_source_in(
                text_lines(c@.subrange(i as int, n as int)),
                mp@,
            ),
        decreases n - i,
    {
        let mut j = i;
        while j < n && c[j] != '\n'
            invariant
                i <= j <= n == c@.len(),
                forall|k: int| i <= k < j ==> #[trigger] c@[k] != '\n',
            decreases n - j,
        {
            j = j + 1;
        }
        let ghost s = c@.subrange(i as int, n as int);
        proof {
            assert forall|k: int| 0 <= k < j - i implies #[trigger] s[k] != '\n' by {
                assert(s[k] == c@[i + k]);
            }
            if j < n {
                assert(s[j - i] == c@[j as int]);
            }
            lemma_line_len_at(s, j - i);
            assert(s.take(j - i) =~= c@.subrange(i as int, j as int));
            if j < n {
                assert(s.skip(j - i + 1) =~= c@.subrange(j + 1, n as int));
            } else {
                assert(s =~= c@.subrange(i as int, j as int));
            }
        }
        let found = line_mount_source(&c, i, j, &mp);
        if found.is_some() {
            return found;
        }
        if j == n {
            i = n;
            proof {
                assert(text_lines(s).drop_first() =~= Seq::<Seq<char>>::empty());
                assert(c@.subrange(n as int, n as int) =~= Seq::<char>::empty());
            }
        } else {
            i = j + 1;
            proof {
                let rest = text_lines(c@.subrange(i as int, n as int));
                assert(text_lines(s).drop_first() =~= rest);
            }
        }
    }
    proof {
        assert(c@.subrange(i as int, n as int) =~= Seq::<char>::empty());
    }
    None
}

/// The part of `s` after its last `/` (all of `s` when there is none).
pub open spec fn last_segment(s: Seq<char>) -> Seq<char>
    decreases s.len(),
{
    if s.len() == 0 {
        s
    } else if s.last() == '/' {
        Seq::empty()
    } else {
        last_segment(s.drop_last()).push(s.last())
    }
}

proof fn lemma_last_segment_at(s: Seq<char>, k: int)
    requires
        0 <= k <= s.len(),
        forall|i: int| k <= i < s.len() ==> #[trigger] s[i] != '/',
        k > 0 ==> s[k - 1] == '/',
    ensures
        last_segment(s) == s.subrange(k, s.len() as int),
    decreases s.len() - k,
{
    if k == s.len() {
        if k > 0 {
            assert(s.last() == '/');
        }
    } else {
        let t = s.drop_last();
        assert forall|i: int| k <= i < t.len() implies #[trigger] t[i] != '/' by {
            assert(t[i] == s[i]);
        }
        assert(s.last() != '/');
        lemma_last_segment_at(t, k);
        assert(t.subrange(k, t.len() as int).push(s.last()) =~= s.subrange(k, s.len() as int));
    }
}

/// A `/dev/disk/by-uuid` link whose target is `target` designates `device`
/// when `device` ends with the target, or the target ends with the last path
/// segment of `device`.
pub open spec fn uuid_link_designates(device: Seq<char>, target: Seq<char>) -> bool {
    ends_with(device, target) || ends_with(target, last_segment(device))
}

/// Whether a by-uuid link target designates the mounted device.
pub fn uuid_link_matches(device: &str, target: &str) -> (b: bool)
    ensures
        b == uuid_link_designates(device@, target@),
{
    let d = chars_of(device);
    let t = chars_of(target);
    if has_suffix(d.as_slice(), t.as_slice()) {
        return true;
    }
    let mut k = d.len();
    while k > 0 && d[k - 1] != '/'
        invariant
            k <= d@.len(),
            forall|i: int| k <= i < d@.len() ==> #[trigger] d@[i] != '/',
        decreases k,
    {
        k = k - 1;
    }
    proof {
        lemma_last_segment_at(d@, k as int);
    }
    let seg = string_from_range(d.as_slice(), k, d.len());
    let sc = chars_of(seg.as_str());
    has_suffix(t.as_slice(), sc.as_slice())
}

} // verus!
