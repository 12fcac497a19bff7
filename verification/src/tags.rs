//! Metadata read from an audio file's tag: title, artist, album, year, genre,
//! the musical key and the BPM text.
use vstd::prelude::*;

use crate::text::{trim, trim_start, trim_string};

verus! {

#[verifier::external_type_specification]
#[verifier::external_body]
pub struct ExLoftyTag(lofty::tag::Tag);

/// The tag items whose text the library reads.
#[derive(Debug, Clone, Copy, PartialEq, Eq)]
pub enum TagTextItem {
    /// The track title.
    TrackTitle,
    /// The track artist.
    TrackArtist,
    /// The album title.
    AlbumTitle,
    /// The genre.
    Genre,
    /// The initial key (`TKEY` in ID3v2, `INITIALKEY`/`KEY` in Vorbis comments,
    /// `com.apple.iTunes:initialkey` in MP4).
    InitialKey,
    /// The BPM (`TBPM` in ID3v2, `tmpo` in MP4, `BPM` in Vorbis comments).
    IntegerBpm,
}

/// What a tag holds as text: for each item key, named as lofty's `ItemKey`
/// variant is written (`"TrackTitle"`, `"InitialKey"`, ...), the text of the
/// tag's first item with that key, when that item holds text. Items whose key
/// lofty does not know are not included.
pub uninterp spec fn tag_texts(tag: lofty::tag::Tag) -> Map<Seq<char>, Seq<char>>;

/// The name of the `ItemKey` variant that an item is stored under.
pub open spec fn item_key_name(item: TagTextItem) -> Seq<char> {
    match item {
        TagTextItem::TrackTitle => "TrackTitle"@,
        TagTextItem::TrackArtist => "TrackArtist"@,
        TagTextItem::AlbumTitle => "AlbumTitle"@,
        TagTextItem::Genre => "Genre"@,
        TagTextItem::InitialKey => "InitialKey"@,
        TagTextItem::IntegerBpm => "IntegerBpm"@,
    }
}

/// The text a tag holds for `item`, if any.
pub open spec fn tag_item_text(tag: lofty::tag::Tag, item: TagTextItem) -> Option<Seq<char>> {
    if tag_texts(tag).contains_key(item_key_name(item)) {
        Some(tag_texts(tag)[item_key_name(item)])
    } else {
        None
    }
}

/// A text, if any, trimmed of surrounding whitespace.
pub open spec fn trimmed(text: Option<Seq<char>>) -> Option<Seq<char>> {
    match text {
        Some(t) => Some(trim(t)),
        None => None,
    }
}

/// The view of an optional string.
pub open spec fn opt_view(s: Option<String>) -> Option<Seq<char>> {
    match s {
        Some(t) => Some(t@),
        None => None,
    }
}

/// Calls `lofty::tag::Tag::get_string` for the item's key and copies the text:
/// lofty returns the text of the first item with that key when that item holds
/// text, and nothing otherwise (the same text that `Accessor::title`, `artist`,
/// `album` and `genre` return for their items).
#[verifier::external_body]
fn tag_text(tag: &lofty::tag::Tag, item: TagTextItem) -> (r: Option<String>)
    ensures
        r is Some == tag_texts(*tag).contains_key(item_key_name(item)),
        r matches Some(t) ==> t@ == tag_texts(*tag)[item_key_name(item)],
{
    let key = match item {
        TagTextItem::TrackTitle => lofty::tag::ItemKey::TrackTitle,
        TagTextItem::TrackArtist => lofty::tag::ItemKey::TrackArtist,
        TagTextItem::AlbumTitle => lofty::tag::ItemKey::AlbumTitle,
        TagTextItem::Genre => lofty::tag::ItemKey::Genre,
        TagTextItem::InitialKey => lofty::tag::ItemKey::InitialKey,
        TagTextItem::IntegerBpm => lofty::tag::ItemKey::IntegerBpm,
    };
    tag.get_string(&key).map(|s| s.to_string())
}

/// `c` is an ASCII digit.
pub open spec fn is_digit(c: char) -> bool {
    '0' <= c && c <= '9'
}

/// The value of an ASCII digit.
pub open spec fn digit_value(c: char) -> nat {
    (c as nat - '0' as nat) as nat
}

/// The year a text gives, as lofty reads it: after leading whitespace, four
/// ASCII digits (any further digits are ignored); none when fewer follow.
pub open spec fn year_of_text(text: Seq<char>) -> Option<u32> {
    let t = trim_start(text);
    if t.len() >= 4 && is_digit(t[0]) && is_digit(t[1]) && is_digit(t[2]) && is_digit(t[3]) {
        Some(
            (digit_value(t[0]) * 1000 + digit_value(t[1]) * 100 + digit_value(t[2]) * 10
                + digit_value(t[3])) as u32,
        )
    } else {
        None
    }
}

/// The year of a tag's texts: read from its `Year` text when it has one, else
/// from its recording date, else none.
pub open spec fn year_of_texts(texts: Map<Seq<char>, Seq<char>>) -> Option<u32> {
    if texts.contains_key("Year"@) {
        year_of_text(texts["Year"@])
    } else if texts.contains_key("RecordingDate"@) {
        year_of_text(texts["RecordingDate"@])
    } else {
        None
    }
}

/// Calls `lofty::tag::Accessor::year` on the tag, which reads the year from the
/// `Year` text, or else from the recording date, as `year_of_texts` states.
#[verifier::external_body]
fn tag_year(tag: &lofty::tag::Tag) -> (r: Option<u32>)
    ensures
        r == year_of_texts(tag_texts(*tag)),
{
    lofty::tag::Accessor::year(tag)
}

/// The stored form of a tag text: trimmed of surrounding whitespace.
pub fn trimmed_text(raw: Option<&str>) -> (r: Option<String>)
    ensures
        match raw {
            Some(s) => r matches Some(t) && t@ == trim(s@),
            None => r is None,
        },
{
    match raw {
        Some(s) => Some(trim_string(s)),
        None => None,
    }
}

/// The musical key stored in a tag, trimmed (e.g. `"Am "` gives `"Am"`).
pub fn extract_key(tag: &lofty::tag::Tag) -> (r: Option<String>)
    ensures
        opt_view(r) == trimmed(tag_item_text(*tag, TagTextItem::InitialKey)),
{
    let raw = tag_text(tag, TagTextItem::InitialKey);
    match raw {
        Some(s) => trimmed_text(Some(s.as_str())),
        None => None,
    }
}

/// The BPM text stored in a tag, trimmed; it is read as a number by the caller.
pub fn extract_bpm_text(tag: &lofty::tag::Tag) -> (r: Option<String>)
    ensures
        opt_view(r) == trimmed(tag_item_text(*tag, TagTextItem::IntegerBpm)),
{
    let raw = tag_text(tag, TagTextItem::IntegerBpm);
    match raw {
        Some(s) => trimmed_text(Some(s.as_str())),
        None => None,
    }
}

/// The descriptive metadata an imported track takes from its tag.
#[derive(Debug, Clone)]
pub struct TagMetadata {
    pub title: Option<String>,
    pub artist: Option<String>,
    pub album: Option<String>,
    pub year: Option<i32>,
    pub genre: Option<String>,
    /// The BPM text, trimmed.
    pub bpm_text: Option<String>,
    /// The musical key, trimmed.
    pub key: Option<String>,
}

/// The year stored for a track: the tag's year as a signed 32-bit number (a year
/// above `i32::MAX` wraps, as a cast does).
pub open spec fn stored_year(year: Option<u32>) -> Option<i32> {
    match year {
        Some(y) => Some(#[verifier::truncate] (y as i32)),
        None => None,
    }
}

/// Title, artist, album and genre are taken as they are written, the year is
/// stored as a signed number, and the key and BPM text are trimmed.
pub fn tag_metadata(tag: &lofty::tag::Tag) -> (m: TagMetadata)
    ensures
        opt_view(m.title) == tag_item_text(*tag, TagTextItem::TrackTitle),
        opt_view(m.artist) == tag_item_text(*tag, TagTextItem::TrackArtist),
        opt_view(m.album) == tag_item_text(*tag, TagTextItem::AlbumTitle),
        opt_view(m.genre) == tag_item_text(*tag, TagTextItem::Genre),
        opt_view(m.key) == trimmed(tag_item_text(*tag, TagTextItem::InitialKey)),
        opt_view(m.bpm_text) == trimmed(tag_item_text(*tag, TagTextItem::IntegerBpm)),
        m.year == stored_year(year_of_texts(tag_texts(*tag))),
{
    let year = tag_year(tag);
    let stored = match year {
        Some(y) => Some(#[verifier::truncate] (y as i32)),
        None => None,
    };
    let m = TagMetadata {
        title: tag_text(tag, TagTextItem::TrackTitle),
        artist: tag_text(tag, TagTextItem::TrackArtist),
        album: tag_text(tag, TagTextItem::AlbumTitle),
        year: stored,
        genre: tag_text(tag, TagTextItem::Genre),
        bpm_text: extract_bpm_text(tag),
        key: extract_key(tag),
    };
    assert(m.year == stored_year(year));
    m
}

} // verus!
