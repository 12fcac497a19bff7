//! Album artwork: where a track's artwork is stored, when an image is scaled
//! down, which embedded picture is used, and whether several tracks share the
//! same artwork.
use vstd::prelude::*;

use crate::text::{concat, concat3};

verus! {

/// Artwork is stored at most this many pixels wide and high.
pub const ARTWORK_MAX_DIMENSION: u32 = 500;

/// An image larger than 500 pixels in either dimension is scaled down (keeping
/// its aspect ratio) before it is stored.
pub fn needs_resize(width: u32, height: u32) -> (b: bool)
    ensures
        b == (width > 500 || height > 500),
{
    width > ARTWORK_MAX_DIMENSION || height > ARTWORK_MAX_DIMENSION
}

/// The file name of a track's stored artwork: `{track_id}.webp`.
pub fn artwork_file_name(track_id: &str) -> (s: String)
    ensures
        s@ == track_id@ + ".webp"@,
{
    concat(track_id, ".webp")
}

/// The path of a track's stored artwork relative to the application data
/// folder, as recorded in the database: `artwork/{track_id}.webp`.
pub fn artwork_relative_path(track_id: &str) -> (s: String)
    ensures
        s@ == "artwork/"@ + track_id@ + ".webp"@,
{
    concat3("artwork/", track_id, ".webp")
}

// ---------------------------------------------------------------------------
// Converting an image to the stored form
// ---------------------------------------------------------------------------

#[verifier::external_type_specification]
#[verifier::external_body]
pub struct ExDynamicImage(image::DynamicImage);

/// Whether `image::load_from_memory` decodes `data` (it guesses the format
/// from the bytes alone).
pub uninterp spec fn image_decodes(data: Seq<u8>) -> bool;

/// The width and height (what `DynamicImage::dimensions` returns) of the image
/// decoded from `source` and then, when `bound` is given, resized to fit within
/// it.
pub uninterp spec fn image_size(source: Seq<u8>, bound: Option<(u32, u32)>) -> (u32, u32);

/// The WebP encoding (what `DynamicImage::write_to` produces, `None` when it
/// fails) of the image decoded from `source` and then, when `bound` is given,
/// resized to fit within it.
pub uninterp spec fn webp_encoding(source: Seq<u8>, bound: Option<(u32, u32)>) -> Option<Seq<u8>>;

/// An image decoded from the bytes `source` and then, when `bound` is set,
/// resized to fit within it.
pub struct ArtworkImage {
    image: image::DynamicImage,
    source: Ghost<Seq<u8>>,
    bound: Ghost<Option<(u32, u32)>>,
}

impl ArtworkImage {
    /// The bytes the image was decoded from.
    pub closed spec fn source(&self) -> Seq<u8> {
        self.source@
    }

    /// The bound the image was resized to fit within, if it was resized.
    pub closed spec fn bound(&self) -> Option<(u32, u32)> {
        self.bound@
    }
}

/// The bytes of an optional buffer.
pub open spec fn bytes_view(b: Option<Vec<u8>>) -> Option<Seq<u8>> {
    match b {
        Some(v) => Some(v@),
        None => None,
    }
}

/// Calls `image::load_from_memory`, which guesses the format from the bytes and
/// decodes them; `None` when that fails, which is named by `image_decodes`.
#[verifier::external_body]
fn decode_image(data: &[u8]) -> (r: Option<ArtworkImage>)
    ensures
        r is Some == image_decodes(data@),
        r matches Some(img) ==> img.source() == data@ && img.bound() is None,
{
    match image::load_from_memory(data) {
        Ok(image) => Some(ArtworkImage { image, source: Ghost(data@), bound: Ghost(None) }),
        Err(_) => None,
    }
}

/// Calls `DynamicImage::dimensions` (width, then height, in pixels), named by
/// `image_size`.
#[verifier::external_body]
fn image_dimensions(img: &ArtworkImage) -> (r: (u32, u32))
    ensures
        r == image_size(img.source(), img.bound()),
{
    image::GenericImageView::dimensions(&img.image)
}

/// Calls `DynamicImage::resize` with the Lanczos3 filter. The image crate
/// documents that the result keeps the aspect ratio and is the largest size that
/// fits within `max_width` by `max_height`; the fit is claimed here.
#[verifier::external_body]
fn resize_within(img: &ArtworkImage, max_width: u32, max_height: u32) -> (r: ArtworkImage)
    requires
        img.bound() is None,
        1 <= max_width,
        1 <= max_height,
    ensures
        r.source() == img.source(),
        r.bound() == Some((max_width, max_height)),
        image_size(r.source(), r.bound()).0 <= max_width,
        image_size(r.source(), r.bound()).1 <= max_height,
{
    ArtworkImage {
        image: img.image.resize(max_width, max_height, image::imageops::FilterType::Lanczos3),
        source: Ghost(img.source@),
        bound: Ghost(Some((max_width, max_height))),
    }
}

/// Calls `DynamicImage::write_to` with the WebP format into a byte buffer;
/// `None` when encoding fails. The result is named by `webp_encoding`.
#[verifier::external_body]
fn encode_webp(img: &ArtworkImage) -> (r: Option<Vec<u8>>)
    ensures
        bytes_view(r) == webp_encoding(img.source(), img.bound()),
{
    let mut out = std::io::Cursor::new(Vec::new());
    match img.image.write_to(&mut out, image::ImageFormat::WebP) {
        Ok(()) => Some(out.into_inner()),
        Err(_) => None,
    }
}

/// The bound an image decoded from `source` is resized to before it is stored:
/// 500 by 500 when it is larger in either dimension, none otherwise.
pub open spec fn artwork_bound(source: Seq<u8>) -> Option<(u32, u32)> {
    let (w, h) = image_size(source, None);
    if w > 500 || h > 500 {
        Some((500u32, 500u32))
    } else {
        None
    }
}

/// The stored form of the image decoded from `source`: scaled down to fit 500
/// by 500 when larger, then encoded as WebP.
pub open spec fn stored_artwork(source: Seq<u8>) -> Option<Seq<u8>> {
    webp_encoding(source, artwork_bound(source))
}

/// The stored form of an image: scaled down (keeping its aspect ratio) to fit
/// 500 by 500 pixels exactly when it is larger in either dimension, then encoded
/// as WebP; `None` when encoding fails. The stored image is never larger than 500
/// by 500.
pub fn fit_artwork(img: ArtworkImage) -> (r: Option<Vec<u8>>)
    requires
        img.bound() is None,
    ensures
        bytes_view(r) == stored_artwork(img.source()),
        image_size(img.source(), artwork_bound(img.source())).0 <= 500,
        image_size(img.source(), artwork_bound(img.source())).1 <= 500,
{
    let (width, height) = image_dimensions(&img);
    if needs_resize(width, height) {
        let small = resize_within(&img, ARTWORK_MAX_DIMENSION, ARTWORK_MAX_DIMENSION);
        encode_webp(&small)
    } else {
        encode_webp(&img)
    }
}

/// The stored form of a picture given its encoded bytes: `None` when the bytes
/// are not an image the decoder reads; otherwise the image scaled down to fit
/// 500 by 500 when larger, encoded as WebP (`None` when encoding fails). The
/// stored image is never larger than 500 by 500.
pub fn artwork_from_picture(data: &[u8]) -> (r: Option<Vec<u8>>)
    ensures
        !image_decodes(data@) ==> r is None,
        image_decodes(data@) ==> bytes_view(r) == stored_artwork(data@),
        image_decodes(data@) ==> image_size(data@, artwork_bound(data@)).0 <= 500 && image_size(
            data@,
            artwork_bound(data@),
        ).1 <= 500,
{
    match decode_image(data) {
        Some(img) => fit_artwork(img),
        None => None,
    }
}

/// The picture used from a tag's pictures, given for each whether it is a front
/// cover: the first front cover, otherwise the first picture.
pub fn choose_picture(is_front_cover: &Vec<bool>) -> (r: Option<usize>)
    ensures
        is_front_cover@.len() == 0 ==> r is None,
        (exists|i: int| 0 <= i < is_front_cover@.len() && #[trigger] is_front_cover@[i]) ==> (
        r matches Some(i) && i < is_front_cover@.len() && is_front_cover@[i as int] && forall|j: int|
            0 <= j < i ==> !#[trigger] is_front_cover@[j]),
        is_front_cover@.len() > 0 && (forall|i: int|
            0 <= i < is_front_cover@.len() ==> !#[trigger] is_front_cover@[i]) ==> r == Some(0usize),
{
    let mut i: usize = 0;
    while i < is_front_cover.len()
        invariant
            i <= is_front_cover@.len(),
            forall|j: int| 0 <= j < i ==> !#[trigger] is_front_cover@[j],
        decreases is_front_cover@.len() - i,
    {
        if is_front_cover[i] {
            return Some(i);
        }
        i = i + 1;
    }
    if is_front_cover.len() == 0 {
        None
    } else {
        Some(0)
    }
}

/// The BLAKE3 digest of `data` (what `blake3::hash` returns).
pub uninterp spec fn blake3_hash(data: Seq<u8>) -> Seq<u8>;

/// Calls `blake3::hash` and copies the 32-byte digest; the result is named by
/// `blake3_hash`.
#[verifier::external_body]
fn blake3_digest(data: &[u8]) -> (d: Vec<u8>)
    ensures
        d@ == blake3_hash(data@),
        d@.len() == 32,
{
    blake3::hash(data).as_bytes().to_vec()
}

fn bytes_equal(a: &Vec<u8>, b: &Vec<u8>) -> (r: bool)
    ensures
        r == (a@ == b@),
{
    if a.len() != b.len() {
        return false;
    }
    let mut i: usize = 0;
    while i < a.len()
        invariant
            i <= a@.len(),
            a@.len() == b@.len(),
            forall|j: int| 0 <= j < i ==> a@[j] == b@[j],
        decreases a@.len() - i,
    {
        if a[i] != b[i] {
            return false;
        }
        i = i + 1;
    }
    assert(a@ =~= b@);
    true
}

/// Several artwork files are identical when at least two were given, every one
/// could be read, and all have the same BLAKE3 digest.
pub open spec fn artworks_identical_spec(contents: Seq<Option<Vec<u8>>>) -> bool {
    &&& contents.len() >= 2
    &&& forall|i: int| 0 <= i < contents.len() ==> (#[trigger] contents[i]) is Some
    &&& forall|i: int|
        0 <= i < contents.len() ==> blake3_hash((#[trigger] contents[i])->0@) == blake3_hash(
            contents[0]->0@,
        )
}

/// Whether all the given artwork files (their bytes, `None` when a file could not
/// be read) have identical content. Fewer than two files, or an unreadable one,
/// are never identical.
pub fn are_artworks_identical(contents: &Vec<Option<Vec<u8>>>) -> (b: bool)
    ensures
        b == artworks_identical_spec(contents@),
{
    if contents.len() < 2 {
        return false;
    }
    let mut reference: Option<Vec<u8>> = None;
    let mut i: usize = 0;
    while i < contents.len()
        invariant
            2 <= contents@.len(),
            i <= contents@.len(),
            forall|j: int| 0 <= j < i ==> (#[trigger] contents@[j]) is Some,
            i == 0 <==> reference is None,
            reference matches Some(r) ==> r@ == blake3_hash(contents@[0]->0@),
            forall|j: int|
                0 <= j < i ==> blake3_hash((#[trigger] contents@[j])->0@) == blake3_hash(
                    contents@[0]->0@,
                ),
        decreases contents@.len() - i,
    {
        match &contents[i] {
            None => {
                return false;
            },
            Some(bytes) => {
                let h = blake3_digest(bytes.as_slice());
                match &reference {
                    None => {
                        reference = Some(h);
                    },
                    Some(r) => {
                        if !bytes_equal(&h, r) {
                            return false;
                        }
                    },
                }
            },
        }
        i = i + 1;
    }
    true
}

} // verus!
