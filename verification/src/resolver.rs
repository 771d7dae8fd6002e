//! Thumbnail resolver: an ordered chain of fallible strategies.
//!
//! The cache is consulted first; on a miss, recognised image bytes are
//! decoded, downscaled to a 128x128 bounding box with a nearest-neighbour
//! filter, re-encoded as JPEG and cached; recognised video files go
//! through an external frame extractor before the same downscale and
//! encode step.  Every failure degrades to "no preview" — a missing
//! thumbnail is never an error.  A `.lnk` indirection file is resolved to
//! its target before extension sniffing: the shell parses the shortcut's
//! bytes (a parse that may reject or even abort on crafted input, so it
//! stays outside the engine) and `pick_lnk_target` chooses the target.

use vstd::prelude::*;
use vstd::string::StrSliceExecFns;
use vstd::string::StringExecFns;

use base64::Engine;

use crate::strutil::{ext_of, lower_of, lowercase, str_eq};
use crate::thumbs::{hash_path, path_hash, set_thumb, spec_lookup, ThumbDb};

verus! {

/// The text that standard padded base64 yields for a byte string: a pure
/// function of the bytes alone, left unspecified here.
pub uninterp spec fn base64_of(bytes: Seq<u8>) -> Seq<char>;

/// Relies on `base64::engine::Engine::encode` with the standard alphabet
/// and padding: a deterministic text encoding of the bytes.
#[verifier::external_body]
pub fn base64_encode(bytes: &Vec<u8>) -> (r: String)
    ensures
        r@ == base64_of(bytes@),
{
    base64::engine::general_purpose::STANDARD.encode(bytes.as_slice())
}

/// The downscaled preview the image pipeline produces for raw media
/// bytes, absent when they do not decode or do not re-encode: a pure
/// function of the bytes alone, left unspecified here.
pub uninterp spec fn preview_of(data: Seq<u8>) -> Option<Seq<u8>>;

/// Relies on `image::load_from_memory` (decode in any guessed format),
/// `image::DynamicImage::resize` (128x128 bounding box, aspect ratio
/// preserved, nearest-neighbour filter) and `image::DynamicImage::write_to`
/// with the JPEG format: one deterministic pipeline from raw bytes to an
/// encoded preview, failing exactly when decoding or encoding fails.
#[verifier::external_body]
fn make_preview_bytes(data: &Vec<u8>) -> (r: Option<Vec<u8>>)
    ensures
        (r is Some) == (preview_of(data@) is Some),
        r matches Some(b) ==> Some(b@) == preview_of(data@),
{
    let img = image::load_from_memory(data.as_slice()).ok()?;
    let thumb = img.resize(128, 128, image::imageops::FilterType::Nearest);
    let mut buf = Vec::new();
    thumb.write_to(&mut std::io::Cursor::new(&mut buf), image::ImageFormat::Jpeg).ok()?;
    Some(buf)
}

/// What a file's extension says about how to produce its preview.
#[derive(Clone, Copy, Debug, PartialEq, Eq, Structural)]
pub enum MediaKind {
    /// A recognised raster image: decode the file's own bytes.
    Image,
    /// A recognised video container: ask the frame extractor.
    Video,
    /// Anything else: no decoder applies.
    Other,
}

/// The extension tag used for sniffing and stored as the row's type tag:
/// the final component's extension without its dot, case-folded.
pub open spec fn ext_tag_of(path: Seq<char>) -> Seq<char> {
    if ext_of(path).len() == 0 {
        lower_of(Seq::<char>::empty())
    } else {
        lower_of(ext_of(path).skip(1))
    }
}

/// Which decoder chain a path's extension selects.
pub open spec fn spec_classify(path: Seq<char>) -> MediaKind {
    let t = ext_tag_of(path);
    if t == "png"@ || t == "jpg"@ || t == "jpeg"@ || t == "gif"@ || t == "bmp"@ {
        MediaKind::Image
    } else if t == "mp4"@ || t == "mkv"@ || t == "mov"@ || t == "avi"@ || t == "flv"@ {
        MediaKind::Video
    } else {
        MediaKind::Other
    }
}

/// The case-folded extension tag of a path.
pub fn ext_tag(path: &str) -> (r: String)
    ensures
        r@ == ext_tag_of(path@),
{
    let (_stem, ext) = crate::strutil::split_stem_ext(path);
    if ext.unicode_len() == 0 {
        proof {
            reveal_strlit("");
            assert(""@ =~= Seq::<char>::empty());
        }
        lowercase("")
    } else {
        let n = ext.unicode_len();
        let tail = ext.as_str().substring_char(1, n);
        assert(tail@ =~= ext_of(path@).skip(1));
        lowercase(tail)
    }
}

/// Classify a path by its extension.
pub fn classify_extension(path: &str) -> (k: MediaKind)
    ensures
        k == spec_classify(path@),
{
    let t = ext_tag(path);
    let ts = t.as_str();
    if str_eq(ts, "png") || str_eq(ts, "jpg") || str_eq(ts, "jpeg") || str_eq(ts, "gif") || str_eq(
        ts,
        "bmp",
    ) {
        MediaKind::Image
    } else if str_eq(ts, "mp4") || str_eq(ts, "mkv") || str_eq(ts, "mov") || str_eq(ts, "avi")
        || str_eq(ts, "flv") {
        MediaKind::Video
    } else {
        MediaKind::Other
    }
}

/// Choose the target a `.lnk` file points at: the first of its parsed
/// local base path, relative path and working directory fields that is
/// present, else the original path unchanged.  The shell parses the
/// shortcut bytes and hands the fields in; the choice itself is the
/// engine's.
pub fn pick_lnk_target(
    local: Option<String>,
    relative: Option<String>,
    workdir: Option<String>,
    original: &str,
) -> (r: String)
    ensures
        r@ == (match local {
            Some(l) => l@,
            None => match relative {
                Some(x) => x@,
                None => match workdir {
                    Some(w) => w@,
                    None => original@,
                },
            },
        }),
{
    match local {
        Some(l) => l,
        None => match relative {
            Some(x) => x,
            None => match workdir {
                Some(w) => w,
                None => String::from_str(original),
            },
        },
    }
}

/// First strategy of the chain: answer from the cache under the path's
/// hash.  A preview comes back exactly for a fresh entry (modulo a
/// failing store, which reads as a miss), encoded as base64 text.
pub fn resolve_cached(db: &ThumbDb, path: &str, mtime: i64) -> (r: Option<String>)
    ensures
        r matches Some(s) ==> spec_lookup(db.rows(), path_hash(path@), mtime) matches Some(row)
            && s@ == base64_of(row.0),
        spec_lookup(db.rows(), path_hash(path@), mtime) is None ==> r is None,
{
    let hash = hash_path(path);
    match crate::thumbs::get_thumb(db, hash, mtime) {
        Ok(Some((bytes, _size, _tag))) => Some(base64_encode(&bytes)),
        Ok(None) => None,
        Err(_) => None,
    }
}

/// Produce, cache and return a preview from raw media bytes (a file's own
/// bytes for an image, an extracted frame for a video).  On success the
/// preview is upserted under the hash — a failing store write is
/// tolerated, the preview is still returned — and handed back as base64
/// text; a codec failure yields no preview and leaves the cache alone.
pub fn generate_preview(
    db: &mut ThumbDb,
    path: &str,
    mtime: i64,
    data: &Vec<u8>,
    size: Option<i64>,
    type_tag: Option<&str>,
) -> (r: Option<String>)
    ensures
        (r is Some) == (preview_of(data@) is Some),
        r is None ==> final(db).rows() == old(db).rows(),
        r matches Some(s) ==> (preview_of(data@) matches Some(buf) && {
            &&& s@ == base64_of(buf)
            &&& (final(db).rows() == old(db).rows() || final(db).rows() == old(db).rows().insert(
                path_hash(path@),
                (
                    mtime,
                    size,
                    match type_tag {
                        Some(t) => Some(t@),
                        None => None,
                    },
                    buf,
                ),
            ))
        }),
{
    match make_preview_bytes(data) {
        Some(buf) => {
            let hash = hash_path(path);
            let _ = set_thumb(db, hash, mtime, size, type_tag, &buf);
            let ghost b = buf@;
            let s = base64_encode(&buf);
            proof {
                assert(s@ == base64_of(b));
            }
            Some(s)
        },
        None => None,
    }
}

} // verus!
