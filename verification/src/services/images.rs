//! Image helpers: the photo extensions of Images libraries and the cache
//! file name of a downloaded poster or cover.

use vstd::prelude::*;
use vstd::string::StringSliceAdditionalSpecFns;
use crate::number::hex_bytes;
use crate::text::{
    chars_ends_with, chars_of, ends_with, lowercase, lowercase_chars, string_from_chars,
    trim_chars, trimmed,
};

verus! {

/// Supported photo file extensions for Images libraries.
pub open spec fn image_extensions() -> Seq<Seq<char>> {
    seq![
        "jpg"@,
        "jpeg"@,
        "png"@,
        "gif"@,
        "webp"@,
        "bmp"@,
        "tiff"@,
        "tif"@,
        "heic"@,
        "heif"@,
    ]
}

/// The supported photo file extensions, lowercase, without the dot.
pub const IMAGE_EXTENSIONS: [&'static str; 10] = [
    "jpg",
    "jpeg",
    "png",
    "gif",
    "webp",
    "bmp",
    "tiff",
    "tif",
    "heic",
    "heif",
];

/// What `md5::compute` gives for `data`: its MD5 digest.
pub uninterp spec fn md5_digest(data: Seq<u8>) -> Seq<u8>;

/// `md5::compute`: the MD5 digest of `data`, 16 bytes (the crate's
/// `Digest` wraps a `[u8; 16]`). Named by `md5_digest`.
#[verifier::external_body]
fn md5_compute(data: &[u8]) -> (r: Vec<u8>)
    ensures
        r@ == md5_digest(data@),
        r@.len() == 16,
{
    md5::compute(data).0.to_vec()
}

/// The cache file name of a downloaded image: the lowercase hex MD5 of the
/// URL's bytes, with `.png` when the URL ends in `.png` (in any case) and
/// `.jpg` otherwise. None for an empty URL, which is not downloaded.
pub open spec fn thumbnail_name_of(url: Seq<char>) -> Option<Seq<char>> {
    if url.len() == 0 {
        None
    } else {
        Some(
            hex_bytes(md5_digest(vstd::utf8::encode_utf8(url))) + if ends_with(
                lowercase(url),
                ".png"@,
            ) {
                ".png"@
            } else {
                ".jpg"@
            },
        )
    }
}

/// The file name under which an image downloaded from `url` is cached,
/// hashed so duplicates and odd characters do no harm.
pub fn thumbnail_file_name(url: &str) -> (r: Option<String>)
    ensures
        match r {
            Some(n) => thumbnail_name_of(url@) == Some(n@),
            None => thumbnail_name_of(url@) is None,
        },
{
    let uc = chars_of(url);
    if uc.len() == 0 {
        return None;
    }
    let digest = md5_compute(url.as_bytes());
    let mut name: Vec<char> = Vec::new();
    crate::number::push_hex_bytes(&mut name, digest.as_slice());
    let low = lowercase_chars(uc.as_slice());
    if chars_ends_with(low.as_slice(), ".png") {
        crate::text::append_str(&mut name, ".png");
    } else {
        crate::text::append_str(&mut name, ".jpg");
    }
    Some(string_from_chars(name.as_slice()))
}

/// `s` without the `"` characters at either end.
pub open spec fn strip_quotes(s: Seq<char>) -> Seq<char>
    decreases s.len(),
{
    if s.len() > 0 && s[0] == '"' {
        strip_quotes(s.drop_first())
    } else if s.len() > 0 && s.last() == '"' {
        strip_quotes(s.drop_last())
    } else {
        s
    }
}

/// The text of an EXIF field as shown: its displayed value without the
/// surrounding quotes and white space; nothing when that leaves it empty.
pub open spec fn exif_text_of(displayed: Seq<char>) -> Option<Seq<char>> {
    let t = trimmed(strip_quotes(displayed));
    if t.len() > 0 {
        Some(t)
    } else {
        None
    }
}

/// The text of an EXIF field from its displayed value.
pub fn exif_text(displayed: &str) -> (r: Option<String>)
    ensures
        match r {
            Some(s) => exif_text_of(displayed@) == Some(s@),
            None => exif_text_of(displayed@) is None,
        },
{
    let cs = chars_of(displayed);
    let mut lo: usize = 0;
    let mut hi: usize = cs.len();
    assert(cs@.subrange(0, cs@.len() as int) =~= cs@);
    while lo < hi && (cs[lo] == '"' || cs[hi - 1] == '"')
        invariant
            0 <= lo <= hi <= cs@.len(),
            cs@ == displayed@,
            strip_quotes(displayed@) == strip_quotes(cs@.subrange(lo as int, hi as int)),
        decreases hi - lo,
    {
        let ghost cur = cs@.subrange(lo as int, hi as int);
        if cs[lo] == '"' {
            assert(cur.drop_first() =~= cs@.subrange(lo + 1, hi as int));
            lo = lo + 1;
        } else {
            assert(cur.drop_last() =~= cs@.subrange(lo as int, hi - 1));
            hi = hi - 1;
        }
    }
    let ghost rest = cs@.subrange(lo as int, hi as int);
    assert(strip_quotes(rest) == rest);
    let inner = vstd::slice::slice_subrange(cs.as_slice(), lo, hi);
    let t = trim_chars(inner);
    if t.len() > 0 {
        Some(string_from_chars(t.as_slice()))
    } else {
        None
    }
}

} // verus!
