//! Reading modes of books: per-book override, library default, global
//! default.

use vstd::prelude::*;
use crate::error::AppError;
use crate::text::{append_str, chars_eq_str, chars_of, opt_str_view, string_from_chars};

verus! {

/// The reading mode used when neither the book nor its library sets one.
pub const DEFAULT_READING_MODE: &'static str = "vertical";

/// Whether `m` names a reading mode: `vertical`, `horizontal_ltr`,
/// `horizontal_rtl` or `webtoon`.
pub open spec fn valid_reading_mode(m: Seq<char>) -> bool {
    m == "vertical"@ || m == "horizontal_ltr"@ || m == "horizontal_rtl"@ || m == "webtoon"@
}

/// Whether `mode` names a reading mode.
pub fn is_valid_reading_mode(mode: &str) -> (r: bool)
    ensures
        r == valid_reading_mode(mode@),
{
    let m = chars_of(mode);
    chars_eq_str(m.as_slice(), "vertical") || chars_eq_str(m.as_slice(), "horizontal_ltr")
        || chars_eq_str(m.as_slice(), "horizontal_rtl") || chars_eq_str(m.as_slice(), "webtoon")
}

/// The effective reading mode: the book's override when valid, else the
/// library default when valid, else `vertical`.
pub open spec fn effective_reading_mode(book_mode: Option<Seq<char>>, library_default: Option<Seq<char>>) -> Seq<char> {
    match book_mode {
        Some(m) if valid_reading_mode(m) => m,
        _ => match library_default {
            Some(d) if valid_reading_mode(d) => d,
            _ => "vertical"@,
        },
    }
}

/// Resolve the effective reading mode of a book from its own setting and
/// its library's default; invalid stored values are ignored, so the result
/// is always a valid mode.
pub fn resolve_reading_mode(book_mode: Option<&str>, library_default: Option<&str>) -> (r: String)
    ensures
        r@ == effective_reading_mode(opt_str_view(book_mode), opt_str_view(library_default)),
        valid_reading_mode(r@),
{
    if let Some(m) = book_mode {
        if is_valid_reading_mode(m) {
            return String::from_str(m);
        }
    }
    if let Some(d) = library_default {
        if is_valid_reading_mode(d) {
            return String::from_str(d);
        }
    }
    proof {
        reveal_strlit("vertical");
    }
    String::from_str(DEFAULT_READING_MODE)
}

/// Validation before a book's reading mode is set: a bad request naming the
/// mode unless it is valid.
pub fn check_reading_mode(mode: &str) -> (r: Result<(), AppError>)
    ensures
        r is Ok <==> valid_reading_mode(mode@),
        r matches Err(AppError::BadRequest(msg)) ==> msg@ == "Invalid reading mode: "@ + mode@,
        r is Err ==> r matches Err(AppError::BadRequest(_)),
{
    if is_valid_reading_mode(mode) {
        Ok(())
    } else {
        let mut msg = chars_of("Invalid reading mode: ");
        append_str(&mut msg, mode);
        Err(AppError::BadRequest(string_from_chars(msg.as_slice())))
    }
}

} // verus!
