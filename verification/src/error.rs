//! Errors the services report.

use vstd::prelude::*;
use crate::number::{int_str, push_i64};
use crate::text::{append_str, string_from_chars};

verus! {

/// An error of a service, with the message shown to the client.
#[derive(Debug, Clone)]
pub enum AppError {
    Internal(String),
    NotFound(String),
    BadRequest(String),
    Forbidden(String),
    External(String),
    MediaNotFound(i64),
    LibraryNotFound(i64),
}

/// The message for a missing record: `"{kind} {id} not found"`.
pub open spec fn not_found_text(kind: Seq<char>, id: i64) -> Seq<char> {
    kind + " "@ + int_str(id as int) + " not found"@
}

/// The error for a missing record of kind `kind` (`"Gallery"`, `"Book"`,
/// ...) with id `id`.
pub fn not_found(kind: &str, id: i64) -> (r: AppError)
    ensures
        r matches AppError::NotFound(m) && m@ == not_found_text(kind@, id),
{
    let mut out: Vec<char> = Vec::new();
    append_str(&mut out, kind);
    append_str(&mut out, " ");
    push_i64(&mut out, id);
    append_str(&mut out, " not found");
    assert(out@ =~= not_found_text(kind@, id));
    AppError::NotFound(string_from_chars(out.as_slice()))
}

} // verus!
