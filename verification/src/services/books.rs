//! Book formats: which files a Books library holds, which archive entries
//! are page images, and the natural page order (`2` before `10`).

use std::cmp::Ordering;
use vstd::prelude::*;
use vstd::string::StringSliceAdditionalSpecFns;
use crate::error::AppError;
use crate::number::dec_str;
use crate::paths::{lemma_dotted_name_extension, path_extension, path_extension_of};
use crate::sort::{stable_sort, stable_sorted, SortOrder};
use crate::text::{
    append_str, ascii_upper, ascii_uppercase, chars_ends_with, chars_eq_str, chars_of, ends_with, lowercase, lowercase_chars,
    opt_str_view, string_from_chars,
};

verus! {

/// A book file format.
#[derive(Debug, Clone, Copy, PartialEq, Eq, Structural)]
pub enum BookFormat {
    Cbz,
    Pdf,
    Epub,
}

/// The lowercase name of a format.
pub open spec fn format_name(f: BookFormat) -> Seq<char> {
    match f {
        BookFormat::Cbz => "cbz"@,
        BookFormat::Pdf => "pdf"@,
        BookFormat::Epub => "epub"@,
    }
}

impl BookFormat {
    /// The lowercase name of the format, which is also its extension.
    pub fn as_str(&self) -> (r: &'static str)
        ensures
            r@ == format_name(*self),
    {
        match self {
            BookFormat::Cbz => "cbz",
            BookFormat::Pdf => "pdf",
            BookFormat::Epub => "epub",
        }
    }
}

/// File extensions recognised for Books libraries (lowercase, no dot).
pub open spec fn book_extensions() -> Seq<Seq<char>> {
    seq!["pdf"@, "cbz"@, "epub"@]
}

/// The format named by a lowercased extension.
pub open spec fn format_of_extension(ext: Seq<char>) -> Option<BookFormat> {
    if ext == "cbz"@ {
        Some(BookFormat::Cbz)
    } else if ext == "pdf"@ {
        Some(BookFormat::Pdf)
    } else if ext == "epub"@ {
        Some(BookFormat::Epub)
    } else {
        None
    }
}

/// What `detect` gives for a path: the format of its lowercased extension.
pub open spec fn detected_format(path: Seq<char>) -> Option<BookFormat> {
    match path_extension_of(path) {
        Some(ext) => format_of_extension(lowercase(ext)),
        None => None,
    }
}

/// The format named by an extension that is already lowercased (the second
/// half of `detect`).
pub fn format_from_extension(lowered: &str) -> (r: Option<BookFormat>)
    ensures
        r == format_of_extension(lowered@),
{
    let e = chars_of(lowered);
    if chars_eq_str(e.as_slice(), "cbz") {
        Some(BookFormat::Cbz)
    } else if chars_eq_str(e.as_slice(), "pdf") {
        Some(BookFormat::Pdf)
    } else if chars_eq_str(e.as_slice(), "epub") {
        Some(BookFormat::Epub)
    } else {
        None
    }
}

/// Detect the book format from a file path's extension, in any case.
pub fn detect(path: &str) -> (r: Option<BookFormat>)
    ensures
        r == detected_format(path@),
{
    match path_extension(path) {
        Some(ext) => {
            let e = chars_of(ext.as_str());
            let low = lowercase_chars(e.as_slice());
            let ls = string_from_chars(low.as_slice());
            format_from_extension(ls.as_str())
        },
        None => None,
    }
}

/// A file named `stem.ext` (a stem without `/`) whose extension is a
/// format's name, in lower or in upper case, is detected as that format.
pub proof fn detect_recognises_format_extension(stem: Seq<char>, f: BookFormat)
    requires
        stem.len() > 0,
        !stem.contains('/'),
    ensures
        detected_format(stem + seq!['.'] + format_name(f)) == Some(f),
        detected_format(stem + seq!['.'] + ascii_uppercase(format_name(f))) == Some(f),
{
    reveal_strlit("cbz");
    reveal_strlit("pdf");
    reveal_strlit("epub");
    let ext = format_name(f);
    let up = ascii_uppercase(ext);
    assert(forall|i: int| 0 <= i < ext.len() ==> 'a' <= #[trigger] ext[i] && ext[i] <= 'z');
    assert(!ext.contains('/') && !ext.contains('.')) by {
        if ext.contains('/') || ext.contains('.') {
            let k = choose|k: int| 0 <= k < ext.len() && (ext[k] == '/' || ext[k] == '.');
            assert('a' <= ext[k]);
        }
    }
    assert forall|i: int| 0 <= i < up.len() implies 'A' <= #[trigger] up[i] && up[i] <= 'Z'
        && crate::text::ascii_lower(up[i]) == ext[i] by {
        assert(up[i] == ascii_upper(ext[i]));
        assert('a' <= ext[i] && ext[i] <= 'z');
    }
    assert(!up.contains('/') && !up.contains('.')) by {
        if up.contains('/') || up.contains('.') {
            let k = choose|k: int| 0 <= k < up.len() && (up[k] == '/' || up[k] == '.');
            assert('A' <= up[k]);
        }
    }
    lemma_dotted_name_extension(stem, ext);
    lemma_dotted_name_extension(stem, up);
    assert(lowercase(ext) == ext) by {
        assert(crate::text::ascii_lowercase(ext) =~= ext);
    }
    assert(lowercase(up) == ext) by {
        assert(crate::text::ascii_lowercase(up) =~= ext);
    }
}

/// The image MIME type of a lowercased entry name, by its extension.
pub open spec fn mime_of_lowered(lower: Seq<char>) -> Option<Seq<char>> {
    if ends_with(lower, ".jpg"@) || ends_with(lower, ".jpeg"@) {
        Some("image/jpeg"@)
    } else if ends_with(lower, ".png"@) {
        Some("image/png"@)
    } else if ends_with(lower, ".gif"@) {
        Some("image/gif"@)
    } else if ends_with(lower, ".webp"@) {
        Some("image/webp"@)
    } else if ends_with(lower, ".bmp"@) {
        Some("image/bmp"@)
    } else {
        None
    }
}

fn mime_from_lowered(lower: &[char]) -> (r: Option<&'static str>)
    ensures
        opt_str_view(r) == mime_of_lowered(lower@),
{
    if chars_ends_with(lower, ".jpg") || chars_ends_with(lower, ".jpeg") {
        Some("image/jpeg")
    } else if chars_ends_with(lower, ".png") {
        Some("image/png")
    } else if chars_ends_with(lower, ".gif") {
        Some("image/gif")
    } else if chars_ends_with(lower, ".webp") {
        Some("image/webp")
    } else if chars_ends_with(lower, ".bmp") {
        Some("image/bmp")
    } else {
        None
    }
}

/// The MIME type of an archive entry that is a page image (JPEG, PNG, GIF,
/// WebP or BMP by its extension, in any case).
pub fn image_mime(name: &str) -> (r: Option<&'static str>)
    ensures
        opt_str_view(r) == mime_of_lowered(lowercase(name@)),
{
    let cs = chars_of(name);
    let low = lowercase_chars(cs.as_slice());
    mime_from_lowered(low.as_slice())
}

/// Whether a byte is an ASCII digit.
pub open spec fn is_ascii_digit(b: u8) -> bool {
    48 <= b && b <= 57
}

/// A byte with ASCII uppercase letters lowered.
pub open spec fn ascii_lower(b: u8) -> u8 {
    if 65 <= b && b <= 90 {
        (b + 32) as u8
    } else {
        b
    }
}

/// The number of leading ASCII digits.
pub open spec fn digit_run(s: Seq<u8>) -> int
    decreases s.len(),
{
    if s.len() > 0 && is_ascii_digit(s[0]) {
        1 + digit_run(s.drop_first())
    } else {
        0
    }
}

/// `s` without its leading `0` digits.
pub open spec fn strip_zeros(s: Seq<u8>) -> Seq<u8>
    decreases s.len(),
{
    if s.len() > 0 && s[0] == 48 {
        strip_zeros(s.drop_first())
    } else {
        s
    }
}

/// Byte-wise lexicographic order, as `str` orders.
pub open spec fn lex_order(a: Seq<u8>, b: Seq<u8>) -> Ordering
    decreases a.len(),
{
    if a.len() == 0 && b.len() == 0 {
        Ordering::Equal
    } else if a.len() == 0 {
        Ordering::Less
    } else if b.len() == 0 {
        Ordering::Greater
    } else if a[0] < b[0] {
        Ordering::Less
    } else if a[0] > b[0] {
        Ordering::Greater
    } else {
        lex_order(a.drop_first(), b.drop_first())
    }
}

/// Two numbers written in digits, compared by value: leading zeros are
/// skipped, a longer number is larger, and equal lengths compare digit by
/// digit.
pub open spec fn number_order(a: Seq<u8>, b: Seq<u8>) -> Ordering {
    let ta = strip_zeros(a);
    let tb = strip_zeros(b);
    if ta.len() < tb.len() {
        Ordering::Less
    } else if ta.len() > tb.len() {
        Ordering::Greater
    } else {
        lex_order(ta, tb)
    }
}

/// Natural order of two names (as UTF-8 bytes): runs of digits compare as
/// numbers, other bytes compare ASCII-case-insensitively, and a name that
/// is a prefix of the other comes first.
pub open spec fn natural_order(a: Seq<u8>, b: Seq<u8>) -> Ordering
    decreases a.len() + b.len(),
{
    if a.len() == 0 && b.len() == 0 {
        Ordering::Equal
    } else if a.len() == 0 {
        Ordering::Less
    } else if b.len() == 0 {
        Ordering::Greater
    } else if is_ascii_digit(a[0]) && is_ascii_digit(b[0]) {
        let na = digit_run(a);
        let nb = digit_run(b);
        let c = number_order(a.take(na), b.take(nb));
        if c == Ordering::Equal {
            if 0 < na <= a.len() && 0 < nb <= b.len() {
                natural_order(a.skip(na), b.skip(nb))
            } else {
                Ordering::Equal
            }
        } else {
            c
        }
    } else if ascii_lower(a[0]) != ascii_lower(b[0]) {
        if ascii_lower(a[0]) < ascii_lower(b[0]) {
            Ordering::Less
        } else {
            Ordering::Greater
        }
    } else {
        natural_order(a.drop_first(), b.drop_first())
    }
}

/// The bytes of `s` from index `i` on.
pub open spec fn tail(s: Seq<u8>, i: usize) -> Seq<u8> {
    s.skip(i as int)
}

/// The bytes of `s` from index `i + k` up to `j`.
pub open spec fn slice_from(s: Seq<u8>, i: usize, k: usize, j: usize) -> Seq<u8> {
    s.subrange(i as int + k as int, j as int)
}

proof fn lemma_digit_run_step(s: Seq<u8>, k: usize)
    requires
        k <= s.len(),
        s.len() <= usize::MAX,
    ensures
        k < s.len() && is_ascii_digit(s[k as int]) ==> digit_run(tail(s, k)) == 1 + digit_run(
            tail(s, (k + 1) as usize),
        ),
        !(k < s.len() && is_ascii_digit(s[k as int])) ==> digit_run(tail(s, k)) == 0,
        0 <= digit_run(tail(s, k)) <= s.len() - k,
    decreases s.len() - k,
{
    if k < s.len() {
        assert(s.skip(k as int).drop_first() =~= s.skip(k as int + 1));
        lemma_digit_run_step(s, (k + 1) as usize);
    }
}

/// The end of the run of digits that starts at `start`.
pub fn take_number(s: &[u8], start: usize) -> (end: usize)
    requires
        start <= s@.len(),
    ensures
        end == start + digit_run(tail(s@, start)),
        end <= s@.len(),
{
    let n = s.len();
    let mut end = start;
    proof {
        lemma_digit_run_step(s@, start);
    }
    while end < n && 48 <= s[end] && s[end] <= 57
        invariant
            start <= end <= s@.len(),
            n == s@.len(),
            digit_run(tail(s@, start)) == (end - start) + digit_run(tail(s@, end)),
        decreases s@.len() - end,
    {
        proof {
            lemma_digit_run_step(s@, end);
        }
        end = end + 1;
    }
    proof {
        lemma_digit_run_step(s@, end);
    }
    end
}

proof fn lemma_strip_zeros_range(s: Seq<u8>, lo: usize, hi: usize)
    requires
        lo < hi <= s.len(),
        s[lo as int] == 48,
    ensures
        strip_zeros(slice_from(s, lo, 0, hi)) == strip_zeros(slice_from(s, lo, 1, hi)),
{
    assert(s.subrange(lo as int, hi as int).drop_first() =~= s.subrange(lo as int + 1, hi as int));
}

proof fn lemma_strip_zeros_done(s: Seq<u8>, lo: usize, hi: usize)
    requires
        lo <= hi <= s.len(),
        lo == hi || s[lo as int] != 48,
    ensures
        strip_zeros(slice_from(s, lo, 0, hi)) == slice_from(s, lo, 0, hi),
{
}

proof fn lemma_slice_step(a: Seq<u8>, p: usize, k: usize, q: usize)
    requires
        p + k < q <= a.len(),
    ensures
        slice_from(a, p, k, q).drop_first() == slice_from(a, p, (k + 1) as usize, q),
{
    assert(a.subrange(p + k, q as int).drop_first() =~= a.subrange(p + k + 1, q as int));
}

proof fn lemma_lex_first(a: Seq<u8>, p: usize, k: usize, q: usize, b: Seq<u8>, r: usize, t: usize)
    requires
        p + k < q <= a.len(),
        r + k < t <= b.len(),
    ensures
        slice_from(a, p, k, q)[0] == a[p + k],
        slice_from(b, r, k, t)[0] == b[r + k],
        slice_from(a, p, k, q).len() > 0,
        slice_from(b, r, k, t).len() > 0,
{
}

proof fn lemma_empty_slices(a: Seq<u8>, p: usize, k: usize, q: usize, b: Seq<u8>, r: usize, t: usize)
    requires
        p + k == q <= a.len(),
        r + k == t <= b.len(),
    ensures
        slice_from(a, p, k, q).len() == 0,
        slice_from(b, r, k, t).len() == 0,
{
}

/// Compares the digit runs `a[i..ea]` and `b[j..eb]` by value.
fn compare_numbers(a: &[u8], i: usize, ea: usize, b: &[u8], j: usize, eb: usize) -> (r: Ordering)
    requires
        i <= ea <= a@.len(),
        j <= eb <= b@.len(),
    ensures
        r == number_order(slice_from(a@, i, 0, ea), slice_from(b@, j, 0, eb)),
{
    let mut za = i;
    while za < ea && a[za] == 48
        invariant
            i <= za <= ea,
            ea <= a@.len(),
            strip_zeros(slice_from(a@, i, 0, ea)) == strip_zeros(slice_from(a@, za, 0, ea)),
        decreases ea - za,
    {
        proof {
            lemma_strip_zeros_range(a@, za, ea);
        }
        za = za + 1;
    }
    proof {
        lemma_strip_zeros_done(a@, za, ea);
    }
    let mut zb = j;
    while zb < eb && b[zb] == 48
        invariant
            j <= zb <= eb,
            eb <= b@.len(),
            strip_zeros(slice_from(b@, j, 0, eb)) == strip_zeros(slice_from(b@, zb, 0, eb)),
        decreases eb - zb,
    {
        proof {
            lemma_strip_zeros_range(b@, zb, eb);
        }
        zb = zb + 1;
    }
    proof {
        lemma_strip_zeros_done(b@, zb, eb);
    }
    let la = ea - za;
    let lb = eb - zb;
    assert(slice_from(a@, za, 0, ea).len() == la);
    assert(slice_from(b@, zb, 0, eb).len() == lb);
    assert(strip_zeros(slice_from(a@, i, 0, ea)).len() == la);
    assert(strip_zeros(slice_from(b@, j, 0, eb)).len() == lb);
    if la < lb {
        return Ordering::Less;
    }
    if la > lb {
        return Ordering::Greater;
    }
    let mut k: usize = 0;
    while k < la
        invariant
            0 <= k <= la,
            la == lb,
            za + la == ea,
            zb + lb == eb,
            ea <= a@.len(),
            eb <= b@.len(),
            strip_zeros(slice_from(a@, i, 0, ea)) == slice_from(a@, za, 0, ea),
            strip_zeros(slice_from(b@, j, 0, eb)) == slice_from(b@, zb, 0, eb),
            lex_order(slice_from(a@, za, 0, ea), slice_from(b@, zb, 0, eb)) == lex_order(
                slice_from(a@, za, k, ea),
                slice_from(b@, zb, k, eb),
            ),
        decreases la - k,
    {
        let x = a[za + k];
        let y = b[zb + k];
        proof {
            lemma_lex_first(a@, za, k, ea, b@, zb, eb);
        }
        if x < y {
            return Ordering::Less;
        }
        if x > y {
            return Ordering::Greater;
        }
        proof {
            lemma_slice_step(a@, za, k, ea);
            lemma_slice_step(b@, zb, k, eb);
        }
        k = k + 1;
    }
    proof {
        lemma_empty_slices(a@, za, k, ea, b@, zb, eb);
    }
    Ordering::Equal
}

fn ascii_lower_byte(c: u8) -> (r: u8)
    ensures
        r == ascii_lower(c),
{
    if 65 <= c && c <= 90 {
        c + 32
    } else {
        c
    }
}

proof fn lemma_number_step(x: Seq<u8>, i: usize, ea: usize)
    requires
        i < x.len(),
        x.len() <= usize::MAX,
        ea <= x.len(),
        is_ascii_digit(x[i as int]),
        ea == i + digit_run(tail(x, i)),
    ensures
        tail(x, i).take(digit_run(tail(x, i))) == slice_from(x, i, 0, ea),
        tail(tail(x, i), (ea - i) as usize) == tail(x, ea),
        0 < digit_run(tail(x, i)) <= tail(x, i).len(),
        tail(x, i)[0] == x[i as int],
{
    lemma_digit_run_step(x, i);
    lemma_digit_run_step(x, (i + 1) as usize);
    assert(x.skip(i as int).take(ea - i) =~= x.subrange(i as int, ea as int));
    assert(x.skip(i as int).skip(ea - i) =~= x.skip(ea as int));
}

proof fn lemma_byte_step(x: Seq<u8>, i: usize)
    requires
        i < x.len(),
        x.len() <= usize::MAX,
    ensures
        tail(x, i).drop_first() == tail(x, (i + 1) as usize),
        tail(x, i)[0] == x[i as int],
        tail(x, i).len() > 0,
{
    assert(x.skip(i as int).drop_first() =~= x.skip(i as int + 1));
}

proof fn lemma_tail_len(x: Seq<u8>, i: usize)
    requires
        i <= x.len(),
    ensures
        tail(x, i).len() == x.len() - i,
        i == 0 ==> tail(x, i) == x,
{
    if i == 0 {
        assert(x.skip(0) =~= x);
    }
}

/// Natural order of two names, so that page file names sort as `2 < 10`
/// rather than `10 < 2`.
pub fn natural_cmp(a: &str, b: &str) -> (r: Ordering)
    ensures
        r == natural_order(a.spec_bytes(), b.spec_bytes()),
{
    let x = a.as_bytes();
    let y = b.as_bytes();
    assert(x@ == a.spec_bytes());
    let mut i: usize = 0;
    let mut j: usize = 0;
    proof {
        lemma_tail_len(x@, 0);
        lemma_tail_len(y@, 0);
    }
    loop
        invariant
            i <= x@.len(),
            j <= y@.len(),
            x@ == a.spec_bytes(),
            y@ == b.spec_bytes(),
            natural_order(x@, y@) == natural_order(tail(x@, i), tail(y@, j)),
        decreases x@.len() - i + y@.len() - j,
    {
        proof {
            lemma_tail_len(x@, i);
            lemma_tail_len(y@, j);
        }
        if i == x.len() && j == y.len() {
            return Ordering::Equal;
        }
        if i == x.len() {
            return Ordering::Less;
        }
        if j == y.len() {
            return Ordering::Greater;
        }
        let ca = x[i];
        let cb = y[j];
        proof {
            lemma_byte_step(x@, i);
            lemma_byte_step(y@, j);
        }
        if 48 <= ca && ca <= 57 && 48 <= cb && cb <= 57 {
            let ea = take_number(x, i);
            let eb = take_number(y, j);
            proof {
                lemma_number_step(x@, i, ea);
                lemma_number_step(y@, j, eb);
            }
            let c = compare_numbers(x, i, ea, y, j, eb);
            match c {
                Ordering::Equal => {
                    i = ea;
                    j = eb;
                },
                _ => {
                    return c;
                },
            }
        } else {
            let la = ascii_lower_byte(ca);
            let lb = ascii_lower_byte(cb);
            if la != lb {
                if la < lb {
                    return Ordering::Less;
                } else {
                    return Ordering::Greater;
                }
            }
            i = i + 1;
            j = j + 1;
        }
    }
}

impl SortOrder for String {
    /// Natural order of the names.
    open spec fn comes_after(a: String, b: String) -> bool {
        natural_order(vstd::utf8::encode_utf8(a@), vstd::utf8::encode_utf8(b@)) == Ordering::Greater
    }

    fn is_after(a: &String, b: &String) -> (r: bool) {
        match natural_cmp(a.as_str(), b.as_str()) {
            Ordering::Greater => true,
            _ => false,
        }
    }
}

/// The archive entries that are page images (files, not directories, with
/// an image extension), in archive order.
pub open spec fn image_entries(entries: Seq<(String, bool)>) -> Seq<String>
    decreases entries.len(),
{
    if entries.len() == 0 {
        Seq::empty()
    } else {
        let e = entries.last();
        let rest = image_entries(entries.drop_last());
        if !e.1 && mime_of_lowered(lowercase(e.0@)) is Some {
            rest.push(e.0)
        } else {
            rest
        }
    }
}

/// The sorted names of the page images of a CBZ archive, from its entries
/// as (name, is directory) pairs: directories and non-images are skipped
/// and the pages come in natural order.
pub fn cbz_image_names(entries: Vec<(String, bool)>) -> (r: Vec<String>)
    ensures
        r@ == stable_sorted(image_entries(entries@)),
{
    let mut names: Vec<String> = Vec::new();
    let mut i: usize = 0;
    while i < entries.len()
        invariant
            0 <= i <= entries@.len(),
            names@ == image_entries(entries@.take(i as int)),
        decreases entries@.len() - i,
    {
        assert(entries@.take(i + 1).drop_last() =~= entries@.take(i as int));
        let is_dir = entries[i].1;
        if !is_dir && image_mime(entries[i].0.as_str()).is_some() {
            names.push(entries[i].0.clone());
        }
        i = i + 1;
    }
    assert(entries@.take(entries@.len() as int) =~= entries@);
    stable_sort(names)
}

/// What `cbz_page` looks up for page `index`: the entry name and its image
/// type, or a not-found error past the last page.
pub open spec fn page_entry(names: Seq<String>, index: nat) -> Result<(Seq<char>, Seq<char>), Seq<char>> {
    if index < names.len() {
        Ok(
            (
                names[index as int]@,
                match mime_of_lowered(lowercase(names[index as int]@)) {
                    Some(m) => m,
                    None => "application/octet-stream"@,
                },
            ),
        )
    } else {
        Err("Page "@ + dec_str(index) + " not found"@)
    }
}

/// The entry name and MIME type of page `index` (0-based, natural order)
/// among the archive's sorted page names.
pub fn cbz_page_entry(names: &Vec<String>, index: usize) -> (r: Result<(String, &'static str), AppError>)
    ensures
        match (r, page_entry(names@, index as nat)) {
            (Ok((n, m)), Ok((sn, sm))) => n@ == sn && m@ == sm,
            (Err(AppError::NotFound(msg)), Err(smsg)) => msg@ == smsg,
            _ => false,
        },
{
    if index < names.len() {
        let name = names[index].clone();
        let mime = match image_mime(name.as_str()) {
            Some(m) => m,
            None => "application/octet-stream",
        };
        Ok((name, mime))
    } else {
        let mut msg = chars_of("Page ");
        crate::number::push_u64(&mut msg, index as u64);
        append_str(&mut msg, " not found");
        Err(AppError::NotFound(string_from_chars(msg.as_slice())))
    }
}

/// The opposite order.
pub open spec fn flipped(o: Ordering) -> Ordering {
    match o {
        Ordering::Less => Ordering::Greater,
        Ordering::Greater => Ordering::Less,
        Ordering::Equal => Ordering::Equal,
    }
}

proof fn lemma_lex_flip(a: Seq<u8>, b: Seq<u8>)
    ensures
        lex_order(a, b) == flipped(lex_order(b, a)),
        lex_order(a, a) == Ordering::Equal,
    decreases a.len(),
{
    if a.len() > 0 && b.len() > 0 {
        lemma_lex_flip(a.drop_first(), b.drop_first());
    }
    if a.len() > 0 {
        lemma_lex_flip(a.drop_first(), a.drop_first());
    }
}

/// Natural order is antisymmetric: swapping the names flips the result.
pub proof fn natural_order_antisymmetric(a: Seq<u8>, b: Seq<u8>)
    ensures
        natural_order(a, b) == flipped(natural_order(b, a)),
    decreases a.len() + b.len(),
{
    if a.len() > 0 && b.len() > 0 {
        if is_ascii_digit(a[0]) && is_ascii_digit(b[0]) {
            let na = digit_run(a);
            let nb = digit_run(b);
            lemma_lex_flip(strip_zeros(a.take(na)), strip_zeros(b.take(nb)));
            if 0 < na <= a.len() && 0 < nb <= b.len() {
                natural_order_antisymmetric(a.skip(na), b.skip(nb));
            }
        } else {
            natural_order_antisymmetric(a.drop_first(), b.drop_first());
        }
    }
}

/// Every name is naturally equal to itself.
pub proof fn natural_order_reflexive(a: Seq<u8>)
    ensures
        natural_order(a, a) == Ordering::Equal,
    decreases a.len(),
{
    if a.len() > 0 {
        if is_ascii_digit(a[0]) {
            let na = digit_run(a);
            lemma_lex_flip(strip_zeros(a.take(na)), strip_zeros(a.take(na)));
            if 0 < na <= a.len() {
                natural_order_reflexive(a.skip(na));
            }
        } else {
            natural_order_reflexive(a.drop_first());
        }
    }
}

/// Whether `o` is `Less` or `Equal`.
pub open spec fn not_greater(o: Ordering) -> bool {
    o != Ordering::Greater
}

proof fn lemma_lex_trans(a: Seq<u8>, b: Seq<u8>, c: Seq<u8>)
    ensures
        not_greater(lex_order(a, b)) && not_greater(lex_order(b, c)) ==> not_greater(lex_order(a, c)),
        lex_order(a, b) == Ordering::Less && not_greater(lex_order(b, c)) ==> lex_order(a, c)
            == Ordering::Less,
        not_greater(lex_order(a, b)) && lex_order(b, c) == Ordering::Less ==> lex_order(a, c)
            == Ordering::Less,
    decreases a.len(),
{
    if a.len() > 0 && b.len() > 0 && c.len() > 0 {
        lemma_lex_trans(a.drop_first(), b.drop_first(), c.drop_first());
    }
}

proof fn lemma_number_trans(a: Seq<u8>, b: Seq<u8>, c: Seq<u8>)
    ensures
        not_greater(number_order(a, b)) && not_greater(number_order(b, c)) ==> not_greater(
            number_order(a, c),
        ),
        number_order(a, b) == Ordering::Less && not_greater(number_order(b, c)) ==> number_order(a, c)
            == Ordering::Less,
        not_greater(number_order(a, b)) && number_order(b, c) == Ordering::Less ==> number_order(a, c)
            == Ordering::Less,
{
    lemma_lex_trans(strip_zeros(a), strip_zeros(b), strip_zeros(c));
}

proof fn lemma_digit_run_bounds(s: Seq<u8>)
    ensures
        0 <= digit_run(s) <= s.len(),
        s.len() > 0 && is_ascii_digit(s[0]) ==> digit_run(s) >= 1,
    decreases s.len(),
{
    if s.len() > 0 && is_ascii_digit(s[0]) {
        lemma_digit_run_bounds(s.drop_first());
    }
}

/// Natural order is transitive: a name at or before a second, which is at
/// or before a third, is at or before the third, and strictly before it if
/// either step is strict.
pub proof fn natural_order_transitive(a: Seq<u8>, b: Seq<u8>, c: Seq<u8>)
    ensures
        not_greater(natural_order(a, b)) && not_greater(natural_order(b, c)) ==> not_greater(
            natural_order(a, c),
        ),
        natural_order(a, b) == Ordering::Less && not_greater(natural_order(b, c)) ==> natural_order(
            a,
            c,
        ) == Ordering::Less,
        not_greater(natural_order(a, b)) && natural_order(b, c) == Ordering::Less ==> natural_order(
            a,
            c,
        ) == Ordering::Less,
    decreases a.len() + b.len() + c.len(),
{
    if a.len() > 0 && b.len() > 0 && c.len() > 0 {
        lemma_digit_run_bounds(a);
        lemma_digit_run_bounds(b);
        lemma_digit_run_bounds(c);
        if is_ascii_digit(a[0]) && is_ascii_digit(b[0]) && is_ascii_digit(c[0]) {
            let na = digit_run(a);
            let nb = digit_run(b);
            let nc = digit_run(c);
            lemma_number_trans(a.take(na), b.take(nb), c.take(nc));
            natural_order_transitive(a.skip(na), b.skip(nb), c.skip(nc));
        } else if !is_ascii_digit(a[0]) && !is_ascii_digit(b[0]) && !is_ascii_digit(c[0]) {
            natural_order_transitive(a.drop_first(), b.drop_first(), c.drop_first());
        }
    }
}

/// The pages of a CBZ archive come out in natural order (no page before
/// any later one that naturally precedes it), each image entry exactly
/// once.
pub proof fn cbz_pages_in_natural_order(entries: Seq<(String, bool)>)
    ensures
        crate::sort::pairwise_sorted(stable_sorted(image_entries(entries))),
        stable_sorted(image_entries(entries)).to_multiset() == image_entries(entries).to_multiset(),
{
    assert forall|a: String, b: String| #[trigger]
        String::comes_after(a, b) implies !String::comes_after(
        b,
        a,
    ) by {
        natural_order_antisymmetric(vstd::utf8::encode_utf8(a@), vstd::utf8::encode_utf8(b@));
    }
    assert forall|a: String, b: String, c: String|
        #![trigger String::comes_after(a, b), String::comes_after(b, c)]
        !String::comes_after(a, b) && !String::comes_after(b, c)
            implies !String::comes_after(a, c) by {
        natural_order_transitive(
            vstd::utf8::encode_utf8(a@),
            vstd::utf8::encode_utf8(b@),
            vstd::utf8::encode_utf8(c@),
        );
    }
    crate::sort::stable_sorted_is_pairwise_sorted(image_entries(entries));
    crate::sort::stable_sorted_is_permutation(image_entries(entries));
}

} // verus!
