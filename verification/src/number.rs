//! Decimal and hexadecimal text for integers: what `Display`, `LowerHex`
//! and `FromStr` give for the integer types this library uses.

use vstd::prelude::*;
use crate::text::chars_of;

verus! {

/// The ASCII digit for `d` (0 to 9).
pub open spec fn digit_char(d: int) -> char {
    if d == 0 {
        '0'
    } else if d == 1 {
        '1'
    } else if d == 2 {
        '2'
    } else if d == 3 {
        '3'
    } else if d == 4 {
        '4'
    } else if d == 5 {
        '5'
    } else if d == 6 {
        '6'
    } else if d == 7 {
        '7'
    } else if d == 8 {
        '8'
    } else {
        '9'
    }
}

/// The lowercase hexadecimal digit for `d` (0 to 15).
pub open spec fn hex_char(d: int) -> char {
    if d < 10 {
        digit_char(d)
    } else if d == 10 {
        'a'
    } else if d == 11 {
        'b'
    } else if d == 12 {
        'c'
    } else if d == 13 {
        'd'
    } else if d == 14 {
        'e'
    } else {
        'f'
    }
}

/// Whether `c` is an ASCII decimal digit.
pub open spec fn is_digit(c: char) -> bool {
    '0' <= c && c <= '9'
}

/// The value of the ASCII digit `c`.
pub open spec fn digit_value(c: char) -> int {
    c as int - '0' as int
}

/// The decimal numeral of `n`, without leading zeros (`"0"` for zero).
pub open spec fn dec_str(n: nat) -> Seq<char>
    decreases n,
{
    if n < 10 {
        seq![digit_char(n as int)]
    } else {
        dec_str(n / 10).push(digit_char((n % 10) as int))
    }
}

/// The decimal numeral of `v`, with a leading `-` when negative, as
/// `Display` writes an integer.
pub open spec fn int_str(v: int) -> Seq<char> {
    if v < 0 {
        seq!['-'] + dec_str((-v) as nat)
    } else {
        dec_str(v as nat)
    }
}

/// The lowest `width` hexadecimal digits of `v`, zero-padded, as
/// `format!("{:0width$x}")` writes `v` when it fits in `width` digits.
pub open spec fn hex_padded(v: nat, width: nat) -> Seq<char>
    decreases width,
{
    if width == 0 {
        Seq::empty()
    } else {
        hex_padded(v / 16, (width - 1) as nat).push(hex_char((v % 16) as int))
    }
}

/// Each byte as two lowercase hexadecimal digits, in order.
pub open spec fn hex_bytes(b: Seq<u8>) -> Seq<char>
    decreases b.len(),
{
    if b.len() == 0 {
        Seq::empty()
    } else {
        hex_bytes(b.drop_last()) + hex_padded(b.last() as nat, 2)
    }
}

/// Whether every character of `s` is an ASCII digit.
pub open spec fn all_digits(s: Seq<char>) -> bool {
    forall|i: int| 0 <= i < s.len() ==> is_digit(#[trigger] s[i])
}

/// The value of a string of decimal digits.
pub open spec fn digits_value(s: Seq<char>) -> nat
    decreases s.len(),
{
    if s.len() == 0 {
        0
    } else {
        (digits_value(s.drop_last()) * 10 + digit_value(s.last())) as nat
    }
}

/// The integer that `s` spells as `FromStr` for a signed integer reads it:
/// an optional `+` or `-`, then one or more ASCII digits, nothing else.
pub open spec fn parsed_int(s: Seq<char>) -> Option<int> {
    let signed = s.len() > 0 && (s[0] == '-' || s[0] == '+');
    let body = if signed {
        s.drop_first()
    } else {
        s
    };
    if body.len() > 0 && all_digits(body) {
        if s[0] == '-' {
            Some(-(digits_value(body) as int))
        } else {
            Some(digits_value(body) as int)
        }
    } else {
        None
    }
}

/// What `str::parse::<i64>` gives for `s`: `Some` exactly when `s` spells an
/// integer in range.
pub open spec fn parse_i64_spec(s: Seq<char>) -> Option<i64> {
    match parsed_int(s) {
        Some(v) => if i64::MIN <= v <= i64::MAX {
            Some(v as i64)
        } else {
            None
        },
        None => None,
    }
}

/// The ASCII digit for `d`.
pub fn digit_to_char(d: u64) -> (c: char)
    requires
        d < 10,
    ensures
        c == digit_char(d as int),
{
    if d == 0 {
        '0'
    } else if d == 1 {
        '1'
    } else if d == 2 {
        '2'
    } else if d == 3 {
        '3'
    } else if d == 4 {
        '4'
    } else if d == 5 {
        '5'
    } else if d == 6 {
        '6'
    } else if d == 7 {
        '7'
    } else if d == 8 {
        '8'
    } else {
        '9'
    }
}

/// The lowercase hexadecimal digit for `d`.
pub fn hex_to_char(d: u64) -> (c: char)
    requires
        d < 16,
    ensures
        c == hex_char(d as int),
{
    if d < 10 {
        digit_to_char(d)
    } else if d == 10 {
        'a'
    } else if d == 11 {
        'b'
    } else if d == 12 {
        'c'
    } else if d == 13 {
        'd'
    } else if d == 14 {
        'e'
    } else {
        'f'
    }
}

/// Appends the decimal numeral of `n` to `out`.
pub fn push_u64(out: &mut Vec<char>, n: u64)
    ensures
        final(out)@ == old(out)@ + dec_str(n as nat),
{
    let mut rev: Vec<char> = Vec::new();
    let mut q: u64 = n;
    while q >= 10
        invariant
            dec_str(n as nat) == dec_str(q as nat) + rev@.reverse(),
        decreases q,
    {
        let ghost old_rev = rev@;
        rev.push(digit_to_char(q % 10));
        assert(rev@.reverse() =~= seq![digit_char((q % 10) as int)] + old_rev.reverse());
        assert(dec_str(q as nat) == dec_str((q / 10) as nat).push(digit_char((q % 10) as int)));
        assert(dec_str(q as nat) + old_rev.reverse() =~= dec_str((q / 10) as nat) + rev@.reverse());
        q = q / 10;
    }
    rev.push(digit_to_char(q));
    assert(dec_str(n as nat) =~= rev@.reverse());
    let mut k: usize = rev.len();
    let ghost start = out@;
    while k > 0
        invariant
            0 <= k <= rev@.len(),
            out@ =~= start + rev@.reverse().subrange(0, rev@.len() - k),
        decreases k,
    {
        k = k - 1;
        out.push(rev[k]);
        assert(rev@.reverse().subrange(0, rev@.len() - k) =~= rev@.reverse().subrange(
            0,
            rev@.len() - k - 1,
        ).push(rev@[k as int]));
    }
    assert(rev@.reverse().subrange(0, rev@.len() as int) =~= rev@.reverse());
}

/// Appends the decimal numeral of `v` (with `-` when negative) to `out`.
pub fn push_i64(out: &mut Vec<char>, v: i64)
    ensures
        final(out)@ == old(out)@ + int_str(v as int),
{
    if v < 0 {
        out.push('-');
        let m: u64 = (0i128 - v as i128) as u64;
        let ghost mid = out@;
        push_u64(out, m);
        assert(out@ =~= old(out)@ + (seq!['-'] + dec_str(m as nat)));
    } else {
        push_u64(out, v as u64);
    }
}

/// The decimal numeral of `n`, as `n.to_string()` gives it.
pub fn u64_to_chars(n: u64) -> (r: Vec<char>)
    ensures
        r@ == dec_str(n as nat),
{
    let mut r: Vec<char> = Vec::new();
    push_u64(&mut r, n);
    assert(r@ =~= dec_str(n as nat));
    r
}

/// The decimal numeral of `v`, as `v.to_string()` gives it.
pub fn i64_to_chars(v: i64) -> (r: Vec<char>)
    ensures
        r@ == int_str(v as int),
{
    let mut r: Vec<char> = Vec::new();
    push_i64(&mut r, v);
    assert(r@ =~= int_str(v as int));
    r
}

/// Appends the lowest `width` hexadecimal digits of `v` to `out`.
pub fn push_hex_padded(out: &mut Vec<char>, v: u64, width: u64)
    ensures
        final(out)@ == old(out)@ + hex_padded(v as nat, width as nat),
    decreases width,
{
    if width > 0 {
        push_hex_padded(out, v / 16, width - 1);
        out.push(hex_to_char(v % 16));
        assert(out@ =~= old(out)@ + hex_padded(v as nat, width as nat));
    } else {
        assert(out@ =~= old(out)@ + hex_padded(v as nat, width as nat));
    }
}

/// Appends each byte of `b` as two lowercase hexadecimal digits.
pub fn push_hex_bytes(out: &mut Vec<char>, b: &[u8])
    ensures
        final(out)@ == old(out)@ + hex_bytes(b@),
{
    let ghost start = out@;
    let mut i: usize = 0;
    while i < b.len()
        invariant
            0 <= i <= b@.len(),
            out@ == start + hex_bytes(b@.take(i as int)),
        decreases b@.len() - i,
    {
        assert(b@.take(i + 1).drop_last() =~= b@.take(i as int));
        push_hex_padded(out, b[i] as u64, 2);
        assert(out@ =~= start + hex_bytes(b@.take(i + 1)));
        i = i + 1;
    }
    assert(b@.take(b@.len() as int) =~= b@);
}

proof fn lemma_digits_value_step(s: Seq<char>, k: int)
    requires
        0 <= k < s.len(),
        is_digit(s[k]),
    ensures
        digits_value(s.take(k + 1)) == digits_value(s.take(k)) * 10 + digit_value(s[k]),
{
    assert(s.take(k + 1).drop_last() =~= s.take(k));
}

/// Reads `s` as `str::parse::<i64>` does.
pub fn parse_i64(s: &[char]) -> (r: Option<i64>)
    ensures
        r == parse_i64_spec(s@),
{
    let n = s.len();
    if n == 0 {
        return None;
    }
    let neg = s[0] == '-';
    let start: usize = if s[0] == '-' || s[0] == '+' {
        1
    } else {
        0
    };
    let ghost body = s@.subrange(start as int, n as int);
    assert(body =~= if s@.len() > 0 && (s@[0] == '-' || s@[0] == '+') {
        s@.drop_first()
    } else {
        s@
    });
    if start >= n {
        return None;
    }
    let cap: u64 = 0x8000_0000_0000_0001;
    let mut acc: u64 = 0;
    let mut i: usize = start;
    while i < n
        invariant
            start <= i <= n,
            n == s@.len(),
            start < n,
            body == s@.subrange(start as int, n as int),
            body == if s@.len() > 0 && (s@[0] == '-' || s@[0] == '+') {
                s@.drop_first()
            } else {
                s@
            },
            neg == (s@[0] == '-'),
            cap == 0x8000_0000_0000_0001u64,
            all_digits(s@.subrange(start as int, i as int)),
            acc as int == if digits_value(body.take(i - start)) < cap {
                digits_value(body.take(i - start)) as int
            } else {
                cap as int
            },
        decreases n - i,
    {
        let c = s[i];
        if !('0' <= c && c <= '9') {
            assert(body[i - start] == c);
            assert(!all_digits(body));
            return None;
        }
        proof {
            assert(body[i - start] == c);
            lemma_digits_value_step(body, i - start);
        }
        let d: u64 = (c as u32 - '0' as u32) as u64;
        assert(d as int == digit_value(c));
        if acc >= cap {
            acc = cap;
        } else {
            let next: u128 = acc as u128 * 10 + d as u128;
            acc = if next < cap as u128 {
                next as u64
            } else {
                cap
            };
        }
        assert(s@.subrange(start as int, i + 1) =~= s@.subrange(start as int, i as int).push(c));
        i = i + 1;
    }
    assert(body.take(n - start) =~= body);
    assert(all_digits(body));
    if neg {
        if acc <= 0x8000_0000_0000_0000 {
            Some((0i128 - acc as i128) as i64)
        } else {
            None
        }
    } else {
        if acc <= 0x7fff_ffff_ffff_ffff {
            Some(acc as i64)
        } else {
            None
        }
    }
}

/// A digit character is a digit and reads back as its value.
pub proof fn lemma_digit_char(d: int)
    requires
        0 <= d < 10,
    ensures
        is_digit(digit_char(d)),
        digit_value(digit_char(d)) == d,
{
    if d == 0 {
    } else if d == 1 {
    } else if d == 2 {
    } else if d == 3 {
    } else if d == 4 {
    } else if d == 5 {
    } else if d == 6 {
    } else if d == 7 {
    } else if d == 8 {
    } else {
    }
}

/// A decimal numeral is all digits and reads back as its number.
pub proof fn lemma_dec_str(n: nat)
    ensures
        dec_str(n).len() >= 1,
        all_digits(dec_str(n)),
        digits_value(dec_str(n)) == n,
    decreases n,
{
    lemma_digit_char((n % 10) as int);
    if n < 10 {
        let s = dec_str(n);
        assert(s.drop_last() =~= Seq::<char>::empty());
        assert(digits_value(s.drop_last()) == 0);
        assert(s.last() == digit_char(n as int));
        assert(digits_value(s) == n);
    } else {
        lemma_dec_str(n / 10);
        let s = dec_str(n);
        assert(s.drop_last() =~= dec_str(n / 10));
        assert(s.last() == digit_char((n % 10) as int));
        assert(digits_value(s) == digits_value(dec_str(n / 10)) * 10 + (n % 10));
        assert forall|i: int| 0 <= i < s.len() implies is_digit(#[trigger] s[i]) by {
            if i < s.len() - 1 {
                assert(s[i] == dec_str(n / 10)[i]);
            }
        }
    }
}

/// The numeral of an integer is not empty and does not start with `/`.
pub proof fn lemma_int_str_relative(v: i64)
    ensures
        int_str(v as int).len() >= 1,
        int_str(v as int)[0] != '/',
{
    if v < 0 {
        lemma_dec_str((-v) as nat);
    } else {
        lemma_dec_str(v as nat);
        assert(is_digit(dec_str(v as nat)[0]));
    }
}

/// The numeral of a non-negative `i64` parses back to it.
pub proof fn lemma_parse_dec_str(v: i64)
    requires
        v >= 0,
    ensures
        parse_i64_spec(dec_str(v as nat)) == Some(v),
{
    lemma_dec_str(v as nat);
    let s = dec_str(v as nat);
    assert(is_digit(s[0]));
}

/// The zero-padded decimal numeral of `n`, at least `width` characters
/// long, as `{:0width$}` writes it.
pub open spec fn dec_padded(n: nat, width: nat) -> Seq<char> {
    if dec_str(n).len() >= width {
        dec_str(n)
    } else {
        Seq::new((width - dec_str(n).len()) as nat, |i: int| '0') + dec_str(n)
    }
}

/// Appends the numeral of `n`, zero-padded to `width` characters.
pub fn push_u64_padded(out: &mut Vec<char>, n: u64, width: usize)
    ensures
        final(out)@ == old(out)@ + dec_padded(n as nat, width as nat),
{
    let digits = u64_to_chars(n);
    let ghost start = out@;
    let mut pad: usize = 0;
    if digits.len() < width {
        pad = width - digits.len();
    }
    let mut i: usize = 0;
    while i < pad
        invariant
            0 <= i <= pad,
            out@ == start + Seq::new(i as nat, |k: int| '0'),
        decreases pad - i,
    {
        out.push('0');
        assert(out@ =~= start + Seq::new((i + 1) as nat, |k: int| '0'));
        i = i + 1;
    }
    let ghost mid = out@;
    let mut j: usize = 0;
    while j < digits.len()
        invariant
            0 <= j <= digits@.len(),
            out@ == mid + digits@.take(j as int),
        decreases digits@.len() - j,
    {
        out.push(digits[j]);
        assert(out@ =~= mid + digits@.take(j + 1));
        j = j + 1;
    }
    assert(digits@.take(digits@.len() as int) =~= digits@);
    if digits.len() < width {
        assert(out@ =~= start + dec_padded(n as nat, width as nat));
    } else {
        assert(Seq::new(0nat, |k: int| '0') + digits@ =~= digits@);
        assert(out@ =~= start + dec_padded(n as nat, width as nat));
    }
}

/// What `s.get(0..4)` parsed as an `i64` gives: the first four characters
/// read as a number when they are ASCII (a four-byte prefix), else nothing.
pub open spec fn leading_year(s: Seq<char>) -> Option<i64> {
    if s.len() >= 4 && (forall|i: int| 0 <= i < 4 ==> #[trigger] s[i] < '\u{80}') {
        parse_i64_spec(s.take(4))
    } else {
        None
    }
}

/// The year at the start of a date or tag such as `2019-04-01`.
pub fn year_prefix(s: &str) -> (r: Option<i64>)
    ensures
        r == leading_year(s@),
{
    let cs = chars_of(s);
    if cs.len() < 4 {
        return None;
    }
    let mut i: usize = 0;
    while i < 4
        invariant
            0 <= i <= 4,
            cs@.len() >= 4,
            cs@ == s@,
            forall|k: int| 0 <= k < i ==> #[trigger] cs@[k] < '\u{80}',
        decreases 4 - i,
    {
        if cs[i] >= '\u{80}' {
            assert(!(s@[i as int] < '\u{80}'));
            return None;
        }
        i = i + 1;
    }
    let head = vstd::slice::slice_subrange(cs.as_slice(), 0, 4);
    assert(head@ =~= s@.take(4));
    parse_i64(head)
}

} // verus!
