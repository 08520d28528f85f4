//! Small string and byte helpers shared by the address parser and the dump
//! printer: byte ranges of a `&str`, appending a `char` to a `String`, and
//! the hexadecimal digit alphabets.
use vstd::prelude::*;
use vstd::string::StringSliceAdditionalSpecFns;
use vstd::utf8::*;

verus! {

/// The character for a hexadecimal digit value `n < 16`, upper case.
pub open spec fn spec_upper_hex(n: int) -> char {
    if n < 10 {
        (n + 0x30) as char
    } else {
        (n + 0x37) as char
    }
}

/// The character for a hexadecimal digit value `n < 16`, lower case.
pub open spec fn spec_lower_hex(n: int) -> char {
    if n < 10 {
        (n + 0x30) as char
    } else {
        (n + 0x57) as char
    }
}

/// The value of byte `b` read as a digit in base `radix` (`0-9`, then `a-z` or
/// `A-Z` for the values from ten on), if it is one.
pub open spec fn spec_digit(b: u8, radix: u32) -> Option<u32> {
    let v: int = if 0x30 <= b <= 0x39 {
        b - 0x30
    } else if 0x61 <= b <= 0x7a {
        b - 0x61 + 10
    } else if 0x41 <= b <= 0x5a {
        b - 0x41 + 10
    } else {
        radix as int
    };
    if v < radix {
        Some(v as u32)
    } else {
        None
    }
}

/// What `u8::from_str_radix` gives for a two-byte string `[b0, b1]`: an
/// optional leading `+` followed by digits of the radix, whose value must fit
/// in a `u8`.
pub open spec fn spec_u8_from_radix2(b0: u8, b1: u8, radix: u32) -> Option<u8> {
    if b0 == 0x2b {
        match spec_digit(b1, radix) {
            Some(d) => Some(d as u8),
            None => None,
        }
    } else {
        match (spec_digit(b0, radix), spec_digit(b1, radix)) {
            (Some(h), Some(l)) => if h * radix + l <= 255 {
                Some((h * radix + l) as u8)
            } else {
                None
            },
            _ => None,
        }
    }
}

/// A character boundary of a valid UTF-8 sequence stays one, shifted, in the
/// suffix that starts at an earlier boundary.
proof fn lemma_boundary_in_suffix(bytes: Seq<u8>, start: int, end: int)
    requires
        valid_utf8(bytes),
        0 <= start <= end <= bytes.len(),
        is_char_boundary(bytes, start),
        is_char_boundary(bytes, end),
    ensures
        valid_utf8(bytes.subrange(start, bytes.len() as int)),
        is_char_boundary(bytes.subrange(start, bytes.len() as int), end - start),
{
    let tail = bytes.subrange(start, bytes.len() as int);
    valid_utf8_split(bytes, start);
    if end == bytes.len() {
        is_char_boundary_start_end_of_seq(tail);
    } else {
        is_char_boundary_iff_not_is_continuation_byte(bytes, end);
        is_char_boundary_iff_not_is_continuation_byte(tail, end - start);
        assert(tail[end - start] == bytes[end]);
    }
}

/// The part of `s` between the byte offsets `start` and `end`, as `&s[start..end]`
/// gives it; both offsets must lie on character boundaries.
pub fn substr(s: &str, start: usize, end: usize) -> (r: &str)
    requires
        start <= end <= s.spec_bytes().len(),
        is_char_boundary(s.spec_bytes(), start as int),
        is_char_boundary(s.spec_bytes(), end as int),
    ensures
        r.spec_bytes() == s.spec_bytes().subrange(start as int, end as int),
{
    proof {
        encode_utf8_valid_utf8(s@);
        lemma_boundary_in_suffix(s.spec_bytes(), start as int, end as int);
    }
    let (_, tail) = s.split_at(start);
    let (mid, _) = tail.split_at(end - start);
    assert(mid.spec_bytes() =~= s.spec_bytes().subrange(start as int, end as int));
    mid
}

/// Appends `c` to `s`.
///
/// Trusted: calls `String::push`, which the standard library documents as
/// appending the given `char` to the end of the string.
#[verifier::external_body]
pub(crate) fn push_char(s: &mut String, c: char)
    ensures
        final(s)@ == old(s)@.push(c),
{
    s.push(c)
}

/// The upper-case hexadecimal digit for `n < 16`.
pub fn upper_hex_char(n: u8) -> (c: char)
    requires
        n < 16,
    ensures
        c == spec_upper_hex(n as int),
{
    if n < 10 {
        (n + 0x30) as char
    } else {
        (n + 0x37) as char
    }
}

/// The lower-case hexadecimal digit for `n < 16`.
pub fn lower_hex_char(n: u8) -> (c: char)
    requires
        n < 16,
    ensures
        c == spec_lower_hex(n as int),
{
    if n < 10 {
        (n + 0x30) as char
    } else {
        (n + 0x57) as char
    }
}

} // verus!
