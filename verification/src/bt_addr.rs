//! Bluetooth device addresses: parsing the colon-separated text form, printing
//! it, and the byte order in which Linux lower layers hold an address.
use crate::text::{push_char, spec_digit, spec_u8_from_radix2, spec_upper_hex, substr, upper_hex_char};
use vstd::prelude::*;
use vstd::string::StringSliceAdditionalSpecFns;
use vstd::endian::{endianness, Endian};
use vstd::utf8::*;

verus! {

#[verifier::external_type_specification]
#[verifier::external_body]
pub struct ExParseIntError(std::num::ParseIntError);

/// A Bluetooth device address, six bytes in the order in which the address is
/// displayed (network byte order).
#[derive(Debug, Copy, Clone, Ord, PartialOrd, Eq, PartialEq)]
pub struct BtAddr(pub [u8; 6]);

/// Octet `i` of an address text: the two bytes at offsets `3 * i` and
/// `3 * i + 1`, read as hexadecimal.
pub open spec fn spec_octet_at(bytes: Seq<u8>, i: int) -> Option<u8> {
    spec_u8_from_radix2(bytes[3 * i], bytes[3 * i + 1], 16)
}

/// Whether all six octets of an address text read as hexadecimal.
pub open spec fn spec_all_octets_parse(bytes: Seq<u8>) -> bool {
    forall|i: int| 0 <= i < 6 ==> (#[trigger] spec_octet_at(bytes, i)) is Some
}

/// The address that an address text denotes, if each octet reads as
/// hexadecimal. The byte between two octets is not looked at.
pub open spec fn spec_parse_bt_addr(bytes: Seq<u8>) -> Option<Seq<u8>> {
    if spec_all_octets_parse(bytes) {
        Some(Seq::new(6, |i: int| spec_octet_at(bytes, i)->0))
    } else {
        None
    }
}

/// Whether every two-byte octet field of an address text lies within the text
/// and starts and ends on a character boundary (else slicing it panics).
pub open spec fn spec_octet_fields_sliceable(bytes: Seq<u8>) -> bool {
    &&& 17 <= bytes.len()
    &&& forall|i: int|
        0 <= i < 6 ==> is_char_boundary(bytes, #[trigger] (3 * i)) && is_char_boundary(
            bytes,
            3 * i + 2,
        )
}

/// The two upper-case hexadecimal digits of a byte.
pub open spec fn spec_octet_upper(b: u8) -> Seq<char> {
    seq![spec_upper_hex((b / 16) as int), spec_upper_hex((b % 16) as int)]
}

/// The displayed form of an address: `XX:XX:XX:XX:XX:XX`, upper-case hex.
pub open spec fn spec_display(a: Seq<u8>) -> Seq<char> {
    spec_octet_upper(a[0]) + seq![':'] + spec_octet_upper(a[1]) + seq![':'] + spec_octet_upper(
        a[2],
    ) + seq![':'] + spec_octet_upper(a[3]) + seq![':'] + spec_octet_upper(a[4]) + seq![':']
        + spec_octet_upper(a[5])
}

/// The address as the host's lower layers hold it: reversed on a
/// little-endian host, unchanged on a big-endian one.
pub open spec fn spec_host_order(a: Seq<u8>, little_endian: bool) -> Seq<u8> {
    if little_endian {
        a.reverse()
    } else {
        a
    }
}

/// Parses `src` (a string of two bytes) as an unsigned byte in base `radix`.
///
/// Trusted: calls `u8::from_str_radix`, which the standard library documents as
/// accepting an optional `+` sign followed by digits of the radix (`0-9`, then
/// `a-z`/`A-Z`), failing on any other character and on a value that does not
/// fit in a `u8`. The error value itself is left opaque.
#[verifier::external_body]
fn u8_from_str_radix(src: &str, radix: u32) -> (r: Result<u8, std::num::ParseIntError>)
    requires
        src.spec_bytes().len() == 2,
        2 <= radix <= 36,
    ensures
        match r {
            Ok(v) => spec_u8_from_radix2(src.spec_bytes()[0], src.spec_bytes()[1], radix) == Some(
                v,
            ),
            Err(_) => spec_u8_from_radix2(src.spec_bytes()[0], src.spec_bytes()[1], radix) is None,
        },
{
    u8::from_str_radix(src, radix)
}

/// Reads the native-endian `u16` whose bytes are `bytes`.
///
/// Trusted: calls `u16::from_ne_bytes`, which reads the bytes in the byte
/// order of the executing hardware, the one that vstd's `endianness()`
/// stands for: least significant byte first on a little-endian machine.
#[verifier::external_body]
fn u16_from_ne_bytes(bytes: [u8; 2]) -> (r: u16)
    ensures
        r == (if endianness() == Endian::Little {
            bytes[0] + 256 * bytes[1]
        } else {
            256 * bytes[0] + bytes[1]
        }),
{
    u16::from_ne_bytes(bytes)
}

/// Whether a native-endian reading of the bytes `[1, 0]` shows a
/// little-endian host: the reading is 1 there and 256 on a big-endian host.
pub fn little_endian_from_reading(reading: u16) -> (r: bool)
    ensures
        r == (reading == 1),
{
    reading == 1
}

/// Whether this machine stores integers least significant byte first.
pub fn host_is_little_endian() -> (r: bool)
    ensures
        r == (endianness() == Endian::Little),
{
    let reading = u16_from_ne_bytes([1, 0]);
    little_endian_from_reading(reading)
}

/// Whether every octet field of `addr_str` can be sliced out of it: the text
/// is at least 17 bytes long and each field starts and ends on a character
/// boundary. `BtAddr::from_str` needs this.
pub fn octet_fields_sliceable(addr_str: &str) -> (r: bool)
    ensures
        r == spec_octet_fields_sliceable(addr_str.spec_bytes()),
{
    if addr_str.as_bytes().len() < 17 {
        return false;
    }
    let mut i: usize = 0;
    while i < 6
        invariant
            i <= 6,
            17 <= addr_str.spec_bytes().len(),
            forall|j: int|
                0 <= j < i ==> is_char_boundary(addr_str.spec_bytes(), #[trigger] (3 * j))
                    && is_char_boundary(addr_str.spec_bytes(), 3 * j + 2),
        decreases 6 - i,
    {
        if !addr_str.is_char_boundary(3 * i) || !addr_str.is_char_boundary(3 * i + 2) {
            let ghost k = i as int;
            assert(!(is_char_boundary(addr_str.spec_bytes(), 3 * k) && is_char_boundary(
                addr_str.spec_bytes(),
                3 * k + 2,
            )));
            return false;
        }
        i = i + 1;
    }
    true
}

/// Octet `i` of the address text `addr_str`.
fn parse_octet(addr_str: &str, i: usize) -> (r: Result<u8, std::num::ParseIntError>)
    requires
        i < 6,
        spec_octet_fields_sliceable(addr_str.spec_bytes()),
    ensures
        match r {
            Ok(v) => spec_octet_at(addr_str.spec_bytes(), i as int) == Some(v),
            Err(_) => spec_octet_at(addr_str.spec_bytes(), i as int) is None,
        },
{
    let ghost bytes = addr_str.spec_bytes();
    assert(is_char_boundary(bytes, 3 * (i as int)));
    let field = substr(addr_str, i * 3, i * 3 + 2);
    u8_from_str_radix(field, 16)
}

impl BtAddr {
    /// Parses an address written as six two-digit hexadecimal octets at byte
    /// offsets 0, 3, 6, 9, 12 and 15 (`"AA:BB:CC:DD:EE:FF"`). The bytes between
    /// the octets and after the last one are not looked at; each octet is read
    /// as `u8::from_str_radix` reads it, so lower case and a leading `+` are
    /// accepted. The first octet that does not read gives the error.
    pub fn from_str(addr_str: &str) -> (r: Result<BtAddr, std::num::ParseIntError>)
        requires
            spec_octet_fields_sliceable(addr_str.spec_bytes()),
        ensures
            match r {
                Ok(a) => spec_parse_bt_addr(addr_str.spec_bytes()) == Some(a.0@),
                Err(_) => spec_parse_bt_addr(addr_str.spec_bytes()) is None,
            },
    {
        let ghost bytes = addr_str.spec_bytes();
        let b0 = match parse_octet(addr_str, 0) {
            Ok(v) => v,
            Err(e) => return Err(e),
        };
        let b1 = match parse_octet(addr_str, 1) {
            Ok(v) => v,
            Err(e) => return Err(e),
        };
        let b2 = match parse_octet(addr_str, 2) {
            Ok(v) => v,
            Err(e) => return Err(e),
        };
        let b3 = match parse_octet(addr_str, 3) {
            Ok(v) => v,
            Err(e) => return Err(e),
        };
        let b4 = match parse_octet(addr_str, 4) {
            Ok(v) => v,
            Err(e) => return Err(e),
        };
        let b5 = match parse_octet(addr_str, 5) {
            Ok(v) => v,
            Err(e) => return Err(e),
        };
        let addr = BtAddr([b0, b1, b2, b3, b4, b5]);
        assert(spec_all_octets_parse(bytes)) by {
            assert forall|i: int| 0 <= i < 6 implies (#[trigger] spec_octet_at(bytes, i)) is Some by {
                if i == 0 {
                } else if i == 1 {
                } else if i == 2 {
                } else if i == 3 {
                } else if i == 4 {
                } else {
                }
            }
        }
        assert(addr.0@ =~= Seq::new(6, |i: int| spec_octet_at(bytes, i)->0));
        Ok(addr)
    }

    /// The address in the byte order of a host with the given endianness:
    /// reversed when `little_endian`, unchanged otherwise.
    pub fn to_host_order(self, little_endian: bool) -> (r: BtAddr)
        ensures
            r.0@ == spec_host_order(self.0@, little_endian),
    {
        if little_endian {
            let a = self.0;
            let r = BtAddr([a[5], a[4], a[3], a[2], a[1], a[0]]);
            assert(r.0@ =~= self.0@.reverse());
            r
        } else {
            self
        }
    }

    /// Linux lower layers hold the address in native byte order although it
    /// is always displayed in network byte order: this gives the address as
    /// this host holds it (reversed on a little-endian host).
    pub fn convert_host_byteorder(self) -> (r: BtAddr)
        ensures
            r.0@ == spec_host_order(self.0@, endianness() == Endian::Little),
    {
        let little = host_is_little_endian();
        self.to_host_order(little)
    }

    /// The displayed form of the address, `XX:XX:XX:XX:XX:XX` in upper-case
    /// hexadecimal.
    pub fn to_string(&self) -> (s: String)
        ensures
            s@ == spec_display(self.0@),
    {
        let a = self.0;
        let mut s = String::new();
        push_octet_upper(&mut s, a[0]);
        push_char(&mut s, ':');
        push_octet_upper(&mut s, a[1]);
        push_char(&mut s, ':');
        push_octet_upper(&mut s, a[2]);
        push_char(&mut s, ':');
        push_octet_upper(&mut s, a[3]);
        push_char(&mut s, ':');
        push_octet_upper(&mut s, a[4]);
        push_char(&mut s, ':');
        push_octet_upper(&mut s, a[5]);
        assert(s@ =~= spec_display(self.0@));
        s
    }
}

/// Appends the two upper-case hexadecimal digits of `b` to `s`.
fn push_octet_upper(s: &mut String, b: u8)
    ensures
        final(s)@ == old(s)@ + spec_octet_upper(b),
{
    let hi = upper_hex_char(b / 16);
    let lo = upper_hex_char(b % 16);
    push_char(s, hi);
    push_char(s, lo);
    assert(final(s)@ =~= old(s)@ + spec_octet_upper(b));
}

/// The characters of the displayed form, one by one.
proof fn lemma_display_chars(a: Seq<u8>)
    requires
        a.len() == 6,
    ensures
        spec_display(a).len() == 17,
        spec_display(a)[0] == spec_upper_hex((a[0] / 16) as int),
        spec_display(a)[1] == spec_upper_hex((a[0] % 16) as int),
        spec_display(a)[2] == ':',
        spec_display(a)[3] == spec_upper_hex((a[1] / 16) as int),
        spec_display(a)[4] == spec_upper_hex((a[1] % 16) as int),
        spec_display(a)[5] == ':',
        spec_display(a)[6] == spec_upper_hex((a[2] / 16) as int),
        spec_display(a)[7] == spec_upper_hex((a[2] % 16) as int),
        spec_display(a)[8] == ':',
        spec_display(a)[9] == spec_upper_hex((a[3] / 16) as int),
        spec_display(a)[10] == spec_upper_hex((a[3] % 16) as int),
        spec_display(a)[11] == ':',
        spec_display(a)[12] == spec_upper_hex((a[4] / 16) as int),
        spec_display(a)[13] == spec_upper_hex((a[4] % 16) as int),
        spec_display(a)[14] == ':',
        spec_display(a)[15] == spec_upper_hex((a[5] / 16) as int),
        spec_display(a)[16] == spec_upper_hex((a[5] % 16) as int),
{
}

/// An upper-case hexadecimal digit is ASCII and reads back as its value.
proof fn lemma_upper_hex_reads_back(n: int)
    requires
        0 <= n < 16,
    ensures
        '\0' <= spec_upper_hex(n) <= '\u{7f}',
        spec_digit(spec_upper_hex(n) as u8, 16) == Some(n as u32),
{
}

/// The two upper-case digits of a byte read back as that byte.
proof fn lemma_octet_reads_back(b: u8)
    ensures
        spec_u8_from_radix2(
            spec_upper_hex((b / 16) as int) as u8,
            spec_upper_hex((b % 16) as int) as u8,
            16,
        ) == Some(b),
{
    lemma_upper_hex_reads_back((b / 16) as int);
    lemma_upper_hex_reads_back((b % 16) as int);
    assert(spec_upper_hex((b / 16) as int) as u8 != 0x2b);
}

/// Printing an address and parsing the text back gives the same address: the
/// displayed text has every octet field in place and each reads back as the
/// byte it shows.
pub proof fn lemma_display_parses_back(a: Seq<u8>)
    requires
        a.len() == 6,
    ensures
        spec_octet_fields_sliceable(encode_utf8(spec_display(a))),
        spec_parse_bt_addr(encode_utf8(spec_display(a))) == Some(a),
{
    let chars = spec_display(a);
    let bytes = encode_utf8(chars);
    lemma_display_chars(a);
    assert forall|k: int| 0 <= k < 17 implies '\0' <= #[trigger] chars[k] <= '\u{7f}' by {
        let i = k / 3;
        if k % 3 == 0 {
            lemma_upper_hex_reads_back((a[i] / 16) as int);
        } else if k % 3 == 1 {
            lemma_upper_hex_reads_back((a[i] % 16) as int);
        }
    }
    assert(is_ascii_chars(chars));
    is_ascii_chars_encode_utf8(chars);
    encode_utf8_valid_utf8(chars);
    assert forall|i: int| 0 <= i < 6 implies (#[trigger] spec_octet_at(bytes, i)) == Some(a[i]) by {
        assert(bytes[3 * i] == chars[3 * i] as u8);
        assert(bytes[3 * i + 1] == chars[3 * i + 1] as u8);
        lemma_octet_reads_back(a[i]);
    }
    assert forall|k: int| 0 <= k <= 17 implies #[trigger] is_char_boundary(bytes, k) by {
        if k == 17 {
            is_char_boundary_start_end_of_seq(bytes);
        } else {
            is_char_boundary_iff_not_is_continuation_byte(bytes, k);
            assert(bytes[k] == chars[k] as u8);
        }
    }
    assert forall|i: int| 0 <= i < 6 implies is_char_boundary(bytes, #[trigger] (3 * i))
        && is_char_boundary(bytes, 3 * i + 2) by {
        assert(is_char_boundary(bytes, 3 * i));
        assert(is_char_boundary(bytes, 3 * i + 2));
    }
    assert(spec_parse_bt_addr(bytes)->0 =~= a);
}

/// Converting to the host's byte order and back is the identity: the same
/// conversion takes a held address back to its displayed order.
pub proof fn lemma_host_order_involution(a: Seq<u8>, little_endian: bool)
    ensures
        spec_host_order(spec_host_order(a, little_endian), little_endian) == a,
{
    assert(a.reverse().reverse() =~= a);
}

/// Lexicographic order on byte sequences, as the derived order of an address
/// compares its bytes.
pub open spec fn spec_bytes_less(s: Seq<u8>, t: Seq<u8>) -> bool {
    ||| exists|i: int|
        0 <= i < s.len() && i < t.len() && (forall|j: int| 0 <= j < i ==> s[j] == t[j]) && #[trigger] s[i]
            < t[i]
    ||| (s.len() < t.len() && forall|j: int| 0 <= j < s.len() ==> s[j] == t[j])
}

/// Lexicographic order on character sequences, by code point, as strings
/// compare.
pub open spec fn spec_chars_less(s: Seq<char>, t: Seq<char>) -> bool {
    ||| exists|i: int|
        0 <= i < s.len() && i < t.len() && (forall|j: int| 0 <= j < i ==> s[j] == t[j]) && (
        #[trigger] s[i] as u32) < t[i] as u32
    ||| (s.len() < t.len() && forall|j: int| 0 <= j < s.len() ==> s[j] == t[j])
}

/// Character `k` of the displayed form of an address.
pub open spec fn spec_display_char(a: Seq<u8>, k: int) -> char {
    if k % 3 == 2 {
        ':'
    } else if k % 3 == 0 {
        spec_upper_hex((a[k / 3] / 16) as int)
    } else {
        spec_upper_hex((a[k / 3] % 16) as int)
    }
}

proof fn lemma_display_char_at(a: Seq<u8>)
    requires
        a.len() == 6,
    ensures
        spec_display(a).len() == 17,
        forall|k: int| 0 <= k < 17 ==> #[trigger] spec_display(a)[k] == spec_display_char(a, k),
{
    lemma_display_chars(a);
    assert forall|k: int| 0 <= k < 17 implies #[trigger] spec_display(a)[k] == spec_display_char(
        a,
        k,
    ) by {
        if k < 3 {
        } else if k < 6 {
        } else if k < 9 {
        } else if k < 12 {
        } else if k < 15 {
        } else {
        }
    }
}

/// Upper-case hexadecimal digits are ordered as their values.
proof fn lemma_upper_hex_monotonic(x: int, y: int)
    requires
        0 <= x < y < 16,
    ensures
        (spec_upper_hex(x) as u32) < (spec_upper_hex(y) as u32),
{
}

/// An address below another displays below it.
proof fn lemma_display_less(a: Seq<u8>, b: Seq<u8>)
    requires
        a.len() == 6,
        b.len() == 6,
        spec_bytes_less(a, b),
    ensures
        spec_chars_less(spec_display(a), spec_display(b)),
{
    lemma_display_char_at(a);
    lemma_display_char_at(b);
    let da = spec_display(a);
    let db = spec_display(b);
    let i = choose|i: int|
        0 <= i < a.len() && i < b.len() && (forall|j: int| 0 <= j < i ==> a[j] == b[j]) && #[trigger] a[i]
            < b[i];
    let k = if a[i] / 16 < b[i] / 16 {
        3 * i
    } else {
        3 * i + 1
    };
    if a[i] / 16 < b[i] / 16 {
        lemma_upper_hex_monotonic((a[i] / 16) as int, (b[i] / 16) as int);
    } else {
        assert(a[i] / 16 == b[i] / 16);
        assert(a[i] % 16 < b[i] % 16);
        lemma_upper_hex_monotonic((a[i] % 16) as int, (b[i] % 16) as int);
    }
    assert forall|j: int| 0 <= j < k implies da[j] == db[j] by {
        if j / 3 < i {
            assert(a[j / 3] == b[j / 3]);
        }
    }
    assert((da[k] as u32) < (db[k] as u32));
}

/// The character order is irreflexive and asymmetric on sequences of one
/// length.
proof fn lemma_chars_less_asymmetric(s: Seq<char>, t: Seq<char>)
    requires
        s.len() == t.len(),
    ensures
        !(spec_chars_less(s, t) && spec_chars_less(t, s)),
{
    if spec_chars_less(s, t) && spec_chars_less(t, s) {
        let i = choose|i: int|
            0 <= i < s.len() && i < t.len() && (forall|j: int| 0 <= j < i ==> s[j] == t[j]) && (
            #[trigger] s[i] as u32) < t[i] as u32;
        let i2 = choose|i: int|
            0 <= i < t.len() && i < s.len() && (forall|j: int| 0 <= j < i ==> t[j] == s[j]) && (
            #[trigger] t[i] as u32) < s[i] as u32;
        if i < i2 {
            assert(t[i] == s[i]);
        } else if i2 < i {
            assert(s[i2] == t[i2]);
        }
    }
}

/// Two different six-byte sequences are ordered one way or the other.
proof fn lemma_bytes_less_total(a: Seq<u8>, b: Seq<u8>)
    requires
        a.len() == 6,
        b.len() == 6,
        a != b,
    ensures
        spec_bytes_less(a, b) || spec_bytes_less(b, a),
{
    let i: int = if a[0] != b[0] {
        0
    } else if a[1] != b[1] {
        1
    } else if a[2] != b[2] {
        2
    } else if a[3] != b[3] {
        3
    } else if a[4] != b[4] {
        4
    } else {
        5
    };
    if a[i] == b[i] {
        assert(a =~= b);
    }
    assert(forall|j: int| 0 <= j < i ==> a[j] == b[j]);
    if a[i] < b[i] {
        assert(spec_bytes_less(a, b));
    } else {
        assert(spec_bytes_less(b, a));
    }
}

/// Printing keeps the order of addresses and tells them apart: one address
/// is below another exactly when its text is, and two addresses are equal
/// exactly when their texts are.
pub proof fn lemma_display_order(a: Seq<u8>, b: Seq<u8>)
    requires
        a.len() == 6,
        b.len() == 6,
    ensures
        spec_bytes_less(a, b) <==> spec_chars_less(spec_display(a), spec_display(b)),
        (a == b) <==> (spec_display(a) == spec_display(b)),
{
    lemma_display_parses_back(a);
    lemma_display_parses_back(b);
    lemma_display_char_at(a);
    lemma_display_char_at(b);
    if spec_bytes_less(a, b) {
        lemma_display_less(a, b);
    }
    if spec_chars_less(spec_display(a), spec_display(b)) && !spec_bytes_less(a, b) {
        lemma_chars_less_asymmetric(spec_display(a), spec_display(b));
        if a == b {
        } else {
            lemma_bytes_less_total(a, b);
            lemma_display_less(b, a);
        }
    }
}

/// Every character of a printed address is an upper-case hexadecimal digit,
/// except every third, which is a colon: `XX:XX:XX:XX:XX:XX`.
pub proof fn lemma_display_upper_case(a: Seq<u8>)
    requires
        a.len() == 6,
    ensures
        spec_display(a).len() == 17,
        forall|k: int|
            0 <= k < 17 ==> {
                let c = #[trigger] spec_display(a)[k];
                if k % 3 == 2 {
                    c == ':'
                } else {
                    ('0' <= c <= '9') || ('A' <= c <= 'F')
                }
            },
{
    lemma_display_char_at(a);
    assert forall|k: int| 0 <= k < 17 && k % 3 != 2 implies ('0' <= #[trigger] spec_display(a)[k]
        <= '9') || ('A' <= spec_display(a)[k] <= 'F') by {
        let n: int = if k % 3 == 0 {
            (a[k / 3] / 16) as int
        } else {
            (a[k / 3] % 16) as int
        };
        assert(spec_display(a)[k] == spec_upper_hex(n));
    }
}

/// On the executing hardware the address is held reversed when it is
/// little-endian (byte 5 first) and as displayed when it is big-endian.
pub proof fn lemma_host_order_by_hardware(a: Seq<u8>)
    requires
        a.len() == 6,
    ensures
        endianness() == Endian::Little ==> spec_host_order(a, endianness() == Endian::Little)
            == seq![a[5], a[4], a[3], a[2], a[1], a[0]],
        endianness() != Endian::Little ==> spec_host_order(a, endianness() == Endian::Little)
            == a,
{
    assert(a.reverse() =~= seq![a[5], a[4], a[3], a[2], a[1], a[0]]);
}

} // verus!
