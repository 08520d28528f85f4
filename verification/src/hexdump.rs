//! A classic hex dump of a byte buffer: per sixteen bytes one line with the
//! bytes in lower-case hexadecimal, padding, and the bytes as characters,
//! where a byte whose character is not alphanumeric shows as `.`.
use crate::text::{lower_hex_char, push_char, spec_lower_hex, spec_u8_from_radix2};
use vstd::prelude::*;

verus! {

/// Whether `char::is_alphanumeric` holds of `c` (the Unicode `Alphabetic`
/// property or a numeric general category).
pub uninterp spec fn char_is_alphanumeric(c: char) -> bool;

/// Whether `c` is alphanumeric.
///
/// Trusted: calls `char::is_alphanumeric`; its result is a fixed function of
/// the character, named `char_is_alphanumeric`, of which nothing more is said.
#[verifier::external_body]
fn is_alphanumeric(c: char) -> (r: bool)
    ensures
        r == char_is_alphanumeric(c),
{
    c.is_alphanumeric()
}

/// The hexadecimal column of a line: each byte as two lower-case digits and
/// a space.
pub open spec fn spec_hex_column(chunk: Seq<u8>) -> Seq<char>
    decreases chunk.len(),
{
    if chunk.len() == 0 {
        seq![]
    } else {
        let b = chunk.last();
        spec_hex_column(chunk.drop_last()) + seq![
            spec_lower_hex((b / 16) as int),
            spec_lower_hex((b % 16) as int),
            ' ',
        ]
    }
}

/// `n` blank three-character cells.
pub open spec fn spec_padding(n: int) -> Seq<char> {
    Seq::new((3 * n) as nat, |k: int| ' ')
}

/// The character column of a line: the byte as a `char` where `printable`
/// says so, else `.`.
pub open spec fn spec_text_column(chunk: Seq<u8>, printable: Seq<bool>) -> Seq<char> {
    Seq::new(chunk.len(), |i: int| if printable[i] { chunk[i] as char } else { '.' })
}

/// One line of the dump, for a chunk of at most sixteen bytes.
pub open spec fn spec_dump_line(chunk: Seq<u8>, printable: Seq<bool>) -> Seq<char> {
    spec_hex_column(chunk) + spec_padding(16 - chunk.len()) + seq![' '] + spec_text_column(
        chunk,
        printable,
    ) + seq!['\n']
}

/// Chunk `j` of a sequence: elements `16 * j` up to `16 * j + 16` or the end.
pub open spec fn spec_chunk<A>(s: Seq<A>, j: int) -> Seq<A> {
    let end = if 16 * j + 16 <= s.len() {
        16 * j + 16
    } else {
        s.len() as int
    };
    s.subrange(16 * j, end)
}

/// The first `n` lines of the dump.
pub open spec fn spec_dump_lines(buf: Seq<u8>, printable: Seq<bool>, n: int) -> Seq<char>
    decreases n,
{
    if n <= 0 {
        seq![]
    } else {
        spec_dump_lines(buf, printable, n - 1) + spec_dump_line(
            spec_chunk(buf, n - 1),
            spec_chunk(printable, n - 1),
        )
    }
}

/// The number of lines in the dump of `len` bytes.
pub open spec fn spec_line_count(len: int) -> int {
    (len + 15) / 16
}

/// The dump of `buf`, given for each byte whether it is printed as itself.
pub open spec fn spec_hexdump(buf: Seq<u8>, printable: Seq<bool>) -> Seq<char> {
    spec_dump_lines(buf, printable, spec_line_count(buf.len() as int))
}

/// For each byte, whether its character is alphanumeric.
pub open spec fn spec_alphanumeric_flags(buf: Seq<u8>) -> Seq<bool> {
    Seq::new(buf.len(), |i: int| char_is_alphanumeric(buf[i] as char))
}

/// Appends the line for `buf[start..end]` to `out`.
fn push_line(out: &mut String, buf: &[u8], printable: &[bool], start: usize, end: usize)
    requires
        buf.len() == printable.len(),
        start <= end <= buf.len(),
        end - start <= 16,
    ensures
        final(out)@ == old(out)@ + spec_dump_line(
            buf@.subrange(start as int, end as int),
            printable@.subrange(start as int, end as int),
        ),
{
    let ghost chunk = buf@.subrange(start as int, end as int);
    let ghost flags = printable@.subrange(start as int, end as int);
    let ghost base = out@;
    let mut i = start;
    while i < end
        invariant
            start <= i <= end <= buf.len(),
            out@ == base + spec_hex_column(buf@.subrange(start as int, i as int)),
        decreases end - i,
    {
        let b = buf[i];
        let hi = lower_hex_char(b / 16);
        let lo = lower_hex_char(b % 16);
        push_char(out, hi);
        push_char(out, lo);
        push_char(out, ' ');
        proof {
            let next = buf@.subrange(start as int, i + 1);
            assert(next.drop_last() =~= buf@.subrange(start as int, i as int));
            assert(next.last() == b);
        }
        i = i + 1;
        assert(out@ =~= base + spec_hex_column(buf@.subrange(start as int, i as int)));
    }
    let ghost with_hex = out@;
    let pad = 16 - (end - start);
    let mut k: usize = 0;
    while k < pad
        invariant
            k <= pad,
            pad == 16 - (end - start),
            out@ == with_hex + spec_padding(k as int),
        decreases pad - k,
    {
        push_char(out, ' ');
        push_char(out, ' ');
        push_char(out, ' ');
        k = k + 1;
        assert(out@ =~= with_hex + spec_padding(k as int));
    }
    push_char(out, ' ');
    let ghost with_sep = out@;
    let mut i = start;
    while i < end
        invariant
            start <= i <= end <= buf.len(),
            buf.len() == printable.len(),
            out@ == with_sep + spec_text_column(
                buf@.subrange(start as int, i as int),
                printable@.subrange(start as int, i as int),
            ),
        decreases end - i,
    {
        let c = buf[i] as char;
        if printable[i] {
            push_char(out, c);
        } else {
            push_char(out, '.');
        }
        i = i + 1;
        assert(out@ =~= with_sep + spec_text_column(
            buf@.subrange(start as int, i as int),
            printable@.subrange(start as int, i as int),
        ));
    }
    push_char(out, '\n');
    assert(out@ =~= base + spec_dump_line(chunk, flags));
}

/// The dump of `buf`, where `printable[i]` says whether byte `i` is shown as
/// its character (else as `.`).
pub fn hexdump_with_flags(buf: &[u8], printable: &[bool]) -> (out: String)
    requires
        buf.len() == printable.len(),
    ensures
        out@ == spec_hexdump(buf@, printable@),
{
    let mut out = String::new();
    let len = buf.len();
    let mut start: usize = 0;
    let ghost mut j: int = 0;
    while start < len
        invariant
            len == buf.len() == printable.len(),
            0 <= j,
            start <= len,
            start < len ==> start == 16 * j,
            start == len ==> j == spec_line_count(len as int),
            out@ == spec_dump_lines(buf@, printable@, j),
        decreases len - start,
    {
        let end = if len - start > 16 {
            start + 16
        } else {
            len
        };
        push_line(&mut out, buf, printable, start, end);
        proof {
            assert(buf@.subrange(start as int, end as int) == spec_chunk(buf@, j));
            assert(printable@.subrange(start as int, end as int) == spec_chunk(printable@, j));
            j = j + 1;
        }
        start = end;
    }
    out
}

/// The dump of `buf`: one line per sixteen bytes, each holding the bytes as
/// `xx ` in lower-case hexadecimal, blank cells up to sixteen, a space, the
/// bytes as characters (`.` for one that is not alphanumeric) and a newline.
pub fn hexdump(buf: &[u8]) -> (out: String)
    ensures
        out@ == spec_hexdump(buf@, spec_alphanumeric_flags(buf@)),
{
    let mut flags: Vec<bool> = Vec::new();
    let mut i: usize = 0;
    while i < buf.len()
        invariant
            i <= buf.len(),
            flags@ == spec_alphanumeric_flags(buf@).take(i as int),
        decreases buf.len() - i,
    {
        let f = is_alphanumeric(buf[i] as char);
        flags.push(f);
        i = i + 1;
        assert(flags@ =~= spec_alphanumeric_flags(buf@).take(i as int));
    }
    assert(flags@ =~= spec_alphanumeric_flags(buf@));
    hexdump_with_flags(buf, flags.as_slice())
}

/// Where each byte of a chunk stands in the hexadecimal column.
proof fn lemma_hex_column(chunk: Seq<u8>)
    ensures
        spec_hex_column(chunk).len() == 3 * chunk.len(),
        forall|p: int|
            #![trigger chunk[p]]
            0 <= p < chunk.len() ==> spec_hex_column(chunk)[3 * p] == spec_lower_hex(
                (chunk[p] / 16) as int,
            ) && spec_hex_column(chunk)[3 * p + 1] == spec_lower_hex((chunk[p] % 16) as int)
                && spec_hex_column(chunk)[3 * p + 2] == ' ',
    decreases chunk.len(),
{
    if chunk.len() > 0 {
        let front = chunk.drop_last();
        lemma_hex_column(front);
        assert forall|p: int| #![trigger chunk[p]] 0 <= p < chunk.len() - 1 implies chunk[p]
            == front[p] by {}
    }
}

/// The layout of one line: the hexadecimal cells, blanks up to column 48,
/// a space, the character column from column 49, and a newline.
proof fn lemma_dump_line(chunk: Seq<u8>, printable: Seq<bool>)
    requires
        chunk.len() <= 16,
        printable.len() == chunk.len(),
    ensures
        spec_dump_line(chunk, printable).len() == 50 + chunk.len(),
        forall|p: int|
            #![trigger chunk[p]]
            0 <= p < chunk.len() ==> {
                let line = spec_dump_line(chunk, printable);
                &&& line[3 * p] == spec_lower_hex((chunk[p] / 16) as int)
                &&& line[3 * p + 1] == spec_lower_hex((chunk[p] % 16) as int)
                &&& line[3 * p + 2] == ' '
                &&& line[49 + p] == if printable[p] {
                    chunk[p] as char
                } else {
                    '.'
                }
            },
        spec_dump_line(chunk, printable)[48] == ' ',
        spec_dump_line(chunk, printable)[49 + chunk.len() as int] == '\n',
{
    lemma_hex_column(chunk);
    let line = spec_dump_line(chunk, printable);
    assert forall|p: int| #![trigger chunk[p]] 0 <= p < chunk.len() implies line[3 * p]
        == spec_hex_column(chunk)[3 * p] && line[3 * p + 1] == spec_hex_column(chunk)[3 * p + 1]
        && line[3 * p + 2] == spec_hex_column(chunk)[3 * p + 2] && line[49 + p]
        == spec_text_column(chunk, printable)[p] by {}
}

/// The dump up to `m` lines starts with the dump up to `n <= m` lines.
proof fn lemma_dump_lines_prefix(buf: Seq<u8>, printable: Seq<bool>, n: int, m: int)
    requires
        0 <= n <= m,
    ensures
        spec_dump_lines(buf, printable, m).len() >= spec_dump_lines(buf, printable, n).len(),
        forall|k: int|
            0 <= k < spec_dump_lines(buf, printable, n).len() ==> #[trigger] spec_dump_lines(
                buf,
                printable,
                m,
            )[k] == spec_dump_lines(buf, printable, n)[k],
    decreases m,
{
    if m > n {
        lemma_dump_lines_prefix(buf, printable, n, m - 1);
    }
}

/// Lines over whole chunks are full lines of 66 characters.
proof fn lemma_full_lines_len(buf: Seq<u8>, printable: Seq<bool>, n: int)
    requires
        buf.len() == printable.len(),
        0 <= n,
        16 * n <= buf.len(),
    ensures
        spec_dump_lines(buf, printable, n).len() == 66 * n,
    decreases n,
{
    if n > 0 {
        lemma_full_lines_len(buf, printable, n - 1);
        lemma_dump_line(spec_chunk(buf, n - 1), spec_chunk(printable, n - 1));
    }
}

/// Where byte `i` stands in the dump.
proof fn lemma_hexdump_at(buf: Seq<u8>, printable: Seq<bool>, i: int)
    requires
        buf.len() == printable.len(),
        0 <= i < buf.len(),
    ensures
        ({
            let out = spec_hexdump(buf, printable);
            let base = 66 * (i / 16);
            let p = i % 16;
            &&& out[base + 3 * p] == spec_lower_hex((buf[i] / 16) as int)
            &&& out[base + 3 * p + 1] == spec_lower_hex((buf[i] % 16) as int)
            &&& out[base + 3 * p + 2] == ' '
            &&& out[base + 49 + p] == if printable[i] {
                buf[i] as char
            } else {
                '.'
            }
        }),
{
    let count = spec_line_count(buf.len() as int);
    let j = i / 16;
    let p = i % 16;
    let chunk = spec_chunk(buf, j);
    let flags = spec_chunk(printable, j);
    lemma_full_lines_len(buf, printable, j);
    lemma_dump_lines_prefix(buf, printable, j + 1, count);
    lemma_dump_line(chunk, flags);
    assert(chunk[p] == buf[i]);
    assert(flags[p] == printable[i]);
    let before = spec_dump_lines(buf, printable, j);
    let line = spec_dump_line(chunk, flags);
    let upto = spec_dump_lines(buf, printable, j + 1);
    assert(upto == before + line);
    assert(upto[66 * j + 3 * p] == line[3 * p]);
    assert(upto[66 * j + 3 * p + 1] == line[3 * p + 1]);
    assert(upto[66 * j + 3 * p + 2] == line[3 * p + 2]);
    assert(upto[66 * j + 49 + p] == line[49 + p]);
}

/// Where each byte stands in the dump: byte `i` is on line `i / 16`, which
/// starts at character `66 * (i / 16)` (every line before it is a full line
/// of 66 characters); its two hexadecimal digits are at column
/// `3 * (i % 16)` and the character for it at column `49 + i % 16`, the byte
/// itself when `printable[i]` and `.` otherwise.
pub proof fn lemma_hexdump_layout(buf: Seq<u8>, printable: Seq<bool>)
    requires
        buf.len() == printable.len(),
    ensures
        forall|i: int|
            #![trigger buf[i]]
            0 <= i < buf.len() ==> {
                let out = spec_hexdump(buf, printable);
                let base = 66 * (i / 16);
                let p = i % 16;
                &&& out[base + 3 * p] == spec_lower_hex((buf[i] / 16) as int)
                &&& out[base + 3 * p + 1] == spec_lower_hex((buf[i] % 16) as int)
                &&& out[base + 3 * p + 2] == ' '
                &&& out[base + 49 + p] == if printable[i] {
                    buf[i] as char
                } else {
                    '.'
                }
            },
{
    assert forall|i: int| #![trigger buf[i]] 0 <= i < buf.len() implies {
        let out = spec_hexdump(buf, printable);
        let base = 66 * (i / 16);
        let p = i % 16;
        &&& out[base + 3 * p] == spec_lower_hex((buf[i] / 16) as int)
        &&& out[base + 3 * p + 1] == spec_lower_hex((buf[i] % 16) as int)
        &&& out[base + 3 * p + 2] == ' '
        &&& out[base + 49 + p] == if printable[i] {
            buf[i] as char
        } else {
            '.'
        }
    } by {
        lemma_hexdump_at(buf, printable, i);
    }
}

/// The two lower-case hexadecimal digits of a byte are digits `0-9` or
/// `a-f`, and they read back as that byte.
proof fn lemma_lower_hex_pair(b: u8)
    ensures
        ('0' <= spec_lower_hex((b / 16) as int) <= '9') || ('a' <= spec_lower_hex(
            (b / 16) as int,
        ) <= 'f'),
        ('0' <= spec_lower_hex((b % 16) as int) <= '9') || ('a' <= spec_lower_hex(
            (b % 16) as int,
        ) <= 'f'),
        spec_u8_from_radix2(
            spec_lower_hex((b / 16) as int) as u8,
            spec_lower_hex((b % 16) as int) as u8,
            16,
        ) == Some(b),
{
}

/// Whether `out` shows byte `i` of `buf` as a hex dump does: the byte's
/// two lower-case hexadecimal digits, which read back as the byte, and a
/// space from column `3 * (i % 16)` of line `i / 16` (which starts at
/// character `66 * (i / 16)`), and at column `49 + i % 16` the byte as a
/// character exactly when that character is alphanumeric, a `.` otherwise.
pub open spec fn spec_byte_shown(out: Seq<char>, buf: Seq<u8>, i: int) -> bool {
    let base = 66 * (i / 16);
    let p = i % 16;
    let hi = out[base + 3 * p];
    let lo = out[base + 3 * p + 1];
    &&& ('0' <= hi && hi <= '9') || ('a' <= hi && hi <= 'f')
    &&& ('0' <= lo && lo <= '9') || ('a' <= lo && lo <= 'f')
    &&& spec_u8_from_radix2(hi as u8, lo as u8, 16) == Some(buf[i])
    &&& out[base + 3 * p + 2] == ' '
    &&& out[base + 49 + p] == if char_is_alphanumeric(buf[i] as char) {
        buf[i] as char
    } else {
        '.'
    }
}

/// What the dump shows of byte `i`.
proof fn lemma_hexdump_shows_byte(buf: Seq<u8>, i: int)
    requires
        0 <= i < buf.len(),
    ensures
        spec_byte_shown(spec_hexdump(buf, spec_alphanumeric_flags(buf)), buf, i),
{
    let flags = spec_alphanumeric_flags(buf);
    lemma_hexdump_at(buf, flags, i);
    lemma_lower_hex_pair(buf[i]);
    assert(flags[i] == char_is_alphanumeric(buf[i] as char));
}

/// The dump shows every byte of the buffer as `spec_byte_shown` says: its
/// hexadecimal digits in lower case, reading back as the byte, and in the
/// character column the byte itself exactly when it is alphanumeric.
pub proof fn lemma_hexdump_shows_bytes(buf: Seq<u8>)
    ensures
        forall|i: int|
            0 <= i < buf.len() ==> #[trigger] spec_byte_shown(
                spec_hexdump(buf, spec_alphanumeric_flags(buf)),
                buf,
                i,
            ),
{
    assert forall|i: int| 0 <= i < buf.len() implies #[trigger] spec_byte_shown(
        spec_hexdump(buf, spec_alphanumeric_flags(buf)),
        buf,
        i,
    ) by {
        lemma_hexdump_shows_byte(buf, i);
    }
}

} // verus!
