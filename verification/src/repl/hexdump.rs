//! The hexdump: bytes shown sixteen to a row, in hexadecimal and as text.
//!
//! A row is the offset of its first byte, right-aligned and followed by a
//! colon; its bytes two by two, each pair as four lowercase hexadecimal
//! digits after a space; two spaces; and the same bytes as text, with a
//! dot for every byte that cannot be printed:
//!
//! ```text
//!    0: 6865 6c6c 6f2c 2077 6f72 6c64 210a 0001  hello, world!...
//!   16: 02                                       .
//! ```

use crate::text::{
    decimal_digits, decimal_of, hex_pair, is_digit, lemma_decimal_digits_grow,
    lemma_decimal_round_trip, push_bytes, push_hex_pair, push_spaces, spaces,
};
use vstd::prelude::*;
use vstd::slice::slice_subrange;

verus! {

/// How many bytes a row shows. It is even, so that the bytes of a full
/// row go two by two.
pub const COLUMNS: usize = 16;

/// The least width of the column of offsets.
pub const MIN_OFFSET_WIDTH: usize = 4;

/// The byte `:`.
pub const COLON: u8 = 0x3a;

/// The byte `.`, which stands for a byte that cannot be printed.
pub const PLACEHOLDER: u8 = 0x2e;

/// The line feed that ends a row.
pub const NEWLINE: u8 = 0x0a;

/// How many rows it takes to show `len` bytes.
pub open spec fn row_count(len: nat) -> nat {
    (len + 15) / 16
}

/// The width of the column of offsets for `len` bytes that begin at
/// `start`: as wide as the offset of the last row is long, and four at the
/// least.
pub open spec fn offset_width(start: nat, len: nat) -> nat {
    let last = decimal_digits(start + 16 * (row_count(len) - 1) as nat).len();
    if last > 4 {
        last
    } else {
        4
    }
}

/// The column of offsets of one row: `offset` in decimal, with spaces
/// before it to fill `width`, and a colon.
pub open spec fn offset_column(offset: nat, width: nat) -> Seq<u8> {
    let digits = decimal_digits(offset);
    let fill: nat = if digits.len() < width {
        (width - digits.len()) as nat
    } else {
        0
    };
    spaces(fill) + digits + seq![COLON]
}

/// The bytes of `row` two by two, each pair after a space. A last byte
/// without a partner is followed by two spaces, where its partner's
/// digits would be.
pub open spec fn hex_pairs(row: Seq<u8>) -> Seq<u8>
    decreases row.len(),
{
    if row.len() >= 2 {
        seq![0x20u8] + hex_pair(row[0]) + hex_pair(row[1]) + hex_pairs(row.skip(2))
    } else if row.len() == 1 {
        seq![0x20u8] + hex_pair(row[0]) + spaces(2)
    } else {
        Seq::empty()
    }
}

/// The hexadecimal column of a row of at most sixteen bytes: its pairs,
/// and five spaces for every pair that a short row lacks.
pub open spec fn hex_column(row: Seq<u8>) -> Seq<u8> {
    hex_pairs(row) + spaces((5 * ((16 - row.len()) / 2)) as nat)
}

/// The byte `b` as text: itself if it is a printable ASCII character,
/// from the space to the tilde, and a dot otherwise.
pub open spec fn printable(b: u8) -> u8 {
    if 0x20 <= b <= 0x7e {
        b
    } else {
        PLACEHOLDER
    }
}

/// The text column of a row: two spaces, the bytes as text, and the line
/// feed that ends the row.
pub open spec fn text_column(row: Seq<u8>) -> Seq<u8> {
    spaces(2) + Seq::new(row.len(), |i: int| printable(row[i])) + seq![NEWLINE]
}

/// The bytes of `data` that row `k` shows.
pub open spec fn row_bytes(data: Seq<u8>, k: nat) -> Seq<u8> {
    let low = 16 * k as int;
    let high = if low + 16 <= data.len() {
        low + 16
    } else {
        data.len() as int
    };
    data.subrange(low, high)
}

/// Row `k` of the hexdump of `data`, which begins at `start`.
pub open spec fn row_text(start: nat, width: nat, data: Seq<u8>, k: nat) -> Seq<u8> {
    offset_column(start + 16 * k, width) + hex_column(row_bytes(data, k)) + text_column(
        row_bytes(data, k),
    )
}

/// The first `n` rows of the hexdump of `data`.
pub open spec fn rows_text(start: nat, width: nat, data: Seq<u8>, n: nat) -> Seq<u8>
    decreases n,
{
    if n == 0 {
        Seq::empty()
    } else {
        rows_text(start, width, data, (n - 1) as nat) + row_text(start, width, data, (n - 1) as nat)
    }
}

/// The hexdump of `data`, whose first byte stands at `start` in the store.
/// No bytes make no rows.
pub open spec fn hexdump(start: nat, data: Seq<u8>) -> Seq<u8> {
    if data.len() == 0 {
        Seq::empty()
    } else {
        rows_text(start, offset_width(start, data.len()), data, row_count(data.len()))
    }
}

/// Appends the column of offsets of one row.
pub fn push_offset_column(out: &mut Vec<u8>, offset: u128, width: usize)
    ensures
        final(out)@ == old(out)@ + offset_column(offset as nat, width as nat),
{
    let ghost before = out@;
    let digits = decimal_of(offset);
    if digits.len() < width {
        push_spaces(out, width - digits.len());
    } else {
        assert(spaces(0) =~= Seq::<u8>::empty());
    }
    push_bytes(out, digits.as_slice());
    out.push(COLON);
    assert(out@ =~= before + offset_column(offset as nat, width as nat));
}

/// Appends the hexadecimal column of a row.
pub fn push_hex_column(out: &mut Vec<u8>, row: &[u8])
    requires
        row@.len() <= 16,
    ensures
        final(out)@ == old(out)@ + hex_column(row@),
{
    let ghost before = out@;
    let n = row.len();
    let mut i: usize = 0;
    assert(row@.skip(0) =~= row@);
    while i + 1 < n
        invariant
            n == row@.len(),
            n <= 16,
            i <= n,
            i % 2 == 0,
            before + hex_pairs(row@) == out@ + hex_pairs(row@.skip(i as int)),
        decreases n - i,
    {
        let ghost rest = row@.skip(i as int);
        let ghost so_far = out@;
        out.push(0x20);
        push_hex_pair(out, row[i]);
        push_hex_pair(out, row[i + 1]);
        proof {
            assert(rest.skip(2) =~= row@.skip(i + 2));
            assert(out@ =~= so_far + (seq![0x20u8] + hex_pair(rest[0]) + hex_pair(rest[1])));
            assert(so_far + hex_pairs(rest) =~= out@ + hex_pairs(rest.skip(2)));
        }
        i += 2;
    }
    if i < n {
        let ghost rest = row@.skip(i as int);
        let ghost so_far = out@;
        out.push(0x20);
        push_hex_pair(out, row[i]);
        push_spaces(out, 2);
        proof {
            assert(rest.len() == 1);
            assert(out@ =~= so_far + hex_pairs(rest));
        }
    } else {
        assert(row@.skip(i as int).len() == 0);
    }
    assert(out@ =~= before + hex_pairs(row@));
    push_spaces(out, 5 * ((COLUMNS - n) / 2));
    assert(out@ =~= before + hex_column(row@));
}

/// Appends the text column of a row.
pub fn push_text_column(out: &mut Vec<u8>, row: &[u8])
    ensures
        final(out)@ == old(out)@ + text_column(row@),
{
    let ghost before = out@;
    push_spaces(out, 2);
    let ghost begun = out@;
    let n = row.len();
    let mut i: usize = 0;
    while i < n
        invariant
            n == row@.len(),
            i <= n,
            out@ == begun + Seq::new(i as nat, |j: int| printable(row@[j])),
        decreases n - i,
    {
        let b = row[i];
        out.push(if 0x20 <= b && b <= 0x7e { b } else { PLACEHOLDER });
        i += 1;
        assert(out@ =~= begun + Seq::new(i as nat, |j: int| printable(row@[j])));
    }
    out.push(NEWLINE);
    assert(out@ =~= before + text_column(row@));
}

/// Renders the hexdump of `buffer`, whose first byte stands at `from_pos`
/// in the store, or at zero when the position is not known.
pub fn render_hexdump(from_pos: Option<u64>, buffer: &[u8]) -> (out: Vec<u8>)
    ensures
        out@ == hexdump(
            match from_pos {
                Some(p) => p as nat,
                None => 0,
            },
            buffer@,
        ),
{
    let n = buffer.len();
    if n == 0 {
        return Vec::new();
    }
    let start: u128 = match from_pos {
        Some(p) => p as u128,
        None => 0,
    };
    let rows: usize = (n - 1) / COLUMNS + 1;
    let last_row_offset: u128 = start + (COLUMNS as u128) * ((rows - 1) as u128);
    let last_len = decimal_of(last_row_offset).len();
    let width: usize = if last_len > MIN_OFFSET_WIDTH {
        last_len
    } else {
        MIN_OFFSET_WIDTH
    };
    let mut out: Vec<u8> = Vec::with_capacity(4096);
    let mut k: usize = 0;
    while k < rows
        invariant
            n == buffer@.len(),
            n > 0,
            rows == row_count(n as nat),
            k <= rows,
            start <= u64::MAX,
            width == offset_width(start as nat, n as nat),
            out@ == rows_text(start as nat, width as nat, buffer@, k as nat),
        decreases rows - k,
    {
        let low: usize = COLUMNS * k;
        let high: usize = if n - low < COLUMNS {
            n
        } else {
            low + COLUMNS
        };
        let row = slice_subrange(buffer, low, high);
        let ghost so_far = out@;
        push_offset_column(&mut out, start + (COLUMNS as u128) * (k as u128), width);
        push_hex_column(&mut out, row);
        push_text_column(&mut out, row);
        proof {
            assert(row@ == row_bytes(buffer@, k as nat));
            assert(out@ =~= so_far + row_text(start as nat, width as nat, buffer@, k as nat));
        }
        k += 1;
    }
    out
}

/// Sixteen bytes make one row, which holds them all.
pub proof fn lemma_sixteen_bytes_make_one_row(start: nat, data: Seq<u8>)
    requires
        data.len() == 16,
    ensures
        hexdump(start, data) == offset_column(start, offset_width(start, 16)) + hex_column(data)
            + text_column(data),
{
    let width = offset_width(start, 16);
    assert(row_bytes(data, 0) =~= data);
    reveal_with_fuel(rows_text, 2);
    assert(rows_text(start, width, data, 1) =~= row_text(start, width, data, 0));
}

/// Seventeen bytes make two rows: a full one, and one that holds the last
/// byte alone, sixteen further on.
pub proof fn lemma_seventeen_bytes_make_two_rows(start: nat, data: Seq<u8>)
    requires
        data.len() == 17,
    ensures
        hexdump(start, data) == offset_column(start, offset_width(start, 17)) + hex_column(
            data.take(16),
        ) + text_column(data.take(16)) + offset_column(start + 16, offset_width(start, 17))
            + hex_column(seq![data[16]]) + text_column(seq![data[16]]),
{
    let width = offset_width(start, 17);
    assert(row_bytes(data, 0) =~= data.take(16));
    assert(row_bytes(data, 1) =~= seq![data[16]]);
    reveal_with_fuel(rows_text, 3);
    assert(rows_text(start, width, data, 2) =~= row_text(start, width, data, 0) + row_text(
        start,
        width,
        data,
        1,
    ));
}

/// How many line feeds `s` holds.
pub open spec fn line_feeds(s: Seq<u8>) -> nat
    decreases s.len(),
{
    if s.len() == 0 {
        0
    } else {
        line_feeds(s.drop_last()) + if s.last() == NEWLINE {
            1nat
        } else {
            0nat
        }
    }
}

/// Whether `s` holds no line feed.
pub open spec fn one_line(s: Seq<u8>) -> bool {
    forall|i: int| 0 <= i < s.len() ==> #[trigger] s[i] != NEWLINE
}

/// The line feeds of two texts put together are those of the one and
/// those of the other.
pub proof fn lemma_line_feeds_add(a: Seq<u8>, b: Seq<u8>)
    ensures
        line_feeds(a + b) == line_feeds(a) + line_feeds(b),
    decreases b.len(),
{
    if b.len() == 0 {
        assert(a + b =~= a);
    } else {
        assert((a + b).drop_last() =~= a + b.drop_last());
        lemma_line_feeds_add(a, b.drop_last());
    }
}

/// A text on one line holds no line feed.
pub proof fn lemma_one_line_has_no_line_feed(s: Seq<u8>)
    requires
        one_line(s),
    ensures
        line_feeds(s) == 0,
    decreases s.len(),
{
    if s.len() > 0 {
        assert(s.last() == s[s.len() - 1]);
        lemma_one_line_has_no_line_feed(s.drop_last());
    }
}

/// The pairs of a row are on one line.
pub proof fn lemma_hex_pairs_on_one_line(row: Seq<u8>)
    ensures
        one_line(hex_pairs(row)),
    decreases row.len(),
{
    if row.len() >= 2 {
        lemma_hex_pairs_on_one_line(row.skip(2));
    }
}

/// Every row holds one line feed, its last byte.
pub proof fn lemma_row_is_one_line(start: nat, width: nat, data: Seq<u8>, k: nat)
    ensures
        line_feeds(row_text(start, width, data, k)) == 1,
        row_text(start, width, data, k).last() == NEWLINE,
{
    let row = row_bytes(data, k);
    let offset = offset_column(start + 16 * k, width);
    let hex = hex_column(row);
    let text = spaces(2) + Seq::new(row.len(), |i: int| printable(row[i]));
    lemma_decimal_round_trip(start + 16 * k);
    assert(one_line(offset)) by {
        let digits = decimal_digits(start + 16 * k);
        assert forall|i: int| 0 <= i < digits.len() implies #[trigger] digits[i] != NEWLINE by {
            assert(is_digit(digits[i]));
        }
    }
    lemma_hex_pairs_on_one_line(row);
    assert(one_line(hex));
    assert(one_line(text));
    let head = offset + hex + text;
    assert(one_line(head));
    lemma_one_line_has_no_line_feed(head);
    assert(row_text(start, width, data, k) =~= head + seq![NEWLINE]);
    assert((head + seq![NEWLINE]).drop_last() =~= head);
}

/// The first `n` rows hold `n` line feeds.
pub proof fn lemma_rows_line_feeds(start: nat, width: nat, data: Seq<u8>, n: nat)
    ensures
        line_feeds(rows_text(start, width, data, n)) == n,
        n > 0 ==> rows_text(start, width, data, n).len() > 0 && rows_text(
            start,
            width,
            data,
            n,
        ).last() == NEWLINE,
    decreases n,
{
    if n > 0 {
        lemma_rows_line_feeds(start, width, data, (n - 1) as nat);
        lemma_row_is_one_line(start, width, data, (n - 1) as nat);
        lemma_line_feeds_add(
            rows_text(start, width, data, (n - 1) as nat),
            row_text(start, width, data, (n - 1) as nat),
        );
    }
}

/// A hexdump has as many lines as it takes rows of sixteen to hold the
/// bytes: one for up to sixteen bytes, two from seventeen on, and so
/// forth. Each line ends in a line feed.
pub proof fn lemma_hexdump_line_count(start: nat, data: Seq<u8>)
    ensures
        line_feeds(hexdump(start, data)) == row_count(data.len()),
        data.len() > 0 ==> hexdump(start, data).len() > 0 && hexdump(start, data).last()
            == NEWLINE,
{
    if data.len() > 0 {
        lemma_rows_line_feeds(
            start,
            offset_width(start, data.len()),
            data,
            row_count(data.len()),
        );
    }
}

/// The pairs of a row take five places for every two bytes, a last byte
/// alone counting as two.
pub proof fn lemma_hex_pairs_len(row: Seq<u8>)
    ensures
        hex_pairs(row).len() == 5 * ((row.len() + 1) / 2),
    decreases row.len(),
{
    if row.len() >= 2 {
        lemma_hex_pairs_len(row.skip(2));
    }
}

/// The columns of a hexdump stand one under the other. In every row the
/// column of offsets is as wide as in every other, and the hexadecimal
/// column is forty places wide, whether the row is full or short: so the
/// text column begins at the same place in every row.
pub proof fn lemma_rows_are_aligned(start: nat, data: Seq<u8>, k: nat)
    requires
        k < row_count(data.len()),
    ensures
        ({
            let width = offset_width(start, data.len());
            let row = row_bytes(data, k);
            &&& 1 <= row.len() <= 16
            &&& k + 1 < row_count(data.len()) ==> row.len() == 16
            &&& offset_column(start + 16 * k, width).len() == width + 1
            &&& hex_column(row).len() == 40
            &&& text_column(row).len() == 2 + row.len() + 1
            &&& row_text(start, width, data, k).len() == width + 1 + 40 + 2 + row.len() + 1
        }),
{
    let width = offset_width(start, data.len());
    let row = row_bytes(data, k);
    lemma_decimal_digits_grow(start + 16 * k, start + 16 * (row_count(data.len()) - 1) as nat);
    lemma_hex_pairs_len(row);
}

} // verus!
