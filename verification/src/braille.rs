//! Braille history charts: each terminal cell shows two columns of four
//! dots, so a chart has twice the horizontal and four times the vertical
//! resolution of the cell grid. The application turns sample values into
//! column heights; this module picks the samples shown and the glyph of each
//! cell.
use vstd::prelude::*;

verus! {

/// `char::from_u32`: the character with scalar value `v`, when `v` is a
/// Unicode scalar value (not a surrogate, at most U+10FFFF).
#[verifier::external_body]
pub(crate) fn char_from_u32(v: u32) -> (r: Option<char>)
    ensures
        (v <= 0xD7FF || (0xE000 <= v && v <= 0x10FFFF)) ==> r == Some(v as char),
        !(v <= 0xD7FF || (0xE000 <= v && v <= 0x10FFFF)) ==> r is None,
{
    char::from_u32(v)
}

/// The last `n` samples of `data`, padded in front with `pad` when there are
/// fewer than `n`.
pub open spec fn window<T>(data: Seq<T>, n: nat, pad: T) -> Seq<T> {
    let m = if data.len() < n {
        data.len()
    } else {
        n
    };
    Seq::new((n - m) as nat, |i: int| pad) + data.subrange(data.len() - m, data.len() as int)
}

/// A chart window of `n` samples holds the newest samples right-aligned:
/// position `i` shows the sample `n - 1 - i` places before the newest, or
/// the padding where there is no such sample.
pub proof fn law_window_right_aligned<T>(data: Seq<T>, n: nat, pad: T)
    ensures
        window(data, n, pad).len() == n,
        forall|i: int|
            0 <= i < n ==> #[trigger] window(data, n, pad)[i] == (if data.len() + i >= n {
                data[data.len() - n + i]
            } else {
                pad
            }),
{
    let m = if data.len() < n {
        data.len()
    } else {
        n
    };
    assert forall|i: int| 0 <= i < n implies #[trigger] window(data, n, pad)[i] == (if data.len()
        + i >= n {
        data[data.len() - n + i]
    } else {
        pad
    }) by {
        if i >= n - m {
            assert(window(data, n, pad)[i] == data.subrange(data.len() - m, data.len() as int)[i
                - (n - m)]);
        }
    }
}

/// The samples a chart `n` sub-columns wide shows: the newest `n`, right
/// aligned, with `pad` where there is no sample yet.
pub fn latest_window<T: Copy>(data: &[T], n: usize, pad: T) -> (r: Vec<T>)
    ensures
        r@ == window(data@, n as nat, pad),
{
    let len = data.len();
    let m = if len < n {
        len
    } else {
        n
    };
    let mut r: Vec<T> = Vec::new();
    let mut i: usize = 0;
    while i < n - m
        invariant
            i <= n - m,
            m <= n,
            m <= len,
            len == data@.len(),
            r@ == Seq::new(i as nat, |j: int| pad),
        decreases n - m - i,
    {
        r.push(pad);
        i = i + 1;
        assert(r@ =~= Seq::new(i as nat, |j: int| pad));
    }
    let mut k: usize = len - m;
    while k < len
        invariant
            len - m <= k <= len,
            m <= n,
            m <= len,
            len == data@.len(),
            r@ == Seq::new((n - m) as nat, |j: int| pad) + data@.subrange(len - m, k as int),
        decreases len - k,
    {
        r.push(data[k]);
        k = k + 1;
        assert(r@ =~= Seq::new((n - m) as nat, |j: int| pad) + data@.subrange(len - m, k as int));
    }
    r
}

/// Whether the dot at sub-row `dot_row` (1 = bottom sub-row of the chart,
/// counting upwards) is lit in a column of height `h`: every dot up to the
/// height when `filled`, otherwise only the dot at the height, plus the
/// lowest dot of each cell the column reaches.
pub open spec fn dot_lit(dot_row: nat, dot_idx: nat, h: nat, filled: bool) -> bool {
    if filled {
        dot_row <= h
    } else {
        dot_row == h || (dot_idx == 0 && dot_row <= h && h > 0)
    }
}

/// The braille bit of dot `dot_idx` (0 = bottom) of the left column.
pub open spec fn left_mask(dot_idx: nat) -> nat {
    if dot_idx == 0 {
        0x40
    } else if dot_idx == 1 {
        0x04
    } else if dot_idx == 2 {
        0x02
    } else {
        0x01
    }
}

/// The braille bit of dot `dot_idx` (0 = bottom) of the right column.
pub open spec fn right_mask(dot_idx: nat) -> nat {
    if dot_idx == 0 {
        0x80
    } else if dot_idx == 1 {
        0x20
    } else if dot_idx == 2 {
        0x10
    } else {
        0x08
    }
}

/// The bits of dots `0..k` of a cell whose lowest sub-row is `base + 1`,
/// for columns of heights `left_h` and `right_h`.
pub open spec fn cell_bits(base: nat, left_h: nat, right_h: nat, filled: bool, k: nat) -> nat
    decreases k,
{
    if k == 0 {
        0
    } else {
        let d = (k - 1) as nat;
        let row = base + d + 1;
        cell_bits(base, left_h, right_h, filled, d) + (if dot_lit(row, d, left_h, filled) {
            left_mask(d)
        } else {
            0
        }) + (if dot_lit(row, d, right_h, filled) {
            right_mask(d)
        } else {
            0
        })
    }
}

/// The glyph of a cell with dot bits `bits`: a blank for no dot, otherwise
/// the braille pattern U+2800 + bits.
pub open spec fn braille_glyph(bits: nat) -> char {
    if bits == 0 {
        ' '
    } else {
        (0x2800 + bits) as char
    }
}

/// The largest value of the bits of dots `0..k`.
spec fn max_cell_bits(k: nat) -> nat {
    if k == 0 {
        0
    } else if k == 1 {
        0xC0
    } else if k == 2 {
        0xE4
    } else if k == 3 {
        0xF6
    } else {
        0xFF
    }
}

proof fn lemma_cell_bits_bound(base: nat, left_h: nat, right_h: nat, filled: bool, k: nat)
    requires
        k <= 4,
    ensures
        cell_bits(base, left_h, right_h, filled, k) <= max_cell_bits(k),
    decreases k,
{
    if k > 0 {
        let d = (k - 1) as nat;
        lemma_cell_bits_bound(base, left_h, right_h, filled, d);
        assert(left_mask(d) + right_mask(d) + max_cell_bits(d) <= max_cell_bits(k));
    }
}

/// Every chart cell is a blank or a character of the braille patterns
/// block, U+2801 to U+28FF.
pub proof fn law_cells_are_braille(base: nat, left_h: nat, right_h: nat, filled: bool)
    ensures
        ({
            let c = braille_glyph(cell_bits(base, left_h, right_h, filled, 4));
            c == ' ' || (0x2801 <= c as int && c as int <= 0x28FF)
        }),
{
    lemma_cell_bits_bound(base, left_h, right_h, filled, 4);
}

/// The dots of the left column (0 = bottom dot) lit up to `k` dots.
pub open spec fn left_column_bits(k: int) -> nat {
    if k <= 0 {
        0
    } else if k == 1 {
        0x40
    } else if k == 2 {
        0x44
    } else if k == 3 {
        0x46
    } else {
        0x47
    }
}

/// The dots of the right column lit up to `k` dots.
pub open spec fn right_column_bits(k: int) -> nat {
    if k <= 0 {
        0
    } else if k == 1 {
        0x80
    } else if k == 2 {
        0xA0
    } else if k == 3 {
        0xB0
    } else {
        0xB8
    }
}

/// In a filled chart each column of a cell lights its dots from the bottom
/// up to the column's height: a column reaching `h` sub-rows lights the
/// `h - base` lowest dots of a cell whose lowest sub-row is `base + 1`
/// (none below it, all four above it), the left column on braille dots
/// 7, 3, 2, 1 and the right one on dots 8, 6, 5, 4.
pub proof fn law_filled_columns(base: nat, left_h: nat, right_h: nat)
    ensures
        cell_bits(base, left_h, right_h, true, 4) == left_column_bits(left_h - base)
            + right_column_bits(right_h - base),
{
    reveal_with_fuel(cell_bits, 5);
}

/// In a filled chart, a cell whose two columns reach its top sub-row is the
/// full braille block, and a cell whose two columns stay below its lowest
/// sub-row is blank.
pub proof fn law_filled_cells(base: nat, left_h: nat, right_h: nat)
    ensures
        left_h >= base + 4 && right_h >= base + 4 ==> braille_glyph(
            cell_bits(base, left_h, right_h, true, 4),
        ) == '\u{28FF}',
        left_h <= base && right_h <= base ==> braille_glyph(cell_bits(base, left_h, right_h, true, 4))
            == ' ',
{
    reveal_with_fuel(cell_bits, 5);
}

/// The glyph of one chart cell whose lowest sub-row is `base + 1`, for the
/// left and right column heights `left_h` and `right_h` (in sub-rows).
pub fn braille_cell(base: usize, left_h: usize, right_h: usize, filled: bool) -> (c: char)
    requires
        base + 4 <= usize::MAX,
    ensures
        c == braille_glyph(cell_bits(base as nat, left_h as nat, right_h as nat, filled, 4)),
{
    let left_masks: [u32; 4] = [0x40, 0x04, 0x02, 0x01];
    let right_masks: [u32; 4] = [0x80, 0x20, 0x10, 0x08];
    let mut bits: u32 = 0;
    let mut d: usize = 0;
    while d < 4
        invariant
            d <= 4,
            base + 4 <= usize::MAX,
            left_masks@ == seq![0x40u32, 0x04, 0x02, 0x01],
            right_masks@ == seq![0x80u32, 0x20, 0x10, 0x08],
            bits == cell_bits(base as nat, left_h as nat, right_h as nat, filled, d as nat),
            bits <= max_cell_bits(d as nat),
        decreases 4 - d,
    {
        let row = base + d + 1;
        let left_on = if filled {
            row <= left_h
        } else {
            row == left_h || (d == 0 && row <= left_h && left_h > 0)
        };
        let right_on = if filled {
            row <= right_h
        } else {
            row == right_h || (d == 0 && row <= right_h && right_h > 0)
        };
        proof {
            lemma_cell_bits_bound(base as nat, left_h as nat, right_h as nat, filled, (d + 1) as nat);
        }
        if left_on {
            bits = bits + left_masks[d];
        }
        if right_on {
            bits = bits + right_masks[d];
        }
        d = d + 1;
    }
    if bits == 0 {
        ' '
    } else {
        match char_from_u32(0x2800 + bits) {
            Some(c) => c,
            None => ' ',
        }
    }
}

/// The glyphs of a chart `heights.len() / 2` cells wide and `rows` cells
/// tall, top row first; sub-column `j` has height `heights[j]` sub-rows.
pub fn braille_grid(heights: &Vec<usize>, rows: usize, filled: bool) -> (grid: Vec<Vec<char>>)
    requires
        rows <= 0xFFFF,
    ensures
        grid@.len() == rows,
        forall|y: int|
            0 <= y < rows ==> #[trigger] grid@[y]@.len() == heights@.len() / 2,
        forall|y: int, x: int|
            0 <= y < rows && 0 <= x < heights@.len() / 2 ==> #[trigger] grid@[y]@[x]
                == braille_glyph(
                cell_bits(
                    ((rows - 1 - y) * 4) as nat,
                    heights@[2 * x] as nat,
                    heights@[2 * x + 1] as nat,
                    filled,
                    4,
                ),
            ),
{
    let width = heights.len() / 2;
    let mut grid: Vec<Vec<char>> = Vec::new();
    let mut y: usize = 0;
    while y < rows
        invariant
            y <= rows,
            rows <= 0xFFFF,
            width == heights@.len() / 2,
            grid@.len() == y,
            forall|yy: int| 0 <= yy < y ==> #[trigger] grid@[yy]@.len() == width,
            forall|yy: int, x: int|
                0 <= yy < y && 0 <= x < width ==> #[trigger] grid@[yy]@[x] == braille_glyph(
                    cell_bits(
                        ((rows - 1 - yy) * 4) as nat,
                        heights@[2 * x] as nat,
                        heights@[2 * x + 1] as nat,
                        filled,
                        4,
                    ),
                ),
        decreases rows - y,
    {
        let base = (rows - 1 - y) * 4;
        let mut line: Vec<char> = Vec::new();
        let mut x: usize = 0;
        while x < width
            invariant
                x <= width,
                width == heights@.len() / 2,
                heights@.len() == heights.len(),
                base == (rows - 1 - y) * 4,
                base + 4 <= usize::MAX,
                line@.len() == x,
                forall|xx: int|
                    0 <= xx < x ==> #[trigger] line@[xx] == braille_glyph(
                        cell_bits(
                            base as nat,
                            heights@[2 * xx] as nat,
                            heights@[2 * xx + 1] as nat,
                            filled,
                            4,
                        ),
                    ),
            decreases width - x,
        {
            let hl = heights.len();
            assert(2 * x + 1 < hl) by (nonlinear_arith)
                requires x < width, width == hl / 2;
            line.push(braille_cell(base, heights[2 * x], heights[2 * x + 1], filled));
            x = x + 1;
        }
        grid.push(line);
        y = y + 1;
    }
    grid
}

} // verus!
