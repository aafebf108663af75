//! Human-readable sizes and durations, and the glyphs of the horizontal
//! usage bars.
use vstd::prelude::*;
use vstd::arithmetic::power2::{pow2, lemma_pow2_unfold, lemma2_to64};
use crate::text::{decimal, push_char, push_decimal, push_zero_padded, zero_padded};

verus! {

pub const KIB: u64 = 1024;
pub const MIB: u64 = 1048576;
pub const GIB: u64 = 1073741824;
pub const TIB: u64 = 1099511627776;

/// Integers from 2^53 on are no longer all exactly representable as `f64`.
pub const F64_EXACT_LIMIT: u64 = 9007199254740992;

// ---------------------------------------------------------------------------
// Durations.
// ---------------------------------------------------------------------------

/// `secs` as "Dd HHh MMm" from one day on, "Hh MMm SSs" from one hour on,
/// and "Mm SSs" below.
pub open spec fn duration_text(secs: nat) -> Seq<char> {
    let days = secs / 86400;
    let hours = (secs % 86400) / 3600;
    let mins = (secs % 3600) / 60;
    let s = secs % 60;
    if days > 0 {
        decimal(days) + seq!['d', ' '] + zero_padded(hours, 2) + seq!['h', ' '] + zero_padded(mins, 2)
            + seq!['m']
    } else if hours > 0 {
        decimal(hours) + seq!['h', ' '] + zero_padded(mins, 2) + seq!['m', ' '] + zero_padded(s, 2)
            + seq!['s']
    } else {
        decimal(mins) + seq!['m', ' '] + zero_padded(s, 2) + seq!['s']
    }
}

/// A duration of `d` days, `h` hours, `m` minutes and `s` seconds reads
/// "Dd HHh MMm" when there are days, "Hh MMm SSs" when there are hours, and
/// "Mm SSs" otherwise, the later fields with two digits.
pub proof fn law_duration_fields(d: nat, h: nat, m: nat, s: nat)
    requires
        h < 24,
        m < 60,
        s < 60,
    ensures
        duration_text(d * 86400 + h * 3600 + m * 60 + s) == (if d > 0 {
            decimal(d) + seq!['d', ' '] + zero_padded(h, 2) + seq!['h', ' '] + zero_padded(m, 2)
                + seq!['m']
        } else if h > 0 {
            decimal(h) + seq!['h', ' '] + zero_padded(m, 2) + seq!['m', ' '] + zero_padded(s, 2)
                + seq!['s']
        } else {
            decimal(m) + seq!['m', ' '] + zero_padded(s, 2) + seq!['s']
        }),
{
    let t = d * 86400 + h * 3600 + m * 60 + s;
    let in_day = h * 3600 + m * 60 + s;
    let in_hour = m * 60 + s;
    assert(in_day < 86400) by (nonlinear_arith)
        requires h < 24, m < 60, s < 60, in_day == h * 3600 + m * 60 + s;
    assert(in_hour < 3600) by (nonlinear_arith)
        requires m < 60, s < 60, in_hour == m * 60 + s;
    assert(t == d * 86400 + in_day);
    vstd::arithmetic::div_mod::lemma_fundamental_div_mod_converse(t as int, 86400, d as int, in_day as int);
    vstd::arithmetic::div_mod::lemma_fundamental_div_mod_converse(in_day as int, 3600, h as int, in_hour as int);
    vstd::arithmetic::div_mod::lemma_fundamental_div_mod_converse(in_hour as int, 60, m as int, s as int);
    assert(t == (d * 24 + h) * 3600 + in_hour) by (nonlinear_arith)
        requires t == d * 86400 + h * 3600 + in_hour;
    vstd::arithmetic::div_mod::lemma_fundamental_div_mod_converse(t as int, 3600, (d * 24 + h) as int, in_hour as int);
    assert(t == ((d * 24 + h) * 60 + m) * 60 + s) by (nonlinear_arith)
        requires t == (d * 24 + h) * 3600 + in_hour, in_hour == m * 60 + s;
    vstd::arithmetic::div_mod::lemma_fundamental_div_mod_converse(t as int, 60, ((d * 24 + h) * 60 + m) as int, s as int);
}

/// Appends the characters of `t` one by one.
pub fn push_all(s: &mut String, chars: &[char])
    ensures
        final(s)@ == old(s)@ + chars@,
{
    let mut k: usize = 0;
    while k < chars.len()
        invariant
            k <= chars@.len(),
            s@ == old(s)@ + chars@.take(k as int),
        decreases chars@.len() - k,
    {
        push_char(s, chars[k]);
        k = k + 1;
        assert(s@ =~= old(s)@ + chars@.take(k as int));
    }
    assert(chars@.take(k as int) =~= chars@);
}

/// Uptime and remaining-time format: "1d 01h 00m", "1h 01m 05s", "0m 45s".
pub fn format_duration(secs: u64) -> (r: String)
    ensures
        r@ == duration_text(secs as nat),
{
    let days = secs / 86400;
    let hours = (secs % 86400) / 3600;
    let mins = (secs % 3600) / 60;
    let s = secs % 60;
    let mut out = String::new();
    if days > 0 {
        push_decimal(&mut out, days);
        push_all(&mut out, &['d', ' ']);
        push_zero_padded(&mut out, hours, 2);
        push_all(&mut out, &['h', ' ']);
        push_zero_padded(&mut out, mins, 2);
        push_char(&mut out, 'm');
    } else if hours > 0 {
        push_decimal(&mut out, hours);
        push_all(&mut out, &['h', ' ']);
        push_zero_padded(&mut out, mins, 2);
        push_all(&mut out, &['m', ' ']);
        push_zero_padded(&mut out, s, 2);
        push_char(&mut out, 's');
    } else {
        push_decimal(&mut out, mins);
        push_all(&mut out, &['m', ' ']);
        push_zero_padded(&mut out, s, 2);
        push_char(&mut out, 's');
    }
    assert(out@ =~= duration_text(secs as nat));
    out
}

// ---------------------------------------------------------------------------
// Byte sizes.
// ---------------------------------------------------------------------------

/// `n / d` rounded to the nearest integer, ties to the even neighbour (how
/// `{:.N}` formatting rounds an exact value).
pub open spec fn round_half_even(n: nat, d: nat) -> nat {
    let q = n / d;
    let r = n % d;
    if 2 * r < d {
        q
    } else if 2 * r > d {
        q + 1
    } else if q % 2 == 0 {
        q
    } else {
        q + 1
    }
}

/// How many low bits of `b` do not fit in the 53-bit significand of an
/// `f64`.
pub open spec fn excess_bits(b: nat) -> nat
    decreases b,
{
    if b < F64_EXACT_LIMIT {
        0
    } else {
        1 + excess_bits(b / 2)
    }
}

/// The value of `b as f64`: `b` rounded to the nearest multiple of
/// 2^excess_bits, ties to even.
pub open spec fn f64_value(b: nat) -> nat {
    let k = excess_bits(b);
    round_half_even(b, pow2(k)) * pow2(k)
}

/// `q / 10^decimals` written with `decimals` fractional digits.
pub open spec fn fixed_point(q: nat, decimals: nat) -> Seq<char> {
    if decimals == 1 {
        decimal(q / 10) + seq!['.'] + decimal(q % 10)
    } else {
        decimal(q / 100) + seq!['.'] + zero_padded(q % 100, 2)
    }
}

/// The size shown for `b` bytes: two decimals in TB and GB, one in MB and
/// KB (units of 1024), whole bytes below one KB. The value is that of
/// `b as f64` divided by the unit, rounded to the shown decimals.
pub open spec fn bytes_text(b: nat) -> Seq<char> {
    if b >= TIB {
        fixed_point(round_half_even(f64_value(b) * 100, TIB as nat), 2) + seq![' ', 'T', 'B']
    } else if b >= GIB {
        fixed_point(round_half_even(b * 100, GIB as nat), 2) + seq![' ', 'G', 'B']
    } else if b >= MIB {
        fixed_point(round_half_even(b * 10, MIB as nat), 1) + seq![' ', 'M', 'B']
    } else if b >= KIB {
        fixed_point(round_half_even(b * 10, KIB as nat), 1) + seq![' ', 'K', 'B']
    } else {
        decimal(b) + seq![' ', 'B']
    }
}

/// `n / d` rounded half to even.
fn round_div(n: u128, d: u128) -> (r: u128)
    requires
        d > 0,
        n / d < u128::MAX,
    ensures
        r == round_half_even(n as nat, d as nat),
{
    let q = n / d;
    let rem = n % d;
    if rem < d - rem {
        q
    } else if rem > d - rem {
        q + 1
    } else if q % 2 == 0 {
        q
    } else {
        q + 1
    }
}

/// The value of `b as f64`, as an integer.
fn f64_value_exec(b: u64) -> (r: u128)
    ensures
        r == f64_value(b as nat),
        r <= 0x20000000000000000,
{
    let mut m: u64 = b;
    let mut k: u32 = 0;
    let mut p: u128 = 1;
    proof {
        lemma2_to64();
    }
    while m >= F64_EXACT_LIMIT
        invariant
            k <= 11,
            p == pow2(k as nat),
            m == b as nat / pow2(k as nat),
            excess_bits(b as nat) == k + excess_bits(m as nat),
        decreases m,
    {
        proof {
            vstd::arithmetic::power2::lemma_pow2_pos(k as nat);
            lemma_pow2_unfold((k + 1) as nat);
            vstd::arithmetic::div_mod::lemma_div_denominator(b as int, pow2(k as nat) as int, 2);
            vstd::arithmetic::div_mod::lemma_fundamental_div_mod(b as int, pow2(k as nat) as int);
            let pk = pow2(k as nat);
            assert(pk * m <= b) by (nonlinear_arith)
                requires
                    m == b as nat / pk,
                    pk > 0,
                    b as int == pk * (b as int / pk as int) + (b as int % pk as int),
                    b as int % pk as int >= 0,
            ;
            assert(pk < 2048) by (nonlinear_arith)
                requires
                    pk * m <= b,
                    m >= 9007199254740992,
                    b < 0x10000000000000000,
                    pk > 0,
            ;
            lemma2_to64();
            if k >= 11 {
                if k > 11 {
                    vstd::arithmetic::power2::lemma_pow2_strictly_increases(11, k as nat);
                }
            }
        }
        m = m / 2;
        k = k + 1;
        p = p * 2;
    }
    proof {
        vstd::arithmetic::power2::lemma_pow2_pos(k as nat);
        lemma2_to64();
        if k < 11 {
            vstd::arithmetic::power2::lemma_pow2_strictly_increases(k as nat, 11);
        }
    }
    let q = b as u128 / p;
    let rounded = round_div(b as u128, p);
    proof {
        assert(rounded <= q + 1);
        assert(rounded * p <= q * p + p) by (nonlinear_arith)
            requires
                rounded <= q + 1,
                p > 0,
        ;
        assert(q * p <= b) by (nonlinear_arith)
            requires
                q == b as u128 / p,
                p > 0,
        ;
    }
    rounded * p
}

/// Appends `q / 10^decimals` with `decimals` (1 or 2) fractional digits.
fn push_fixed_point(s: &mut String, q: u64, decimals: u64)
    requires
        decimals == 1 || decimals == 2,
    ensures
        final(s)@ == old(s)@ + fixed_point(q as nat, decimals as nat),
{
    if decimals == 1 {
        push_decimal(s, q / 10);
        push_char(s, '.');
        push_decimal(s, q % 10);
    } else {
        push_decimal(s, q / 100);
        push_char(s, '.');
        push_zero_padded(s, q % 100, 2);
    }
    assert(s@ =~= old(s)@ + fixed_point(q as nat, decimals as nat));
}

/// A byte count as shown in the panels: "500 B", "1.0 KB", "5.0 MB",
/// "16.00 GB", "2.00 TB".
pub fn format_bytes(bytes: u64) -> (r: String)
    ensures
        r@ == bytes_text(bytes as nat),
{
    let mut out = String::new();
    if bytes >= TIB {
        let v = f64_value_exec(bytes);
        let q = round_div(v * 100, TIB as u128);
        assert(q <= 0x20000000000000000nat * 100 / 1099511627776 + 1);
        push_fixed_point(&mut out, q as u64, 2);
        push_all(&mut out, &[' ', 'T', 'B']);
    } else if bytes >= GIB {
        let q = round_div(bytes as u128 * 100, GIB as u128);
        push_fixed_point(&mut out, q as u64, 2);
        push_all(&mut out, &[' ', 'G', 'B']);
    } else if bytes >= MIB {
        let q = round_div(bytes as u128 * 10, MIB as u128);
        push_fixed_point(&mut out, q as u64, 1);
        push_all(&mut out, &[' ', 'M', 'B']);
    } else if bytes >= KIB {
        let q = round_div(bytes as u128 * 10, KIB as u128);
        push_fixed_point(&mut out, q as u64, 1);
        push_all(&mut out, &[' ', 'K', 'B']);
    } else {
        push_decimal(&mut out, bytes);
        push_all(&mut out, &[' ', 'B']);
    }
    assert(out@ =~= bytes_text(bytes as nat));
    out
}

/// The unit follows the size: bytes below one KiB, then KB, MB, GB and TB
/// from one KiB, MiB, GiB and TiB on; whole numbers of a unit show as that
/// number with ".0" (KB, MB) or ".00" (GB) decimals, and sizes below one
/// KiB as the plain number of bytes.
pub proof fn law_bytes_units(b: nat, k: nat)
    requires
        1 <= k < 1024,
    ensures
        b < KIB ==> bytes_text(b) == decimal(b) + seq![' ', 'B'],
        KIB <= b < MIB ==> bytes_text(b).subrange(bytes_text(b).len() - 3, bytes_text(b).len() as int) == seq![' ', 'K', 'B'],
        MIB <= b < GIB ==> bytes_text(b).subrange(bytes_text(b).len() - 3, bytes_text(b).len() as int) == seq![' ', 'M', 'B'],
        GIB <= b < TIB ==> bytes_text(b).subrange(bytes_text(b).len() - 3, bytes_text(b).len() as int) == seq![' ', 'G', 'B'],
        TIB <= b ==> bytes_text(b).subrange(bytes_text(b).len() - 3, bytes_text(b).len() as int) == seq![' ', 'T', 'B'],
        bytes_text(k * (KIB as nat)) == decimal(k) + seq!['.', '0', ' ', 'K', 'B'],
        bytes_text(k * (MIB as nat)) == decimal(k) + seq!['.', '0', ' ', 'M', 'B'],
        bytes_text(k * (GIB as nat)) == decimal(k) + seq!['.', '0', '0', ' ', 'G', 'B'],
{
    let kb: nat = k * (KIB as nat);
    let mb: nat = k * (MIB as nat);
    let gb: nat = k * (GIB as nat);
    assert(KIB <= kb < MIB) by (nonlinear_arith)
        requires 1 <= k < 1024, kb == k * 1024;
    assert(MIB <= mb < GIB) by (nonlinear_arith)
        requires 1 <= k < 1024, mb == k * 1048576;
    assert(GIB <= gb < TIB) by (nonlinear_arith)
        requires 1 <= k < 1024, gb == k * 1073741824;
    assert(kb * 10 == (10 * k) * 1024) by (nonlinear_arith)
        requires kb == k * 1024;
    assert(mb * 10 == (10 * k) * 1048576) by (nonlinear_arith)
        requires mb == k * 1048576;
    assert(gb * 100 == (100 * k) * 1073741824) by (nonlinear_arith)
        requires gb == k * 1073741824;
    vstd::arithmetic::div_mod::lemma_fundamental_div_mod_converse((kb * 10) as int, 1024, (10 * k) as int, 0);
    vstd::arithmetic::div_mod::lemma_fundamental_div_mod_converse((mb * 10) as int, 1048576, (10 * k) as int, 0);
    vstd::arithmetic::div_mod::lemma_fundamental_div_mod_converse((gb * 100) as int, 1073741824, (100 * k) as int, 0);
    assert(round_half_even(kb * 10nat, KIB as nat) == 10nat * k);
    assert(round_half_even(mb * 10nat, MIB as nat) == 10nat * k);
    assert(round_half_even(gb * 100nat, GIB as nat) == 100nat * k);
    assert((10 * k) / 10 == k && (10 * k) % 10 == 0);
    assert((100 * k) / 100 == k && (100 * k) % 100 == 0);
    assert(decimal(0) == seq!['0']);
    assert(decimal(0).len() == 1);
    assert(zero_padded(0, 2) =~= seq!['0', '0']);
    assert(bytes_text(kb) =~= decimal(k) + seq!['.', '0', ' ', 'K', 'B']);
    assert(bytes_text(mb) =~= decimal(k) + seq!['.', '0', ' ', 'M', 'B']);
    assert(bytes_text(gb) =~= decimal(k) + seq!['.', '0', '0', ' ', 'G', 'B']);
}

/// Below 2^53 bytes, `b as f64` is `b` itself.
pub proof fn lemma_f64_value_exact(b: nat)
    requires
        b < F64_EXACT_LIMIT,
    ensures
        f64_value(b) == b,
{
    vstd::arithmetic::power2::lemma2_to64();
    assert(excess_bits(b) == 0);
    assert(b / 1 == b && b % 1 == 0);
}

// ---------------------------------------------------------------------------
// Usage bars.
// ---------------------------------------------------------------------------

/// One cell of a horizontal usage bar: its glyph, and whether it is part of
/// the filled (coloured) portion.
#[derive(Debug, Clone, Copy, PartialEq, Eq, Structural)]
pub struct BarCell {
    pub glyph: char,
    pub filled: bool,
}

/// The partial-block glyph for `eighths` (1..=7) eighths of a cell.
pub open spec fn partial_block(eighths: nat) -> char {
    if eighths == 1 {
        '▏'
    } else if eighths == 2 {
        '▎'
    } else if eighths == 3 {
        '▍'
    } else if eighths == 4 {
        '▌'
    } else if eighths == 5 {
        '▋'
    } else if eighths == 6 {
        '▊'
    } else if eighths == 7 {
        '▉'
    } else {
        ' '
    }
}

/// Cell `i` of a bar filled to `total_eighths` eighths of a cell: full
/// blocks first, then one partial block for the remainder, then
/// `empty_glyph`.
pub open spec fn bar_cell(i: nat, total_eighths: nat, empty_glyph: char) -> BarCell {
    let full = total_eighths / 8;
    let rem = total_eighths % 8;
    if i < full {
        BarCell { glyph: '█', filled: true }
    } else if i == full && rem > 0 {
        BarCell { glyph: partial_block(rem), filled: true }
    } else {
        BarCell { glyph: empty_glyph, filled: false }
    }
}

/// The `width` cells of a bar filled to `total_eighths` eighths of a cell
/// (the caller rounds the percentage to eighths).
pub fn bar_cells(total_eighths: usize, width: usize, empty_glyph: char) -> (r: Vec<BarCell>)
    ensures
        r@.len() == width,
        forall|i: int| 0 <= i < width ==> #[trigger] r@[i] == bar_cell(i as nat, total_eighths as nat, empty_glyph),
{
    let full = total_eighths / 8;
    let rem = total_eighths % 8;
    let partial = if rem == 1 {
        '▏'
    } else if rem == 2 {
        '▎'
    } else if rem == 3 {
        '▍'
    } else if rem == 4 {
        '▌'
    } else if rem == 5 {
        '▋'
    } else if rem == 6 {
        '▊'
    } else if rem == 7 {
        '▉'
    } else {
        ' '
    };
    let mut r: Vec<BarCell> = Vec::new();
    let mut i: usize = 0;
    while i < width
        invariant
            i <= width,
            full == total_eighths / 8,
            rem == total_eighths % 8,
            partial == partial_block(rem as nat),
            r@.len() == i,
            forall|j: int| 0 <= j < i ==> #[trigger] r@[j] == bar_cell(j as nat, total_eighths as nat, empty_glyph),
        decreases width - i,
    {
        let cell = if i < full {
            BarCell { glyph: '█', filled: true }
        } else if i == full && rem > 0 {
            BarCell { glyph: partial, filled: true }
        } else {
            BarCell { glyph: empty_glyph, filled: false }
        };
        r.push(cell);
        i = i + 1;
    }
    r
}

} // verus!
