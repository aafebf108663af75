//! Layout decisions and text of the panels: titles that fit their border,
//! the per-core grid, the disk/battery split, the process-list header and
//! rows, and the header badges. The application draws the results into the
//! terminal buffer.
use vstd::prelude::*;
use crate::config::{ProcessSortBy, ThemeMode};
use crate::gauge::{bytes_text, format_bytes, push_all};
use crate::process::ProcessItem;
use crate::text::{
    chars_of, contains_seq, cow_str, decimal, pad_left, pad_right, push_char, push_decimal, push_pad_left,
    push_pad_right, truncate, truncated,
};
use crate::updater::UpdateStatus;

verus! {

broadcast use vstd::string::group_string_axioms;

/// A rectangle of terminal cells.
#[derive(Debug, Clone, Copy, PartialEq, Eq, Structural)]
pub struct Area {
    pub x: u16,
    pub y: u16,
    pub width: u16,
    pub height: u16,
}

// ---------------------------------------------------------------------------
// Disk and battery.
// ---------------------------------------------------------------------------

/// Height (borders included) of the battery panel carved out of the bottom
/// of the disk panel's cell.
pub const BATTERY_PANEL_HEIGHT: u16 = 7;

/// Height the disk panel keeps at least; below
/// `DISK_MIN_HEIGHT + BATTERY_PANEL_HEIGHT` the battery panel is skipped.
pub const DISK_MIN_HEIGHT: u16 = 8;

/// Splits a disk panel's cell into the disk area and, when a battery is
/// present and the cell is tall enough, a battery area directly below it.
pub fn split_disk_and_battery(area: Area, battery_present: bool) -> (r: (Area, Option<Area>))
    requires
        battery_present && area.height >= DISK_MIN_HEIGHT + BATTERY_PANEL_HEIGHT ==> area.y
            + area.height - BATTERY_PANEL_HEIGHT <= u16::MAX,
    ensures
        !battery_present || area.height < DISK_MIN_HEIGHT + BATTERY_PANEL_HEIGHT ==> r == (
        area, None::<Area>),
        battery_present && area.height >= DISK_MIN_HEIGHT + BATTERY_PANEL_HEIGHT ==> r == (
        Area { height: (area.height - BATTERY_PANEL_HEIGHT) as u16, ..area },
        Some(
            Area {
                y: (area.y + area.height - BATTERY_PANEL_HEIGHT) as u16,
                height: BATTERY_PANEL_HEIGHT,
                ..area
            },
        ),
    ),
{
    if !battery_present || area.height < DISK_MIN_HEIGHT + BATTERY_PANEL_HEIGHT {
        return (area, None);
    }
    let disk_h = area.height - BATTERY_PANEL_HEIGHT;
    let disk_area = Area { height: disk_h, ..area };
    let battery_area = Area { y: area.y + disk_h, height: BATTERY_PANEL_HEIGHT, ..area };
    (disk_area, Some(battery_area))
}

/// The disk and battery areas tile the cell: same columns, the disk on top,
/// the battery directly below it, together covering exactly the cell.
pub proof fn law_disk_battery_tile_the_cell(area: Area, disk: Area, battery: Area)
    requires
        area.height >= DISK_MIN_HEIGHT + BATTERY_PANEL_HEIGHT,
        area.y + area.height - BATTERY_PANEL_HEIGHT <= u16::MAX,
        disk == (Area { height: (area.height - BATTERY_PANEL_HEIGHT) as u16, ..area }),
        battery == (Area {
            y: (area.y + area.height - BATTERY_PANEL_HEIGHT) as u16,
            height: BATTERY_PANEL_HEIGHT,
            ..area
        }),
    ensures
        disk.x == area.x && battery.x == area.x,
        disk.width == area.width && battery.width == area.width,
        disk.y == area.y,
        battery.y == disk.y + disk.height,
        battery.y + battery.height == area.y + area.height,
        disk.height >= DISK_MIN_HEIGHT,
{
}

// ---------------------------------------------------------------------------
// CPU core grid.
// ---------------------------------------------------------------------------

/// Width of one per-core cell ("NN: [bar] NNN%").
pub const CORE_COL_WIDTH: u16 = 16;

/// Columns the width allows for the core grid: at least one, and never more
/// than there are cores.
pub open spec fn width_cols(num_cores: nat, max_cols_by_width: nat) -> nat {
    let by_width = if max_cols_by_width > 1 {
        max_cols_by_width
    } else {
        1
    };
    if by_width < num_cores {
        by_width
    } else {
        num_cores
    }
}

/// `n / d` rounded up.
pub open spec fn div_ceil(n: nat, d: nat) -> nat {
    n / d + if n % d == 0 {
        0nat
    } else {
        1nat
    }
}

/// Rows per column of the core grid: enough for all cores in the columns
/// the width allows, at least one, and no more than the available height
/// (at least one).
pub open spec fn grid_rows(num_cores: nat, max_cols_by_width: nat, available_height: nat) -> nat {
    let cols = width_cols(num_cores, max_cols_by_width);
    let needed = div_ceil(num_cores, cols);
    let needed1 = if needed > 1 {
        needed
    } else {
        1
    };
    let cap = if available_height > 1 {
        available_height
    } else {
        1
    };
    if needed1 < cap {
        needed1
    } else {
        cap
    }
}

/// Column count of the core grid: the columns the width allows, without
/// those that the rows would leave empty.
pub open spec fn grid_cols(num_cores: nat, max_cols_by_width: nat, available_height: nat) -> nat {
    let w = width_cols(num_cores, max_cols_by_width);
    let d = div_ceil(num_cores, grid_rows(num_cores, max_cols_by_width, available_height));
    if d < w {
        d
    } else {
        w
    }
}

/// Lays out `num_cores` per-core rows into a column grid that fills the
/// available width first. Returns `(num_cols, rows_per_col)`; cores are
/// placed column-major, every column gets at least one core, and cores
/// beyond `num_cols * rows_per_col` are not shown.
pub fn core_grid(num_cores: usize, max_cols_by_width: u16, available_height: usize) -> (r: (
    usize,
    usize,
))
    requires
        num_cores > 0,
    ensures
        r.0 == grid_cols(num_cores as nat, max_cols_by_width as nat, available_height as nat),
        r.1 == grid_rows(num_cores as nat, max_cols_by_width as nat, available_height as nat),
        r.0 >= 1 && (r.0 - 1) * r.1 < num_cores,
{
    let by_width: usize = if max_cols_by_width > 1 {
        max_cols_by_width as usize
    } else {
        1
    };
    let width_cols = if by_width < num_cores {
        by_width
    } else {
        num_cores
    };
    proof {
        if num_cores % width_cols != 0 {
            vstd::arithmetic::div_mod::lemma_fundamental_div_mod(num_cores as int, width_cols as int);
            assert(width_cols != 1);
            assert(num_cores / width_cols * 2 <= num_cores) by (nonlinear_arith)
                requires
                    width_cols >= 2,
                    num_cores == width_cols * (num_cores / width_cols) + num_cores % width_cols,
                    num_cores % width_cols >= 0,
                    num_cores / width_cols >= 0,
            ;
        }
    }
    let needed = num_cores / width_cols + if num_cores % width_cols == 0 {
        0
    } else {
        1
    };
    let needed1 = if needed > 1 {
        needed
    } else {
        1
    };
    let cap = if available_height > 1 {
        available_height
    } else {
        1
    };
    let rows = if needed1 < cap {
        needed1
    } else {
        cap
    };
    proof {
        lemma_no_empty_column(num_cores as nat, rows as nat);
    }
    let d = num_cores / rows + if num_cores % rows == 0 {
        0
    } else {
        1
    };
    let cols = if d < width_cols {
        d
    } else {
        width_cols
    };
    proof {
        assert((cols - 1) * rows <= (d - 1) * rows) by (nonlinear_arith)
            requires cols <= d, cols >= 1, rows >= 1;
    }
    (cols, rows)
}

/// With `rows` rows per column, `div_ceil(n, rows)` columns hold all `n`
/// cores and the last of them is not empty.
proof fn lemma_no_empty_column(n: nat, rows: nat)
    requires
        n > 0,
        rows > 0,
    ensures
        div_ceil(n, rows) >= 1,
        (div_ceil(n, rows) - 1) * rows < n,
        div_ceil(n, rows) * rows >= n,
        div_ceil(n, rows) <= n,
{
    let q = n / rows;
    let m = n % rows;
    vstd::arithmetic::div_mod::lemma_fundamental_div_mod(n as int, rows as int);
    if m == 0 {
        assert(q >= 1) by (nonlinear_arith)
            requires n == rows * q, n > 0, rows > 0, q >= 0;
        assert((q - 1) * rows < n) by (nonlinear_arith)
            requires n == rows * q, rows > 0;
        assert(q <= n) by (nonlinear_arith)
            requires n == rows * q, rows >= 1, q >= 0;
    } else {
        assert(q * rows < n) by (nonlinear_arith)
            requires n == rows * q + m, m > 0;
        assert((q + 1) * rows >= n) by (nonlinear_arith)
            requires n == rows * q + m, m < rows;
        assert(q + 1 <= n) by (nonlinear_arith)
            requires n == rows * q + m, m >= 1, rows >= 1, q >= 0;
    }
}

/// The grid has no more columns than cores or than the width allows, never
/// exceeds the available height (at least one row), opens no empty column,
/// and, when the height allows, has room for every core.
pub proof fn law_core_grid_fits(num_cores: nat, max_cols: nat, available_height: nat)
    requires
        num_cores > 0,
    ensures
        ({
            let cols = grid_cols(num_cores, max_cols, available_height);
            let rows = grid_rows(num_cores, max_cols, available_height);
            &&& 1 <= cols <= num_cores
            &&& max_cols >= 1 ==> cols <= max_cols
            &&& 1 <= rows
            &&& available_height >= 1 ==> rows <= available_height
            &&& (cols - 1) * rows < num_cores
            &&& rows < available_height ==> cols * rows >= num_cores
        }),
{
    let w = width_cols(num_cores, max_cols);
    let needed = div_ceil(num_cores, w);
    let rows = grid_rows(num_cores, max_cols, available_height);
    let cols = grid_cols(num_cores, max_cols, available_height);
    let d = div_ceil(num_cores, rows);
    lemma_no_empty_column(num_cores, w);
    lemma_no_empty_column(num_cores, rows);
    assert(w * needed >= num_cores) by (nonlinear_arith)
        requires needed * w >= num_cores;
    assert((cols - 1) * rows <= (d - 1) * rows) by (nonlinear_arith)
        requires cols <= d, cols >= 1, rows >= 1;
    assert(rows < available_height ==> cols * rows >= num_cores) by {
        if rows < available_height {
            assert(rows >= needed);
            assert(w * rows >= w * needed) by (nonlinear_arith)
                requires rows >= needed, w >= 0;
            if cols == d {
                assert(d * rows >= num_cores);
            } else {
                assert(cols == w);
            }
        }
    }
}

/// Where the cell of core `idx` starts in a grid of `num_cols` columns of
/// `rows_per_col` rows placed in `area`: cores go column-major, and a core
/// whose column is past the grid, or whose cell falls outside the area, is
/// not shown.
pub open spec fn core_cell_origin(area: Area, idx: nat, num_cols: nat, rows_per_col: nat) -> Option<(nat, nat)> {
    let col = idx / rows_per_col;
    let row = idx % rows_per_col;
    let x = area.x + col * CORE_COL_WIDTH;
    let y = area.y + row;
    if col < num_cols && y < area.y + area.height && x + CORE_COL_WIDTH <= area.x + area.width + 1 {
        Some((x as nat, y as nat))
    } else {
        None
    }
}

/// The screen position of core `idx`'s cell (see [`core_cell_origin`]).
pub fn core_cell(area: Area, idx: usize, num_cols: usize, rows_per_col: usize) -> (r: Option<(u16, u16)>)
    requires
        rows_per_col > 0,
        area.x + area.width <= u16::MAX,
        area.y + area.height <= u16::MAX,
    ensures
        match r {
            Some(p) => core_cell_origin(area, idx as nat, num_cols as nat, rows_per_col as nat)
                == Some((p.0 as nat, p.1 as nat)),
            None => core_cell_origin(area, idx as nat, num_cols as nat, rows_per_col as nat) is None,
        },
{
    let col = idx / rows_per_col;
    let row = idx % rows_per_col;
    if col >= num_cols || row >= area.height as usize || col >= 4096 {
        return None;
    }
    let x: u32 = area.x as u32 + col as u32 * 16;
    if x + 16 > area.x as u32 + area.width as u32 + 1 {
        return None;
    }
    Some((x as u16, (area.y as usize + row) as u16))
}

/// Two different cores shown in the grid never share a cell, and every
/// shown cell starts inside the area.
pub proof fn law_core_cells_disjoint(area: Area, i: nat, j: nat, num_cols: nat, rows_per_col: nat)
    requires
        rows_per_col > 0,
        i != j,
        core_cell_origin(area, i, num_cols, rows_per_col) is Some,
        core_cell_origin(area, j, num_cols, rows_per_col) is Some,
    ensures
        core_cell_origin(area, i, num_cols, rows_per_col) != core_cell_origin(area, j, num_cols, rows_per_col),
        ({
            let p = core_cell_origin(area, i, num_cols, rows_per_col)->0;
            &&& area.x <= p.0 < area.x + area.width
            &&& area.y <= p.1 < area.y + area.height
        }),
{
    let r = rows_per_col as int;
    vstd::arithmetic::div_mod::lemma_fundamental_div_mod(i as int, r);
    vstd::arithmetic::div_mod::lemma_fundamental_div_mod(j as int, r);
    if i / rows_per_col == j / rows_per_col && i % rows_per_col == j % rows_per_col {
        assert(false);
    }
    assert((i / rows_per_col) * CORE_COL_WIDTH != (j / rows_per_col) * CORE_COL_WIDTH || i / rows_per_col == j / rows_per_col) by (nonlinear_arith);
}

/// The stacked CPU layout's split of `height` rows into (summary, grid):
/// the grid gets the rows the core grid needs for `width`, capped at what is
/// left after one row for the "Total:" line.
pub open spec fn stacked_rows(num_cores: nat, width: nat, height: nat, col_width: nat) -> (nat, nat) {
    if height == 0 || num_cores == 0 {
        (height, 0)
    } else {
        let avail = (height - 1) as nat;
        let rows = grid_rows(num_cores, width / col_width, avail);
        let core = if rows < avail {
            rows
        } else {
            avail
        };
        ((height - core) as nat, core)
    }
}

/// Splits `height` between the total/chart summary (top) and the per-core
/// grid (bottom) of the stacked CPU layout (see [`stacked_rows`]).
pub fn stacked_split(num_cores: usize, width: u16, height: u16, col_width: u16) -> (r: (u16, u16))
    requires
        col_width > 0,
    ensures
        (r.0 as nat, r.1 as nat) == stacked_rows(num_cores as nat, width as nat, height as nat, col_width as nat),
{
    if height == 0 || num_cores == 0 {
        return (height, 0);
    }
    let available_for_grid = (height - 1) as usize;
    let (_, rows_per_col) = core_grid(num_cores, width / col_width, available_for_grid);
    let core_height = if rows_per_col < available_for_grid {
        rows_per_col
    } else {
        available_for_grid
    } as u16;
    (height - core_height, core_height)
}

/// The two parts of the stacked split always add up to the height, and with
/// cores to show the summary keeps at least the "Total:" row.
pub proof fn law_stacked_split_partitions(num_cores: nat, width: nat, height: nat, col_width: nat)
    requires
        col_width > 0,
    ensures
        stacked_rows(num_cores, width, height, col_width).0 + stacked_rows(
            num_cores,
            width,
            height,
            col_width,
        ).1 == height,
        height > 0 ==> stacked_rows(num_cores, width, height, col_width).0 >= 1,
{
}

/// In the stacked layout the grid never takes the "Total:" row; when the
/// height allows, it gets the fewest rows that hold every core in the
/// columns the width allows, and otherwise all rows but that one.
pub proof fn law_stacked_grid_rows(num_cores: nat, width: nat, height: nat, col_width: nat)
    requires
        col_width > 0,
        num_cores > 0,
        height > 0,
    ensures
        ({
            let g = stacked_rows(num_cores, width, height, col_width).1;
            let cols = width_cols(num_cores, width / col_width);
            &&& g <= height - 1
            &&& height >= 2 ==> g >= 1
            &&& g < height - 1 ==> g * cols >= num_cores && (g - 1) * cols < num_cores
            &&& (height >= 2 && g == height - 1 && g * cols < num_cores) ==> height - 1 < div_ceil(num_cores, cols)
        }),
{
    let cols = width_cols(num_cores, width / col_width);
    let avail = (height - 1) as nat;
    lemma_no_empty_column(num_cores, cols);
    let needed = div_ceil(num_cores, cols);
    assert(cols * needed >= num_cores) by (nonlinear_arith)
        requires needed * cols >= num_cores;
    assert((needed - 1) * cols < num_cores) by {
        vstd::arithmetic::div_mod::lemma_fundamental_div_mod(num_cores as int, cols as int);
        let q = num_cores / cols;
        let m = num_cores % cols;
        if m == 0 {
            assert((q - 1) * cols < num_cores) by (nonlinear_arith)
                requires num_cores == cols * q, cols > 0;
        } else {
            assert(q * cols < num_cores) by (nonlinear_arith)
                requires num_cores == cols * q + m, m > 0;
        }
    }
}

/// How the CPU panel shares its inner area between the summary (total and
/// chart) and the per-core grid.
#[derive(Debug, Clone, Copy, PartialEq, Eq, Structural)]
pub enum CpuLayout {
    /// Summary on the left, core grid in the right-hand part of the split.
    SideBySide,
    /// Summary above, core grid below, with these row counts.
    Stacked { summary_rows: u16, grid_rows: u16 },
    /// No room for one core column: the summary alone.
    SummaryOnly,
}

/// The CPU panel's layout for `num_cores` cores in an inner area of
/// `inner_width` by `inner_height`, whose side-by-side split leaves
/// `right_width` columns on the right: side by side once the right part
/// holds two core columns, stacked (the grid spreading over the full width)
/// while one core column fits, the summary alone otherwise.
pub open spec fn cpu_layout_of(num_cores: nat, inner_width: nat, inner_height: nat, right_width: nat) -> CpuLayout {
    if num_cores > 0 && right_width >= 2 * CORE_COL_WIDTH {
        CpuLayout::SideBySide
    } else if num_cores > 0 && inner_width >= CORE_COL_WIDTH {
        let rows = stacked_rows(num_cores, inner_width, inner_height, CORE_COL_WIDTH as nat);
        CpuLayout::Stacked { summary_rows: rows.0 as u16, grid_rows: rows.1 as u16 }
    } else {
        CpuLayout::SummaryOnly
    }
}

/// Chooses the CPU panel's layout (see [`cpu_layout_of`]).
pub fn cpu_layout(num_cores: usize, inner_width: u16, inner_height: u16, right_width: u16) -> (r: CpuLayout)
    ensures
        r == cpu_layout_of(num_cores as nat, inner_width as nat, inner_height as nat, right_width as nat),
{
    if num_cores > 0 && right_width >= 2 * CORE_COL_WIDTH {
        CpuLayout::SideBySide
    } else if num_cores > 0 && inner_width >= CORE_COL_WIDTH {
        let (summary_rows, grid_rows) = stacked_split(num_cores, inner_width, inner_height, CORE_COL_WIDTH);
        CpuLayout::Stacked { summary_rows, grid_rows }
    } else {
        CpuLayout::SummaryOnly
    }
}

/// Once the panel is wide enough for one core column, the cores stay on
/// screen: either beside the summary or, below it, in at least one row,
/// with the summary keeping its "Total:" row.
pub proof fn law_cpu_cores_stay_visible(num_cores: nat, inner_width: nat, inner_height: nat, right_width: nat)
    requires
        num_cores > 0,
        inner_width >= CORE_COL_WIDTH,
        2 <= inner_height <= u16::MAX,
    ensures
        match cpu_layout_of(num_cores, inner_width, inner_height, right_width) {
            CpuLayout::SideBySide => true,
            CpuLayout::Stacked { summary_rows, grid_rows } => grid_rows >= 1 && summary_rows >= 1
                && summary_rows + grid_rows == inner_height,
            CpuLayout::SummaryOnly => false,
        },
{
    law_core_grid_fits(num_cores, inner_width / (CORE_COL_WIDTH as nat), (inner_height - 1) as nat);
}

// ---------------------------------------------------------------------------
// Network readout.
// ---------------------------------------------------------------------------

/// Width of the network panel's download/upload readout column.
pub const NET_STATS_WIDTH: u16 = 20;

/// The width of the readout column in an inner area `inner_width` wide, and
/// whether the chart is drawn beside it: below a minimum width the chart is
/// dropped and the readout takes the whole width.
pub fn net_columns(inner_width: u16) -> (r: (u16, bool))
    ensures
        ({
            let stats_w = if inner_width < NET_STATS_WIDTH {
                inner_width
            } else {
                NET_STATS_WIDTH
            };
            &&& r.1 == (inner_width > stats_w + 8)
            &&& r.0 == if r.1 {
                stats_w
            } else {
                inner_width
            }
        }),
{
    let stats_w = if inner_width < NET_STATS_WIDTH {
        inner_width
    } else {
        NET_STATS_WIDTH
    };
    let show_chart = inner_width as u32 > stats_w as u32 + 8;
    (if show_chart {
        stats_w
    } else {
        inner_width
    }, show_chart)
}

/// How a readout line is coloured.
#[derive(Debug, Clone, Copy, PartialEq, Eq, Structural)]
pub enum StatRole {
    Download,
    Upload,
    Value,
    Dim,
}

/// The readout lines for a column `height` rows tall, given the formatted
/// speeds `down` and `up` and the session totals: a labelled block with the
/// totals from six rows, the two speeds on their own rows from two, both on
/// one row otherwise.
pub open spec fn speed_lines_text(height: nat, down: Seq<char>, up: Seq<char>, rx_total: nat, tx_total: nat) -> Seq<(Seq<char>, StatRole)> {
    if height >= 6 {
        seq![
            (seq!['▼', ' ', 'D', 'O', 'W', 'N', 'L', 'O', 'A', 'D'], StatRole::Download),
            (seq![' '] + down, StatRole::Value),
            (seq![' ', 'T', 'o', 't', ' '] + bytes_text(rx_total), StatRole::Dim),
            (seq!['▲', ' ', 'U', 'P', 'L', 'O', 'A', 'D'], StatRole::Upload),
            (seq![' '] + up, StatRole::Value),
            (seq![' ', 'T', 'o', 't', ' '] + bytes_text(tx_total), StatRole::Dim),
        ]
    } else if height >= 2 {
        seq![(seq!['▼', ' '] + down, StatRole::Download), (seq!['▲', ' '] + up, StatRole::Upload)]
    } else {
        seq![(seq!['▼'] + down + seq![' ', '▲'] + up, StatRole::Value)]
    }
}

/// The network readout lines (see [`speed_lines_text`]).
pub fn speed_stat_lines(height: u16, down: &str, up: &str, rx_total: u64, tx_total: u64) -> (r: Vec<(String, StatRole)>)
    ensures
        r@.len() == speed_lines_text(height as nat, down@, up@, rx_total as nat, tx_total as nat).len(),
        forall|i: int|
            0 <= i < r@.len() ==> (#[trigger] r@[i]).0@ == speed_lines_text(
                height as nat,
                down@,
                up@,
                rx_total as nat,
                tx_total as nat,
            )[i].0 && r@[i].1 == speed_lines_text(
                height as nat,
                down@,
                up@,
                rx_total as nat,
                tx_total as nat,
            )[i].1,
{
    let ghost want = speed_lines_text(height as nat, down@, up@, rx_total as nat, tx_total as nat);
    let mut lines: Vec<(String, StatRole)> = Vec::new();
    if height >= 6 {
        let mut l0 = String::new();
        push_all(&mut l0, &['▼', ' ', 'D', 'O', 'W', 'N', 'L', 'O', 'A', 'D']);
        let mut l1 = String::new();
        push_char(&mut l1, ' ');
        push_all(&mut l1, &chars_of(down));
        let mut l2 = String::new();
        push_all(&mut l2, &[' ', 'T', 'o', 't', ' ']);
        push_all(&mut l2, &chars_of(format_bytes(rx_total).as_str()));
        let mut l3 = String::new();
        push_all(&mut l3, &['▲', ' ', 'U', 'P', 'L', 'O', 'A', 'D']);
        let mut l4 = String::new();
        push_char(&mut l4, ' ');
        push_all(&mut l4, &chars_of(up));
        let mut l5 = String::new();
        push_all(&mut l5, &[' ', 'T', 'o', 't', ' ']);
        push_all(&mut l5, &chars_of(format_bytes(tx_total).as_str()));
        assert(l0@ =~= want[0].0);
        assert(l1@ =~= want[1].0);
        assert(l2@ =~= want[2].0);
        assert(l3@ =~= want[3].0);
        assert(l4@ =~= want[4].0);
        assert(l5@ =~= want[5].0);
        lines.push((l0, StatRole::Download));
        lines.push((l1, StatRole::Value));
        lines.push((l2, StatRole::Dim));
        lines.push((l3, StatRole::Upload));
        lines.push((l4, StatRole::Value));
        lines.push((l5, StatRole::Dim));
    } else if height >= 2 {
        let mut l0 = String::new();
        push_all(&mut l0, &['▼', ' ']);
        push_all(&mut l0, &chars_of(down));
        let mut l1 = String::new();
        push_all(&mut l1, &['▲', ' ']);
        push_all(&mut l1, &chars_of(up));
        assert(l0@ =~= want[0].0);
        assert(l1@ =~= want[1].0);
        lines.push((l0, StatRole::Download));
        lines.push((l1, StatRole::Upload));
    } else {
        let mut l0 = String::new();
        push_char(&mut l0, '▼');
        push_all(&mut l0, &chars_of(down));
        push_all(&mut l0, &[' ', '▲']);
        push_all(&mut l0, &chars_of(up));
        assert(l0@ =~= want[0].0);
        lines.push((l0, StatRole::Value));
    }
    lines
}

/// The download speed is shown under the download arrow and colour, the
/// upload speed under the upload ones: from six rows a "▼ DOWNLOAD" heading
/// over the download speed and its total, then an "▲ UPLOAD" heading over
/// the upload speed and its total; from two rows "▼ down" then "▲ up"; on a
/// single row "▼down ▲up".
pub proof fn law_speeds_under_their_arrows(height: nat, down: Seq<char>, up: Seq<char>, rx_total: nat, tx_total: nat)
    ensures
        ({
            let lines = speed_lines_text(height, down, up, rx_total, tx_total);
            &&& height >= 6 ==> {
                &&& lines.len() == 6
                &&& lines[0].1 == StatRole::Download && lines[0].0[0] == '▼'
                &&& lines[1].0 == seq![' '] + down
                &&& lines[2].0 == seq![' ', 'T', 'o', 't', ' '] + bytes_text(rx_total)
                &&& lines[3].1 == StatRole::Upload && lines[3].0[0] == '▲'
                &&& lines[4].0 == seq![' '] + up
                &&& lines[5].0 == seq![' ', 'T', 'o', 't', ' '] + bytes_text(tx_total)
            }
            &&& 2 <= height < 6 ==> lines == seq![
                (seq!['▼', ' '] + down, StatRole::Download),
                (seq!['▲', ' '] + up, StatRole::Upload),
            ]
            &&& height < 2 ==> lines == seq![
                (seq!['▼'] + down + seq![' ', '▲'] + up, StatRole::Value),
            ]
        }),
{
}

/// Whatever the height, the readout shows both speeds: one line holds the
/// download speed and one the upload speed.
pub proof fn law_speeds_always_listed(height: nat, down: Seq<char>, up: Seq<char>, rx_total: nat, tx_total: nat)
    ensures
        ({
            let lines = speed_lines_text(height, down, up, rx_total, tx_total);
            &&& exists|i: int| 0 <= i < lines.len() && contains_seq(#[trigger] lines[i].0, down)
            &&& exists|i: int| 0 <= i < lines.len() && contains_seq(#[trigger] lines[i].0, up)
        }),
{
    let lines = speed_lines_text(height, down, up, rx_total, tx_total);
    if height >= 6 {
        let a = seq![' '] + down;
        let b = seq![' '] + up;
        assert(a.subrange(1, down.len() + 1int) =~= down);
        assert(b.subrange(1, up.len() + 1int) =~= up);
        assert(contains_seq(lines[1].0, down));
        assert(contains_seq(lines[4].0, up));
    } else if height >= 2 {
        let a = seq!['▼', ' '] + down;
        let b = seq!['▲', ' '] + up;
        assert(a.subrange(2, down.len() + 2int) =~= down);
        assert(b.subrange(2, up.len() + 2int) =~= up);
        assert(contains_seq(lines[0].0, down));
        assert(contains_seq(lines[1].0, up));
    } else {
        let a = seq!['▼'] + down + seq![' ', '▲'] + up;
        assert(a.subrange(1, down.len() + 1int) =~= down);
        assert(a.subrange(down.len() + 3int, down.len() + up.len() + 3int) =~= up);
        assert(contains_seq(lines[0].0, down));
        assert(contains_seq(lines[0].0, up));
    }
}

// ---------------------------------------------------------------------------
// Device titles.
// ---------------------------------------------------------------------------

/// A device panel's title: `bare` when there is no name or no room for at
/// least four of its characters inside the border, otherwise `prefix`, the
/// name truncated to the room left by the `frame_len` characters of the
/// frame, and a closing space.
pub open spec fn device_title_text(
    bare: Seq<char>,
    prefix: Seq<char>,
    name: Seq<char>,
    area_width: nat,
    frame_len: nat,
) -> Seq<char> {
    let avail = if area_width >= 2 {
        (area_width - 2) as nat
    } else {
        0
    };
    let budget = if avail >= frame_len {
        (avail - frame_len) as nat
    } else {
        0
    };
    if name.len() == 0 || budget < 4 {
        bare
    } else {
        prefix + truncated(name, budget) + seq![' ']
    }
}

/// Builds a device panel title (see [`device_title_text`]).
fn device_title(bare: &[char], prefix: &[char], name: &str, area_width: u16, frame_len: usize) -> (r:
    String)
    ensures
        r@ == device_title_text(bare@, prefix@, name@, area_width as nat, frame_len as nat),
{
    let mut out = String::new();
    let avail: usize = if area_width >= 2 {
        (area_width - 2) as usize
    } else {
        0
    };
    let budget: usize = if avail >= frame_len {
        avail - frame_len
    } else {
        0
    };
    if name.unicode_len() == 0 || budget < 4 {
        push_all(&mut out, bare);
    } else {
        push_all(&mut out, prefix);
        let t = truncate(name, budget);
        out.append(cow_str(&t));
        push_char(&mut out, ' ');
    }
    assert(out@ =~= device_title_text(bare@, prefix@, name@, area_width as nat, frame_len as nat));
    out
}

pub open spec fn cpu_bare() -> Seq<char> {
    seq![' ', 'C', 'P', 'U', ' ']
}

pub open spec fn cpu_prefix() -> Seq<char> {
    seq![' ', 'C', 'P', 'U', ':', ' ']
}

pub open spec fn gpu_bare() -> Seq<char> {
    seq![' ', 'G', 'P', 'U', ' ']
}

pub open spec fn gpu_prefix() -> Seq<char> {
    seq![' ', 'G', 'P', 'U', ':', ' ']
}

pub open spec fn net_bare() -> Seq<char> {
    seq![' ', 'N', 'E', 'T', 'W', 'O', 'R', 'K', ' ']
}

pub open spec fn net_prefix() -> Seq<char> {
    seq![' ', 'N', 'E', 'T', 'W', 'O', 'R', 'K', ':', ' ']
}

/// The CPU panel's title: " CPU: <model> " with the model truncated to fit
/// inside the border, or " CPU " when there is no model or no room.
pub fn cpu_title(model_name: &str, area_width: u16) -> (r: String)
    ensures
        r@ == device_title_text(cpu_bare(), cpu_prefix(), model_name@, area_width as nat, 7),
{
    let bare = [' ', 'C', 'P', 'U', ' '];
    let prefix = [' ', 'C', 'P', 'U', ':', ' '];
    assert(bare@ =~= cpu_bare());
    assert(prefix@ =~= cpu_prefix());
    device_title(&bare, &prefix, model_name, area_width, 7)
}

/// The GPU panel's title: " GPU: <adapter> " truncated to fit, or " GPU ".
pub fn gpu_title(name: &str, area_width: u16) -> (r: String)
    ensures
        r@ == device_title_text(gpu_bare(), gpu_prefix(), name@, area_width as nat, 7),
{
    let bare = [' ', 'G', 'P', 'U', ' '];
    let prefix = [' ', 'G', 'P', 'U', ':', ' '];
    assert(bare@ =~= gpu_bare());
    assert(prefix@ =~= gpu_prefix());
    device_title(&bare, &prefix, name, area_width, 7)
}

/// The network panel's title: " NETWORK: <adapter> " truncated to fit, or
/// " NETWORK ".
pub fn net_title(iface: &str, area_width: u16) -> (r: String)
    ensures
        r@ == device_title_text(net_bare(), net_prefix(), iface@, area_width as nat, 11),
{
    let bare = [' ', 'N', 'E', 'T', 'W', 'O', 'R', 'K', ' '];
    let prefix = [' ', 'N', 'E', 'T', 'W', 'O', 'R', 'K', ':', ' '];
    assert(bare@ =~= net_bare());
    assert(prefix@ =~= net_prefix());
    device_title(&bare, &prefix, iface, area_width, 11)
}

/// A title that shows the name never runs into the border: it is at most
/// two characters shorter than the panel. The bare title is used when the
/// name is empty or would keep fewer than four of its characters.
pub proof fn law_device_title_fits(
    bare: Seq<char>,
    prefix: Seq<char>,
    name: Seq<char>,
    area_width: nat,
    frame_len: nat,
)
    requires
        frame_len == prefix.len() + 1,
    ensures
        device_title_text(bare, prefix, name, area_width, frame_len) != bare ==> device_title_text(
            bare,
            prefix,
            name,
            area_width,
            frame_len,
        ).len() + 2 <= area_width,
{
    let avail = if area_width >= 2 {
        (area_width - 2) as nat
    } else {
        0
    };
    let budget = if avail >= frame_len {
        (avail - frame_len) as nat
    } else {
        0
    };
    crate::text::lemma_truncated_fits(name, budget);
}

/// A device title shows the whole name between the prefix and a closing
/// space when it fits inside the border; a name that does not fit is cut to
/// fill the room exactly, ending in an ellipsis; with no name, or room for
/// fewer than four of its characters, the bare title is shown.
pub proof fn law_device_title_shows_name(
    bare: Seq<char>,
    prefix: Seq<char>,
    name: Seq<char>,
    area_width: nat,
    frame_len: nat,
)
    requires
        frame_len == prefix.len() + 1,
    ensures
        ({
            let t = device_title_text(bare, prefix, name, area_width, frame_len);
            &&& name.len() == 0 ==> t == bare
            &&& area_width < frame_len + 6 ==> t == bare
            &&& (name.len() > 0 && name.len() + frame_len + 2 <= area_width && area_width
                >= frame_len + 6) ==> t == prefix + name + seq![' ']
            &&& (name.len() > 0 && name.len() + frame_len + 2 > area_width && area_width
                >= frame_len + 6) ==> {
                &&& t.len() == area_width - 2
                &&& t == prefix + name.take(area_width - 3 - frame_len) + seq!['…', ' ']
            }
        }),
{
}

// ---------------------------------------------------------------------------
// Whole-screen layout.
// ---------------------------------------------------------------------------

/// The arrangement of the panels for a terminal width.
#[derive(Debug, Clone, Copy, PartialEq, Eq, Structural)]
pub enum LayoutTier {
    /// Three columns by two rows.
    Wide,
    /// CPU on top, then two rows of two panels, then the process list.
    Medium,
    /// A single column without GPU and network.
    Narrow,
}

/// The layout for a terminal of `width` x `height` cells: nothing below
/// 30 x 10, otherwise chosen by width (100 and 64 columns).
pub fn layout_tier(width: u16, height: u16) -> (r: Option<LayoutTier>)
    ensures
        width < 30 || height < 10 ==> r is None,
        width >= 30 && height >= 10 ==> r == Some(
            if width >= 100 {
                LayoutTier::Wide
            } else if width >= 64 {
                LayoutTier::Medium
            } else {
                LayoutTier::Narrow
            },
        ),
{
    if width < 30 || height < 10 {
        None
    } else if width >= 100 {
        Some(LayoutTier::Wide)
    } else if width >= 64 {
        Some(LayoutTier::Medium)
    } else {
        Some(LayoutTier::Narrow)
    }
}

/// One side of a modal box: `max` cells, shrunk to leave `margin` cells of
/// the `avail` ones (none when there are fewer than `margin`).
pub open spec fn modal_side(avail: nat, max: nat, margin: nat) -> nat {
    if avail >= margin {
        if max < avail - margin {
            max
        } else {
            (avail - margin) as nat
        }
    } else {
        0
    }
}

/// A `max_width` x `max_height` box centred in `area`, shrunk to leave a
/// margin of two columns on each side and one row above and below.
pub fn centered_modal(area: Area, max_width: u16, max_height: u16) -> (r: Area)
    requires
        area.x + (area.width - modal_side(area.width as nat, max_width as nat, 4)) / 2 <= u16::MAX,
        area.y + (area.height - modal_side(area.height as nat, max_height as nat, 2)) / 2
            <= u16::MAX,
    ensures
        r.width == modal_side(area.width as nat, max_width as nat, 4),
        r.height == modal_side(area.height as nat, max_height as nat, 2),
        r.x == area.x + (area.width - r.width) / 2,
        r.y == area.y + (area.height - r.height) / 2,
{
    let w_room: u16 = if area.width >= 4 {
        area.width - 4
    } else {
        0
    };
    let h_room: u16 = if area.height >= 2 {
        area.height - 2
    } else {
        0
    };
    let width = if max_width < w_room {
        max_width
    } else {
        w_room
    };
    let height = if max_height < h_room {
        max_height
    } else {
        h_room
    };
    let x = (area.x as u32 + ((area.width - width) / 2) as u32);
    let y = (area.y as u32 + ((area.height - height) / 2) as u32);
    Area { x: x as u16, y: y as u16, width, height }
}

// ---------------------------------------------------------------------------
// Disk panel rows.
// ---------------------------------------------------------------------------

/// Rows given to the disk history chart inside a panel of `inner_height`
/// rows listing `partitions` drives: what is left after the I/O line and one
/// row per drive, at most three (the chart is drawn from two rows on).
pub fn disk_chart_rows(inner_height: u16, partitions: usize) -> (r: u16)
    ensures
        r as int == {
            let body = if inner_height >= 1 {
                inner_height - 1
            } else {
                0
            };
            let left = if body >= partitions {
                body - partitions
            } else {
                0
            };
            if left < 3 {
                left
            } else {
                3
            }
        },
{
    let body: u16 = if inner_height >= 1 {
        inner_height - 1
    } else {
        0
    };
    let left: u16 = if body as usize >= partitions {
        (body as usize - partitions) as u16
    } else {
        0
    };
    if left < 3 {
        left
    } else {
        3
    }
}

/// Width of a drive's usage bar: a quarter of the panel, between 6 and 14.
pub fn partition_bar_width(inner_width: u16) -> (r: u16)
    ensures
        r == if inner_width / 4 < 6 {
            6
        } else if inner_width / 4 > 14 {
            14
        } else {
            inner_width / 4
        },
{
    let q = inner_width / 4;
    if q < 6 {
        6
    } else if q > 14 {
        14
    } else {
        q
    }
}

// ---------------------------------------------------------------------------
// Process panel.
// ---------------------------------------------------------------------------

/// The sort column and direction shown in the process panel's title.
pub open spec fn sort_label_text(by: ProcessSortBy, desc: bool) -> Seq<char> {
    let arrow = if desc {
        '▼'
    } else {
        '▲'
    };
    match by {
        ProcessSortBy::Cpu => seq!['C', 'P', 'U', ' ', arrow],
        ProcessSortBy::Memory => seq!['M', 'E', 'M', ' ', arrow],
        ProcessSortBy::Pid => seq!['P', 'I', 'D', ' ', arrow],
        ProcessSortBy::Name => seq!['N', 'A', 'M', 'E', ' ', arrow],
    }
}

/// Appends the sort label, e.g. "CPU ▼".
fn push_sort_label(out: &mut String, by: ProcessSortBy, desc: bool)
    ensures
        final(out)@ == old(out)@ + sort_label_text(by, desc),
{
    match by {
        ProcessSortBy::Cpu => push_all(out, &['C', 'P', 'U', ' ']),
        ProcessSortBy::Memory => push_all(out, &['M', 'E', 'M', ' ']),
        ProcessSortBy::Pid => push_all(out, &['P', 'I', 'D', ' ']),
        ProcessSortBy::Name => push_all(out, &['N', 'A', 'M', 'E', ' ']),
    }
    push_char(
        out,
        if desc {
            '▼'
        } else {
            '▲'
        },
    );
    assert(out@ =~= old(out)@ + sort_label_text(by, desc));
}

/// The sort column and direction shown in the process panel's title, e.g.
/// "CPU ▼" or "NAME ▲".
pub fn sort_label(by: ProcessSortBy, desc: bool) -> (r: String)
    ensures
        r@ == sort_label_text(by, desc),
{
    let mut out = String::new();
    push_sort_label(&mut out, by, desc);
    out
}

pub open spec fn procs_word() -> Seq<char> {
    seq![' ', 'P', 'R', 'O', 'C', 'E', 'S', 'S', 'E', 'S', ' ']
}

pub open spec fn sort_tag() -> Seq<char> {
    seq![' ', '[', 'S', 'o', 'r', 't', ':', ' ']
}

/// The process panel's title: the filter being typed, or the active filter
/// with the match count and ordering, or the count and ordering.
pub open spec fn proc_title_text(
    is_filtering: bool,
    filter: Seq<char>,
    count: nat,
    by: ProcessSortBy,
    desc: bool,
) -> Seq<char> {
    if is_filtering {
        procs_word() + seq!['[', 'F', 'i', 'n', 'd', ':', ' '] + filter + seq!['_', ']', ' ', '(']
            + decimal(count) + seq![')', ' ']
    } else if filter.len() > 0 {
        procs_word() + seq!['[', 'F', 'i', 'l', 't', 'e', 'r', ':', ' ', '\''] + filter + seq![
            '\'',
            ']',
            ' ',
            '(',
        ] + decimal(count) + seq![' ', 'm', 'a', 't', 'c', 'h', 'e', 's', ')'] + sort_tag()
            + sort_label_text(by, desc) + seq![']', ' ']
    } else {
        procs_word() + seq!['('] + decimal(count) + seq![')'] + sort_tag() + sort_label_text(by, desc)
            + seq![']', ' ']
    }
}

/// Builds the process panel's title, e.g.
/// " PROCESSES (42) [Sort: CPU ▼] ".
pub fn proc_panel_title(
    is_filtering: bool,
    filter: &str,
    count: usize,
    by: ProcessSortBy,
    desc: bool,
) -> (r: String)
    ensures
        r@ == proc_title_text(is_filtering, filter@, count as nat, by, desc),
{
    let mut out = String::new();
    push_all(&mut out, &[' ', 'P', 'R', 'O', 'C', 'E', 'S', 'S', 'E', 'S', ' ']);
    if is_filtering {
        push_all(&mut out, &['[', 'F', 'i', 'n', 'd', ':', ' ']);
        out.append(filter);
        push_all(&mut out, &['_', ']', ' ', '(']);
        push_decimal(&mut out, count as u64);
        push_all(&mut out, &[')', ' ']);
    } else if filter.unicode_len() > 0 {
        push_all(&mut out, &['[', 'F', 'i', 'l', 't', 'e', 'r', ':', ' ', '\'']);
        out.append(filter);
        push_all(&mut out, &['\'', ']', ' ', '(']);
        push_decimal(&mut out, count as u64);
        push_all(&mut out, &[' ', 'm', 'a', 't', 'c', 'h', 'e', 's', ')']);
        push_all(&mut out, &[' ', '[', 'S', 'o', 'r', 't', ':', ' ']);
        push_sort_label(&mut out, by, desc);
        push_all(&mut out, &[']', ' ']);
    } else {
        push_all(&mut out, &['(']);
        push_decimal(&mut out, count as u64);
        push_all(&mut out, &[')']);
        push_all(&mut out, &[' ', '[', 'S', 'o', 'r', 't', ':', ' ']);
        push_sort_label(&mut out, by, desc);
        push_all(&mut out, &[']', ' ']);
    }
    assert(out@ =~= proc_title_text(is_filtering, filter@, count as nat, by, desc));
    out
}

/// Characters taken by the fixed columns of a process row (PID, CPU%, MEM,
/// THR and the gaps between them).
pub const PROC_FIXED_COLS: u16 = 33;

/// Width of the process name column for a panel `inner_width` cells wide.
pub fn proc_name_width(inner_width: u16) -> (r: usize)
    ensures
        r == if inner_width >= PROC_FIXED_COLS {
            inner_width - PROC_FIXED_COLS
        } else {
            0
        },
{
    if inner_width >= PROC_FIXED_COLS {
        (inner_width - PROC_FIXED_COLS) as usize
    } else {
        0
    }
}

/// The column headings of the process list: PID, NAME padded to `name_w`,
/// CPU% and MEM (marked with '*' when they are the sort column), THR.
pub fn proc_header_texts(by: ProcessSortBy, name_w: usize) -> (r: (String, String, String, String, String))
    ensures
        r.0@ == pad_right(seq!['P', 'I', 'D'], 7),
        r.1@ == pad_right(seq!['N', 'A', 'M', 'E'], name_w as nat),
        r.2@ == pad_left(
            if by == ProcessSortBy::Cpu {
                seq!['C', 'P', 'U', '%', ' ', '*']
            } else {
                seq!['C', 'P', 'U', '%']
            },
            7,
        ),
        r.3@ == pad_left(
            if by == ProcessSortBy::Memory {
                seq!['M', 'E', 'M', ' ', '*']
            } else {
                seq!['M', 'E', 'M']
            },
            10,
        ),
        r.4@ == pad_left(seq!['T', 'H', 'R'], 5),
{
    let mut t = String::new();
    push_all(&mut t, &['P', 'I', 'D']);
    let mut pid = String::new();
    push_pad_right(&mut pid, t.as_str(), 7);
    let mut t = String::new();
    push_all(&mut t, &['N', 'A', 'M', 'E']);
    let mut name = String::new();
    push_pad_right(&mut name, t.as_str(), name_w);
    let mut t = String::new();
    if by == ProcessSortBy::Cpu {
        push_all(&mut t, &['C', 'P', 'U', '%', ' ', '*']);
    } else {
        push_all(&mut t, &['C', 'P', 'U', '%']);
    }
    let mut cpu = String::new();
    push_pad_left(&mut cpu, t.as_str(), 7);
    let mut t = String::new();
    if by == ProcessSortBy::Memory {
        push_all(&mut t, &['M', 'E', 'M', ' ', '*']);
    } else {
        push_all(&mut t, &['M', 'E', 'M']);
    }
    let mut mem = String::new();
    push_pad_left(&mut mem, t.as_str(), 10);
    let mut t = String::new();
    push_all(&mut t, &['T', 'H', 'R']);
    let mut thr = String::new();
    push_pad_left(&mut thr, t.as_str(), 5);
    proof {
        assert(pid@ =~= pad_right(seq!['P', 'I', 'D'], 7));
        assert(name@ =~= pad_right(seq!['N', 'A', 'M', 'E'], name_w as nat));
        assert(thr@ =~= pad_left(seq!['T', 'H', 'R'], 5));
    }
    (pid, name, cpu, mem, thr)
}

/// Process rows that fit under the header row in a list `inner_height`
/// rows tall.
pub fn proc_rows_visible(inner_height: u16) -> (r: u16)
    ensures
        r == if inner_height >= 1 {
            inner_height - 1
        } else {
            0
        },
{
    if inner_height >= 1 {
        inner_height - 1
    } else {
        0
    }
}

/// The rows of the process list shown from `scroll_offset` in a window of
/// `rows_visible` rows: `[start, end)`.
pub fn visible_range(scroll_offset: usize, rows_visible: usize, len: usize) -> (r: (usize, usize))
    ensures
        r.0 == scroll_offset,
        r.1 == if scroll_offset + rows_visible < len {
            scroll_offset + rows_visible
        } else {
            len as int
        },
{
    let end = if scroll_offset < len && len - scroll_offset > rows_visible {
        scroll_offset + rows_visible
    } else {
        len
    };
    (scroll_offset, end)
}

/// The texts of one process row but its CPU percentage: the pid
/// left-aligned in 7 columns, the name truncated and padded to `name_w`,
/// the memory right-aligned in 10 columns, the threads in 5.
pub fn proc_row_texts(p: &ProcessItem, name_w: usize) -> (r: (String, String, String, String))
    ensures
        r.0@ == pad_right(decimal(p.pid as nat), 7),
        r.1@ == pad_right(truncated(p.name@, name_w as nat), name_w as nat),
        r.2@ == pad_left(bytes_text(p.mem_bytes as nat), 10),
        r.3@ == pad_left(decimal(p.threads as nat), 5),
{
    let mut pid = String::new();
    let d = crate::text::decimal_string(p.pid as u64);
    push_pad_right(&mut pid, d.as_str(), 7);
    let mut name = String::new();
    let t = truncate(p.name.as_str(), name_w);
    push_pad_right(&mut name, cow_str(&t), name_w);
    let mut mem = String::new();
    let b = format_bytes(p.mem_bytes);
    push_pad_left(&mut mem, b.as_str(), 10);
    let mut thr = String::new();
    let n = crate::text::decimal_string(p.threads as u64);
    push_pad_left(&mut thr, n.as_str(), 5);
    assert(pid@ =~= pad_right(decimal(p.pid as nat), 7));
    assert(name@ =~= pad_right(truncated(p.name@, name_w as nat), name_w as nat));
    assert(mem@ =~= pad_left(bytes_text(p.mem_bytes as nat), 10));
    assert(thr@ =~= pad_left(decimal(p.threads as nat), 5));
    (pid, name, mem, thr)
}

/// The kill confirmation prompt for `pid`.
pub open spec fn kill_prompt_text(pid: u32) -> Seq<char> {
    seq![' ', 'T', 'e', 'r', 'm', 'i', 'n', 'a', 't', 'e', ' ', 'P', 'I', 'D', ' '] + decimal(
        pid as nat,
    ) + seq![
        '?', ' ', 'P', 'r', 'e', 's', 's', ' ', '\'', 'y', '\'', ' ', 't', 'o', ' ', 'K', 'i', 'l', 'l',
        ',', ' ', '\'', 'n', '\'', '/', '\'', 'E', 's', 'c', '\'', ' ', 't', 'o', ' ', 'C', 'a', 'n',
        'c', 'e', 'l', ' '
    ]
}

/// The kill confirmation prompt, e.g.
/// " Terminate PID 42? Press 'y' to Kill, 'n'/'Esc' to Cancel ".
pub fn kill_prompt(pid: u32) -> (r: String)
    ensures
        r@ == kill_prompt_text(pid),
{
    let mut out = String::new();
    push_all(&mut out, &[' ', 'T', 'e', 'r', 'm', 'i', 'n', 'a', 't', 'e', ' ', 'P', 'I', 'D', ' ']);
    push_decimal(&mut out, pid as u64);
    push_all(
        &mut out,
        &[
            '?', ' ', 'P', 'r', 'e', 's', 's', ' ', '\'', 'y', '\'', ' ', 't', 'o', ' ', 'K', 'i', 'l', 'l',
            ',', ' ', '\'', 'n', '\'', '/', '\'', 'E', 's', 'c', '\'', ' ', 't', 'o', ' ', 'C', 'a', 'n',
            'c', 'e', 'l', ' ',
        ],
    );
    assert(out@ =~= kill_prompt_text(pid));
    out
}

// ---------------------------------------------------------------------------
// Network header of the combined GPU/network panel.
// ---------------------------------------------------------------------------

/// The adapter label in front of the throughput numbers: dropped when there
/// is no adapter name or fewer than four cells are left after the
/// `reserved` cells of the numbers, otherwise "(name) " with the name
/// truncated to the room left.
pub open spec fn iface_label_text(iface: Seq<char>, panel_width: nat, reserved: nat) -> Seq<char> {
    let budget = if panel_width >= reserved {
        (panel_width - reserved) as nat
    } else {
        0
    };
    if iface.len() == 0 || budget < 4 {
        Seq::empty()
    } else {
        seq!['('] + truncated(iface, (budget - 3) as nat) + seq![')', ' ']
    }
}

/// Builds the adapter label (see [`iface_label_text`]).
pub fn iface_label(iface: &str, panel_width: usize, reserved: usize) -> (r: String)
    ensures
        r@ == iface_label_text(iface@, panel_width as nat, reserved as nat),
{
    let budget = if panel_width >= reserved {
        panel_width - reserved
    } else {
        0
    };
    let mut out = String::new();
    if iface.unicode_len() == 0 || budget < 4 {
        return out;
    }
    push_char(&mut out, '(');
    let t = truncate(iface, budget - 3);
    out.append(cow_str(&t));
    push_all(&mut out, &[')', ' ']);
    assert(out@ =~= iface_label_text(iface@, panel_width as nat, reserved as nat));
    out
}

/// The adapter label never takes the room reserved for the numbers.
pub proof fn law_iface_label_leaves_numbers_room(iface: Seq<char>, panel_width: nat, reserved: nat)
    ensures
        iface_label_text(iface, panel_width, reserved).len() == 0 || iface_label_text(
            iface,
            panel_width,
            reserved,
        ).len() + reserved <= panel_width,
{
    let budget = if panel_width >= reserved {
        (panel_width - reserved) as nat
    } else {
        0
    };
    if budget >= 4 {
        crate::text::lemma_truncated_fits(iface, (budget - 3) as nat);
    }
}

// ---------------------------------------------------------------------------
// Header badges.
// ---------------------------------------------------------------------------

/// The badge of the update status, if it shows one (idle and failed checks
/// show nothing).
pub open spec fn update_badge_text(status: UpdateStatus) -> Option<Seq<char>> {
    match status {
        UpdateStatus::Available(info) => Some(
            seq!['[', 'u', ':', ' ', 'U', 'p', 'd', 'a', 't', 'e', ' ', 'v'] + info.version@ + seq![
                ' ',
                'a',
                'v',
                'a',
                'i',
                'l',
                'a',
                'b',
                'l',
                'e',
                ']',
            ],
        ),
        UpdateStatus::Downloading => Some(
            seq![
                '[', 'u', ':', ' ', 'D', 'o', 'w', 'n', 'l', 'o', 'a', 'd', 'i', 'n', 'g', ' ', 'u', 'p', 'd',
                'a', 't', 'e', '.', '.', '.', ']'
            ],
        ),
        UpdateStatus::Ready => Some(
            seq!['[', 'u', ':', ' ', 'R', 'e', 'l', 'a', 'u', 'n', 'c', 'h', 'i', 'n', 'g', '.', '.', '.', ']'],
        ),
        UpdateStatus::Idle => None,
        UpdateStatus::Error(_) => None,
    }
}

/// The right-aligned badges of the header: theme, sampling rate, update
/// status when there is one, GitHub, help and quit.
pub open spec fn badges_text(theme: ThemeMode, rate_ms: u64, status: UpdateStatus) -> Seq<char> {
    let theme_badge = match theme {
        ThemeMode::Dark => seq!['[', 't', ':', ' ', 'D', 'A', 'R', 'K', ']'],
        ThemeMode::Light => seq!['[', 't', ':', ' ', 'L', 'I', 'G', 'H', 'T', ']'],
    };
    let rate_badge = seq!['[', '+', '/', '-', ':', ' '] + decimal(rate_ms as nat) + seq!['m', 's', ']'];
    let update = match update_badge_text(status) {
        Some(b) => b + seq![' ', ' '],
        None => Seq::empty(),
    };
    theme_badge + seq![' ', ' '] + rate_badge + seq![' ', ' '] + update + seq![
        '[', 'g', ':', ' ', 'G', 'i', 't', 'H', 'u', 'b', ']', ' ', ' ', '[', '?', ':', ' ', 'H', 'e', 'l',
        'p', ']', ' ', ' ', '[', 'q', ':', ' ', 'Q', 'u', 'i', 't', ']', ' '
    ]
}

/// Builds the header badges, e.g.
/// "[t: DARK]  [+/-: 1000ms]  [g: GitHub]  [?: Help]  [q: Quit] ".
#[verifier::spinoff_prover]
#[verifier::rlimit(30)]
pub fn header_badges(theme: ThemeMode, rate_ms: u64, status: &UpdateStatus) -> (r: String)
    ensures
        r@ == badges_text(theme, rate_ms, *status),
{
    let mut out = String::new();
    match theme {
        ThemeMode::Dark => push_all(&mut out, &['[', 't', ':', ' ', 'D', 'A', 'R', 'K', ']']),
        ThemeMode::Light => push_all(&mut out, &['[', 't', ':', ' ', 'L', 'I', 'G', 'H', 'T', ']']),
    }
    push_all(&mut out, &[' ', ' ', '[', '+', '/', '-', ':', ' ']);
    push_decimal(&mut out, rate_ms);
    push_all(&mut out, &['m', 's', ']', ' ', ' ']);
    match status {
        UpdateStatus::Available(info) => {
            push_all(&mut out, &['[', 'u', ':', ' ', 'U', 'p', 'd', 'a', 't', 'e', ' ', 'v']);
            out.append(info.version.as_str());
            push_all(&mut out, &[' ', 'a', 'v', 'a', 'i', 'l', 'a', 'b', 'l', 'e', ']', ' ', ' ']);
        },
        UpdateStatus::Downloading => {
            push_all(
                &mut out,
                &[
                    '[', 'u', ':', ' ', 'D', 'o', 'w', 'n', 'l', 'o', 'a', 'd', 'i', 'n', 'g', ' ', 'u', 'p',
                    'd', 'a', 't', 'e', '.', '.', '.', ']', ' ', ' ',
                ],
            );
        },
        UpdateStatus::Ready => {
            push_all(
                &mut out,
                &['[', 'u', ':', ' ', 'R', 'e', 'l', 'a', 'u', 'n', 'c', 'h', 'i', 'n', 'g', '.', '.', '.', ']', ' ', ' '],
            );
        },
        UpdateStatus::Idle => {},
        UpdateStatus::Error(_) => {},
    }
    push_all(
        &mut out,
        &[
            '[', 'g', ':', ' ', 'G', 'i', 't', 'H', 'u', 'b', ']', ' ', ' ', '[', '?', ':', ' ', 'H', 'e',
            'l', 'p', ']', ' ', ' ', '[', 'q', ':', ' ', 'Q', 'u', 'i', 't', ']', ' ',
        ],
    );
    assert(out@ =~= badges_text(theme, rate_ms, *status));
    out
}

/// How a character of the badge line is coloured.
#[derive(Debug, Clone, Copy, PartialEq, Eq, Structural)]
pub enum BadgeRole {
    /// '[' and ']'.
    Bracket,
    /// The shortcut keys ?, q, t, u, g, + and -.
    Key,
    /// Everything else.
    Text,
}

/// The colouring role of a character of the badge line.
pub fn badge_role(ch: char) -> (r: BadgeRole)
    ensures
        r == if ch == '[' || ch == ']' {
            BadgeRole::Bracket
        } else if ch == '?' || ch == 'q' || ch == 't' || ch == 'u' || ch == 'g' || ch == '+' || ch
            == '-' {
            BadgeRole::Key
        } else {
            BadgeRole::Text
        },
{
    if ch == '[' || ch == ']' {
        BadgeRole::Bracket
    } else if ch == '?' || ch == 'q' || ch == 't' || ch == 'u' || ch == 'g' || ch == '+' || ch
        == '-' {
        BadgeRole::Key
    } else {
        BadgeRole::Text
    }
}


/// The sort label names the column (CPU, MEM, PID, NAME) followed by a
/// space and the direction: ▼ for highest first, ▲ for lowest first.
pub proof fn law_sort_label(by: ProcessSortBy, desc: bool)
    ensures
        ({
            let t = sort_label_text(by, desc);
            let name = match by {
                ProcessSortBy::Cpu => seq!['C', 'P', 'U'],
                ProcessSortBy::Memory => seq!['M', 'E', 'M'],
                ProcessSortBy::Pid => seq!['P', 'I', 'D'],
                ProcessSortBy::Name => seq!['N', 'A', 'M', 'E'],
            };
            &&& t == name + seq![' ', if desc { '▼' } else { '▲' }]
        }),
{
    let t = sort_label_text(by, desc);
    match by {
        ProcessSortBy::Cpu => assert(t =~= seq!['C', 'P', 'U'] + seq![' ', if desc { '▼' } else { '▲' }]),
        ProcessSortBy::Memory => assert(t =~= seq!['M', 'E', 'M'] + seq![' ', if desc { '▼' } else { '▲' }]),
        ProcessSortBy::Pid => assert(t =~= seq!['P', 'I', 'D'] + seq![' ', if desc { '▼' } else { '▲' }]),
        ProcessSortBy::Name => assert(t =~= seq!['N', 'A', 'M', 'E'] + seq![' ', if desc { '▼' } else { '▲' }]),
    }
}

/// The kill prompt names the process by its decimal pid, right after
/// " Terminate PID ", and ends with the keys that answer it.
pub proof fn law_kill_prompt_names_pid(pid: u32)
    ensures
        ({
            let t = kill_prompt_text(pid);
            let d = decimal(pid as nat);
            &&& t.subrange(0, 15) == seq![' ', 'T', 'e', 'r', 'm', 'i', 'n', 'a', 't', 'e', ' ', 'P', 'I', 'D', ' ']
            &&& t.subrange(15, d.len() + 15int) == d
            &&& t[d.len() + 15int] == '?'
        }),
{
    let t = kill_prompt_text(pid);
    let d = decimal(pid as nat);
    assert(t.subrange(0, 15) =~= seq![' ', 'T', 'e', 'r', 'm', 'i', 'n', 'a', 't', 'e', ' ', 'P', 'I', 'D', ' ']);
    assert(t.subrange(15, d.len() + 15int) =~= d);
}


/// The header badges start with the theme ("[t: DARK]" or "[t: LIGHT]")
/// and the sampling interval in milliseconds, then show the update badge
/// only while an update is available, downloading or ready.
pub proof fn law_header_badges(theme: ThemeMode, rate_ms: u64, status: UpdateStatus)
    ensures
        ({
            let t = badges_text(theme, rate_ms, status);
            let theme_badge = match theme {
                ThemeMode::Dark => seq!['[', 't', ':', ' ', 'D', 'A', 'R', 'K', ']'],
                ThemeMode::Light => seq!['[', 't', ':', ' ', 'L', 'I', 'G', 'H', 'T', ']'],
            };
            let head = theme_badge + seq![' ', ' ', '[', '+', '/', '-', ':', ' '] + decimal(rate_ms as nat)
                + seq!['m', 's', ']', ' ', ' '];
            &&& t.subrange(0, head.len() as int) == head
            &&& (status is Idle || status is Error) ==> t == head + seq![
                '[', 'g', ':', ' ', 'G', 'i', 't', 'H', 'u', 'b', ']', ' ', ' ', '[', '?', ':', ' ', 'H', 'e',
                'l', 'p', ']', ' ', ' ', '[', 'q', ':', ' ', 'Q', 'u', 'i', 't', ']', ' '
            ]
            &&& status matches UpdateStatus::Available(info) ==> t.subrange(head.len() as int, head.len() + info.version@.len() + 12int) == seq!['[', 'u', ':', ' ', 'U', 'p', 'd', 'a', 't', 'e', ' ', 'v'] + info.version@
        }),
{
    let t = badges_text(theme, rate_ms, status);
    let theme_badge = match theme {
        ThemeMode::Dark => seq!['[', 't', ':', ' ', 'D', 'A', 'R', 'K', ']'],
        ThemeMode::Light => seq!['[', 't', ':', ' ', 'L', 'I', 'G', 'H', 'T', ']'],
    };
    let head = theme_badge + seq![' ', ' ', '[', '+', '/', '-', ':', ' '] + decimal(rate_ms as nat)
        + seq!['m', 's', ']', ' ', ' '];
    assert(t.subrange(0, head.len() as int) =~= head);
    if status is Idle || status is Error {
        assert(t =~= head + seq![
            '[', 'g', ':', ' ', 'G', 'i', 't', 'H', 'u', 'b', ']', ' ', ' ', '[', '?', ':', ' ', 'H', 'e',
            'l', 'p', ']', ' ', ' ', '[', 'q', ':', ' ', 'Q', 'u', 'i', 't', ']', ' '
        ]);
    }
    if let UpdateStatus::Available(info) = status {
        assert(t.subrange(head.len() as int, head.len() + info.version@.len() + 12int) =~= seq!['[', 'u', ':', ' ', 'U', 'p', 'd', 'a', 't', 'e', ' ', 'v'] + info.version@);
    }
}

/// The process panel's title counts the listed processes; while the filter
/// is typed it shows the filter followed by a cursor; otherwise it shows
/// the sort column and direction, and the filter when one is set.
pub proof fn law_proc_title(is_filtering: bool, filter: Seq<char>, count: nat, by: ProcessSortBy, desc: bool)
    ensures
        is_filtering ==> proc_title_text(is_filtering, filter, count, by, desc) == seq![
            ' ', 'P', 'R', 'O', 'C', 'E', 'S', 'S', 'E', 'S', ' ', '[', 'F', 'i', 'n', 'd', ':', ' '
        ] + filter + seq!['_', ']', ' ', '('] + decimal(count) + seq![')', ' '],
        !is_filtering && filter.len() == 0 ==> proc_title_text(is_filtering, filter, count, by, desc)
            == seq![' ', 'P', 'R', 'O', 'C', 'E', 'S', 'S', 'E', 'S', ' ', '('] + decimal(count)
            + seq![')', ' ', '[', 'S', 'o', 'r', 't', ':', ' '] + sort_label_text(by, desc) + seq![
            ']',
            ' ',
        ],
        !is_filtering && filter.len() > 0 ==> proc_title_text(is_filtering, filter, count, by, desc)
            == seq![
            ' ', 'P', 'R', 'O', 'C', 'E', 'S', 'S', 'E', 'S', ' ', '[', 'F', 'i', 'l', 't', 'e', 'r', ':',
            ' ', '\''
        ] + filter + seq!['\'', ']', ' ', '('] + decimal(count) + seq![
            ' ', 'm', 'a', 't', 'c', 'h', 'e', 's', ')', ' ', '[', 'S', 'o', 'r', 't', ':', ' '
        ] + sort_label_text(by, desc) + seq![']', ' '],
{
    let t = proc_title_text(is_filtering, filter, count, by, desc);
    if is_filtering {
        assert(t =~= seq![
            ' ', 'P', 'R', 'O', 'C', 'E', 'S', 'S', 'E', 'S', ' ', '[', 'F', 'i', 'n', 'd', ':', ' '
        ] + filter + seq!['_', ']', ' ', '('] + decimal(count) + seq![')', ' ']);
    } else if filter.len() == 0 {
        assert(t =~= seq![' ', 'P', 'R', 'O', 'C', 'E', 'S', 'S', 'E', 'S', ' ', '('] + decimal(count)
            + seq![')', ' ', '[', 'S', 'o', 'r', 't', ':', ' '] + sort_label_text(by, desc) + seq![
            ']',
            ' ',
        ]);
    } else {
        assert(t =~= seq![
            ' ', 'P', 'R', 'O', 'C', 'E', 'S', 'S', 'E', 'S', ' ', '[', 'F', 'i', 'l', 't', 'e', 'r', ':',
            ' ', '\''
        ] + filter + seq!['\'', ']', ' ', '('] + decimal(count) + seq![
            ' ', 'm', 'a', 't', 'c', 'h', 'e', 's', ')', ' ', '[', 'S', 'o', 'r', 't', ':', ' '
        ] + sort_label_text(by, desc) + seq![']', ' ']);
    }
}

} // verus!
