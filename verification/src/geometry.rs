//! Spatial addressing: displays, regions, cells, and the inverse lookup.
//!
//! A display is divided into 4x4 regions and each region into 5x3 cells.
//! Region and cell boundaries are exact rational subdivisions of the display
//! size; to stay in integer arithmetic every horizontal coordinate is scaled
//! by 40 (twice the 20 cell columns of a display) and every vertical
//! coordinate by 24 (twice the 12 cell rows).  In scaled coordinates a region
//! spans `10 * size_x` horizontal units, a cell spans `2 * size_x` units, and
//! a cell center lies an odd multiple of `size_x` units from the display
//! origin, all exactly.

use vstd::prelude::*;

verus! {

use vstd::arithmetic::div_mod::{
    lemma_div_pos_is_pos, lemma_fundamental_div_mod, lemma_fundamental_div_mod_converse_div,
    lemma_fundamental_div_mod_converse_mod, lemma_mod_division_less_than_divisor,
    lemma_multiply_divide_lt,
};
use vstd::arithmetic::mul::{
    lemma_mul_is_distributive_add, lemma_mul_nonnegative, lemma_mul_strict_inequality,
    lemma_mul_strictly_positive,
};

/// Regions per display (a 4x4 grid).
pub const REGION_COUNT: i32 = 16;

/// Cells per region (a 5x3 grid).
pub const CELL_COUNT: i32 = 15;

/// Largest magnitude accepted for a display position or size, in pixels.
pub const COORD_LIMIT: i32 = 16777216;

/// One display as reported at startup: absolute position, size, and the
/// usable-area offset (non-zero only on the primary display, to compensate
/// for reserved desktop furniture).
#[derive(Clone, Copy, PartialEq, Eq, Structural, Debug)]
pub struct Display {
    pub pos_x: i32,
    pub pos_y: i32,
    pub size_x: i32,
    pub size_y: i32,
    pub off_x: i32,
    pub off_y: i32,
}

impl Display {
    /// A well-formed display has positive size, an offset within the size,
    /// and coordinates small enough that all scaled arithmetic stays exact.
    pub open spec fn wf(self) -> bool {
        &&& -16777216 <= self.pos_x <= 16777216
        &&& -16777216 <= self.pos_y <= 16777216
        &&& 1 <= self.size_x <= 16777216
        &&& 1 <= self.size_y <= 16777216
        &&& 0 <= self.off_x <= self.size_x
        &&& 0 <= self.off_y <= self.size_y
    }
}

/// Validated constructor: `Some` exactly when the fields satisfy `Display::wf`.
pub fn display_checked(
    pos_x: i32,
    pos_y: i32,
    size_x: i32,
    size_y: i32,
    off_x: i32,
    off_y: i32,
) -> (r: Option<Display>)
    ensures
        r matches Some(d) ==> d == (Display { pos_x, pos_y, size_x, size_y, off_x, off_y })
            && d.wf(),
        r is None ==> !(Display { pos_x, pos_y, size_x, size_y, off_x, off_y }).wf(),
{
    if -COORD_LIMIT <= pos_x && pos_x <= COORD_LIMIT && -COORD_LIMIT <= pos_y && pos_y
        <= COORD_LIMIT && 1 <= size_x && size_x <= COORD_LIMIT && 1 <= size_y && size_y
        <= COORD_LIMIT && 0 <= off_x && off_x <= size_x && 0 <= off_y && off_y <= size_y {
        Some(Display { pos_x, pos_y, size_x, size_y, off_x, off_y })
    } else {
        None
    }
}

/// Column of a region index.
pub open spec fn region_col(r: int) -> int {
    r % 4
}

/// Row of a region index.
pub open spec fn region_row(r: int) -> int {
    r / 4
}

/// Column of a cell index within its region.
pub open spec fn cell_col(c: int) -> int {
    c % 5
}

/// Row of a cell index within its region.
pub open spec fn cell_row(c: int) -> int {
    c / 5
}

/// X coordinate of the origin of region `r`, scaled by 40.  A region is a
/// quarter of the display wide, which is `10 * size_x` scaled units.
pub open spec fn region_origin_sx(d: Display, r: int) -> int {
    d.pos_x * 40 + 10 * d.size_x * region_col(r)
}

/// Y coordinate of the origin of region `r`, scaled by 24.  A region is a
/// quarter of the display tall, which is `6 * size_y` scaled units.
pub open spec fn region_origin_sy(d: Display, r: int) -> int {
    d.pos_y * 24 + 6 * d.size_y * region_row(r)
}

/// X coordinate of the center of cell `c` of region `r`, scaled by 40.
/// A cell is `2 * size_x` scaled units wide, so its center lies `size_x`
/// scaled units past its left edge.
pub open spec fn cell_center_sx(d: Display, r: int, c: int) -> int {
    region_origin_sx(d, r) + d.size_x * (2 * cell_col(c) + 1)
}

/// Y coordinate of the center of cell `c` of region `r`, scaled by 24.
pub open spec fn cell_center_sy(d: Display, r: int, c: int) -> int {
    region_origin_sy(d, r) + d.size_y * (2 * cell_row(c) + 1)
}

/// Min corner of the half-open rectangle of cell `c` of region `r`,
/// scaled x coordinate.  The rectangle spans `2 * size_x` scaled units.
pub open spec fn cell_rect_min_sx(d: Display, r: int, c: int) -> int {
    region_origin_sx(d, r) + 2 * d.size_x * cell_col(c)
}

/// Min corner of the cell rectangle, scaled y coordinate.
pub open spec fn cell_rect_min_sy(d: Display, r: int, c: int) -> int {
    region_origin_sy(d, r) + 2 * d.size_y * cell_row(c)
}

/// A cell's center lies in the middle of its half-open rectangle: exactly
/// `size_x` of the `2 * size_x` scaled units past the rectangle's min corner
/// on the horizontal axis, and likewise vertically.
pub proof fn lemma_center_in_cell_rect(d: Display, r: int, c: int)
    requires
        d.wf(),
    ensures
        cell_center_sx(d, r, c) == cell_rect_min_sx(d, r, c) + d.size_x,
        cell_center_sy(d, r, c) == cell_rect_min_sy(d, r, c) + d.size_y,
        cell_rect_min_sx(d, r, c) < cell_center_sx(d, r, c) < cell_rect_min_sx(d, r, c) + 2
            * d.size_x,
        cell_rect_min_sy(d, r, c) < cell_center_sy(d, r, c) < cell_rect_min_sy(d, r, c) + 2
            * d.size_y,
{
    assert(d.size_x * (2 * cell_col(c) + 1) == 2 * d.size_x * cell_col(c) + d.size_x)
        by (nonlinear_arith);
    assert(d.size_y * (2 * cell_row(c) + 1) == 2 * d.size_y * cell_row(c) + d.size_y)
        by (nonlinear_arith);
}

/// Whether pixel `(px, py)` lies on display `d` (half-open on both axes).
pub open spec fn display_contains(d: Display, px: int, py: int) -> bool {
    &&& d.pos_x <= px < d.pos_x + d.size_x
    &&& d.pos_y <= py < d.pos_y + d.size_y
}

/// Whether the scaled point `(sx, sy)` lies on display `d`.
pub open spec fn display_contains_scaled(d: Display, sx: int, sy: int) -> bool {
    &&& 0 <= sx - d.pos_x * 40 < 40 * d.size_x
    &&& 0 <= sy - d.pos_y * 24 < 24 * d.size_y
}

/// Region index of the scaled point `(sx, sy)` on display `d`:
/// the point's region column plus 4 times its region row.
pub open spec fn region_index_scaled(d: Display, sx: int, sy: int) -> int {
    (sx - d.pos_x * 40) / (10 * d.size_x) + 4 * ((sy - d.pos_y * 24) / (6 * d.size_y))
}

/// Cell index of the scaled point `(sx, sy)` on display `d`: the remainder
/// of each axis within its region, divided by the scaled cell span.
pub open spec fn cell_index_scaled(d: Display, sx: int, sy: int) -> int {
    ((sx - d.pos_x * 40) % (10 * d.size_x)) / (2 * d.size_x) + 5 * (((sy - d.pos_y * 24) % (6
        * d.size_y)) / (2 * d.size_y))
}

/// Usable-area rectangle of a display: position shifted by the offset,
/// size shrunk by it.  This is the viewport target after a screen switch.
pub fn usable_rect(d: &Display) -> (rect: (i32, i32, i32, i32))
    requires
        d.wf(),
    ensures
        rect.0 == d.pos_x + d.off_x,
        rect.1 == d.pos_y + d.off_y,
        rect.2 == d.size_x - d.off_x,
        rect.3 == d.size_y - d.off_y,
{
    (d.pos_x + d.off_x, d.pos_y + d.off_y, d.size_x - d.off_x, d.size_y - d.off_y)
}

/// Splitting one axis: for a coordinate that lies `size * (2 * j + 1)` scaled
/// units past the start of region stripe `k` (with `j` a cell coordinate in
/// `[0, cells)`), dividing by the scaled region span recovers `k`, and the
/// remainder divided by the scaled cell span recovers `j`.
proof fn lemma_axis_split(size: int, cells: int, k: int, j: int)
    requires
        size >= 1,
        cells >= 1,
        0 <= j < cells,
    ensures
        (2 * cells * size * k + size * (2 * j + 1)) / (2 * cells * size) == k,
        (2 * cells * size * k + size * (2 * j + 1)) % (2 * cells * size) == size * (2 * j + 1),
        (size * (2 * j + 1)) / (2 * size) == j,
{
    let span = 2 * cells * size;
    let rem = size * (2 * j + 1);
    assert(span > 0) by {
        lemma_mul_strictly_positive(2 * cells, size);
    }
    assert(0 <= rem < span) by {
        lemma_mul_nonnegative(size, 2 * j + 1);
        lemma_mul_strict_inequality(2 * j + 1, 2 * cells, size);
        assert(size * (2 * cells) == 2 * cells * size) by (nonlinear_arith);
    }
    lemma_fundamental_div_mod_converse_div(span * k + rem, span, k, rem);
    lemma_fundamental_div_mod_converse_mod(span * k + rem, span, k, rem);
    assert(rem == j * (2 * size) + size) by {
        lemma_mul_is_distributive_add(size, 2 * j, 1);
        assert(size * (2 * j) == j * (2 * size)) by (nonlinear_arith);
    }
    lemma_fundamental_div_mod_converse_div(rem, 2 * size, j, size);
}

/// On a well-formed display, a scaled point on the display always yields a
/// region index in `[0, 16)` and a cell index in `[0, 15)`.
pub proof fn lemma_index_bounds(d: Display, sx: int, sy: int)
    requires
        d.wf(),
        display_contains_scaled(d, sx, sy),
    ensures
        0 <= region_index_scaled(d, sx, sy) < 16,
        0 <= cell_index_scaled(d, sx, sy) < 15,
{
    let relx = sx - d.pos_x * 40;
    let rely = sy - d.pos_y * 24;
    let span_x = 10 * (d.size_x as int);
    let span_y = 6 * (d.size_y as int);
    lemma_div_pos_is_pos(relx, span_x);
    lemma_div_pos_is_pos(rely, span_y);
    lemma_multiply_divide_lt(relx, span_x, 4);
    lemma_multiply_divide_lt(rely, span_y, 4);
    lemma_mod_division_less_than_divisor(relx, span_x);
    lemma_mod_division_less_than_divisor(rely, span_y);
    let remx = relx % span_x;
    let remy = rely % span_y;
    lemma_div_pos_is_pos(remx, 2 * (d.size_x as int));
    lemma_div_pos_is_pos(remy, 2 * (d.size_y as int));
    lemma_multiply_divide_lt(remx, 2 * (d.size_x as int), 5);
    lemma_multiply_divide_lt(remy, 2 * (d.size_y as int), 3);
}

/// Forward/inverse round trip on one display: the exact center of cell `c`
/// of region `r` lies on the display, and locating it recovers `(r, c)`.
pub proof fn lemma_locate_cell_center(d: Display, r: int, c: int)
    requires
        d.wf(),
        0 <= r < 16,
        0 <= c < 15,
    ensures
        display_contains_scaled(d, cell_center_sx(d, r, c), cell_center_sy(d, r, c)),
        region_index_scaled(d, cell_center_sx(d, r, c), cell_center_sy(d, r, c)) == r,
        cell_index_scaled(d, cell_center_sx(d, r, c), cell_center_sy(d, r, c)) == c,
{
    let sx = cell_center_sx(d, r, c);
    let sy = cell_center_sy(d, r, c);
    let relx = sx - d.pos_x * 40;
    let rely = sy - d.pos_y * 24;
    assert(0 <= region_col(r) < 4 && 0 <= region_row(r) < 4);
    assert(0 <= cell_col(c) < 5 && 0 <= cell_row(c) < 3);
    lemma_axis_split(d.size_x as int, 5, region_col(r), cell_col(c));
    lemma_axis_split(d.size_y as int, 3, region_row(r), cell_row(c));
    assert(0 <= relx < 40 * d.size_x) by {
        lemma_mul_nonnegative(10 * (d.size_x as int), region_col(r));
        lemma_mul_nonnegative(d.size_x as int, 2 * cell_col(c) + 1);
        assert(10 * (d.size_x as int) * region_col(r) + (d.size_x as int) * (2 * cell_col(c) + 1)
            < 40 * d.size_x) by (nonlinear_arith)
            requires
                d.size_x >= 1,
                0 <= region_col(r) < 4,
                0 <= cell_col(c) < 5,
        ;
    }
    assert(0 <= rely < 24 * d.size_y) by {
        lemma_mul_nonnegative(6 * (d.size_y as int), region_row(r));
        lemma_mul_nonnegative(d.size_y as int, 2 * cell_row(c) + 1);
        assert(6 * (d.size_y as int) * region_row(r) + (d.size_y as int) * (2 * cell_row(c) + 1)
            < 24 * d.size_y) by (nonlinear_arith)
            requires
                d.size_y >= 1,
                0 <= region_row(r) < 4,
                0 <= cell_row(c) < 3,
        ;
    }
    assert(region_index_scaled(d, sx, sy) == region_col(r) + 4 * region_row(r));
    assert(cell_index_scaled(d, sx, sy) == cell_col(c) + 5 * cell_row(c));
}

/// Region and cell index of a pixel known to lie on display `d`.
pub fn locate_in_display(d: &Display, px: i32, py: i32) -> (rc: (i32, i32))
    requires
        d.wf(),
        display_contains(*d, px as int, py as int),
    ensures
        rc.0 == region_index_scaled(*d, px * 40, py * 24),
        rc.1 == cell_index_scaled(*d, px * 40, py * 24),
        0 <= rc.0 < 16,
        0 <= rc.1 < 15,
{
    proof {
        lemma_index_bounds(*d, px * 40, py * 24);
    }
    let relx: u64 = ((px as i64 - d.pos_x as i64) as u64) * 40;
    let rely: u64 = ((py as i64 - d.pos_y as i64) as u64) * 24;
    let span_x: u64 = 10 * (d.size_x as u64);
    let span_y: u64 = 6 * (d.size_y as u64);
    let qx: u64 = relx / span_x;
    let qy: u64 = rely / span_y;
    let cx: u64 = (relx % span_x) / (2 * (d.size_x as u64));
    let cy: u64 = (rely % span_y) / (2 * (d.size_y as u64));
    proof {
        lemma_mod_division_less_than_divisor(relx as int, span_x as int);
        lemma_mod_division_less_than_divisor(rely as int, span_y as int);
    }
    let region: i32 = (qx + 4 * qy) as i32;
    let cell: i32 = (cx + 5 * cy) as i32;
    (region, cell)
}

/// First display in registry order that contains the pixel, searching from
/// index `i`; ties between overlapping displays go to the earlier one.
pub open spec fn first_containing(ds: Seq<Display>, px: int, py: int, i: int) -> Option<int>
    decreases ds.len() - i,
{
    if i < 0 || i >= ds.len() {
        None
    } else if display_contains(ds[i], px, py) {
        Some(i)
    } else {
        first_containing(ds, px, py, i + 1)
    }
}

/// Inverse mapping over the whole registry: the first display containing the
/// pixel, with the pixel's region and cell index on that display; `None` when
/// no display contains the pixel.
pub open spec fn locate_model(ds: Seq<Display>, px: int, py: int) -> Option<(int, int, int)> {
    match first_containing(ds, px, py, 0) {
        None => None,
        Some(i) => Some(
            (
                i,
                region_index_scaled(ds[i], px * 40, py * 24),
                cell_index_scaled(ds[i], px * 40, py * 24),
            ),
        ),
    }
}

/// A located pixel: the containing display and the region and cell indices
/// of the pixel on it.
#[derive(Clone, Copy, PartialEq, Eq, Structural, Debug)]
pub struct Located {
    pub display: usize,
    pub region: i32,
    pub cell: i32,
}

/// Inverse mapping: find the first display containing the pixel and the
/// region and cell the pixel falls in.  `None` when the pixel is outside
/// every display (the caller keeps its prior state).
pub fn locate(displays: &Vec<Display>, px: i32, py: i32) -> (r: Option<Located>)
    requires
        forall|i: int| 0 <= i < displays@.len() ==> displays@[i].wf(),
    ensures
        match r {
            None => locate_model(displays@, px as int, py as int) is None,
            Some(h) => {
                &&& locate_model(displays@, px as int, py as int) == Some(
                    (h.display as int, h.region as int, h.cell as int),
                )
                &&& h.display < displays@.len()
                &&& 0 <= h.region < 16
                &&& 0 <= h.cell < 15
            },
        },
{
    let n = displays.len();
    let mut i: usize = 0;
    while i < n
        invariant
            n == displays@.len(),
            0 <= i <= n,
            forall|j: int| 0 <= j < displays@.len() ==> displays@[j].wf(),
            first_containing(displays@, px as int, py as int, 0) == first_containing(
                displays@,
                px as int,
                py as int,
                i as int,
            ),
        decreases n - i,
    {
        let d = displays[i];
        if d.pos_x as i64 <= px as i64 && (px as i64) < d.pos_x as i64 + d.size_x as i64
            && d.pos_y as i64 <= py as i64 && (py as i64) < d.pos_y as i64 + d.size_y as i64 {
            let (region, cell) = locate_in_display(&d, px, py);
            return Some(Located { display: i, region, cell });
        }
        i = i + 1;
    }
    None
}

/// Index of the first display containing the pixel, or 0 when none does:
/// the display the session starts on, given the startup pointer position.
pub fn initial_display(displays: &Vec<Display>, px: i32, py: i32) -> (i: usize)
    requires
        displays@.len() >= 1,
    ensures
        i < displays@.len(),
        i as int == match first_containing(displays@, px as int, py as int, 0) {
            Some(j) => j,
            None => 0int,
        },
{
    let n = displays.len();
    let mut i: usize = 0;
    while i < n
        invariant
            n == displays@.len(),
            0 <= i <= n,
            first_containing(displays@, px as int, py as int, 0) == first_containing(
                displays@,
                px as int,
                py as int,
                i as int,
            ),
        decreases n - i,
    {
        let d = displays[i];
        if d.pos_x as i64 <= px as i64 && (px as i64) < d.pos_x as i64 + d.size_x as i64
            && d.pos_y as i64 <= py as i64 && (py as i64) < d.pos_y as i64 + d.size_y as i64 {
            return i;
        }
        i = i + 1;
    }
    0
}

/// Pixel the pointer is warped to on entering a cell: the exact scaled cell
/// center rounded down to whole pixels on each axis.
pub open spec fn warp_x_model(d: Display, r: int, c: int) -> int {
    cell_center_sx(d, r, c) / 40
}

/// Pixel the pointer is warped to, vertical axis.
pub open spec fn warp_y_model(d: Display, r: int, c: int) -> int {
    cell_center_sy(d, r, c) / 24
}

/// Division by a positive divisor keeps a value within a symmetric bound.
proof fn lemma_div_bounds_small(v: int, den: int, bound: int)
    requires
        1 <= den,
        0 <= bound,
        -bound <= v <= bound,
    ensures
        -bound <= v / den <= bound,
{
    lemma_fundamental_div_mod(v, den);
    lemma_mod_division_less_than_divisor(v, den);
    assert(-bound <= v / den <= bound) by (nonlinear_arith)
        requires
            v == den * (v / den) + v % den,
            0 <= v % den < den,
            1 <= den,
            0 <= bound,
            -bound <= v <= bound,
    ;
}

/// Floor division of `v` by a small positive divisor.
fn div_floor_by(v: i64, den: i64) -> (q: i64)
    requires
        1 <= den <= 64,
        -4000000000000 <= v <= 4000000000000,
    ensures
        q == v as int / den as int,
{
    if v >= 0 {
        let q = ((v as u64) / (den as u64)) as i64;
        q
    } else {
        let m: u64 = (-v) as u64;
        let q0: u64 = (m + (den as u64 - 1)) / (den as u64);
        proof {
            let mi = m as int;
            let di = den as int;
            let qi = (mi + di - 1) / di;
            lemma_fundamental_div_mod(mi + di - 1, di);
            lemma_mod_division_less_than_divisor(mi + di - 1, di);
            assert(qi * di <= mi + di - 1);
            assert(qi * di >= mi);
            assert((-qi) * di == -(qi * di)) by (nonlinear_arith);
            assert(v as int == (-qi) * di + (qi * di - mi));
            lemma_fundamental_div_mod_converse_div(v as int, di, -qi, qi * di - mi);
        }
        -(q0 as i64)
    }
}

/// Warp target in pixels for cell `c` of region `r` on display `d`.
pub fn warp_target(d: &Display, r: i32, c: i32) -> (p: (i32, i32))
    requires
        d.wf(),
        0 <= r < 16,
        0 <= c < 15,
    ensures
        p.0 == warp_x_model(*d, r as int, c as int),
        p.1 == warp_y_model(*d, r as int, c as int),
{
    let ru: u64 = r as u64;
    let cu: u64 = c as u64;
    let col: i64 = (ru % 4) as i64;
    let row: i64 = (ru / 4) as i64;
    let ccol: i64 = (cu % 5) as i64;
    let crow: i64 = (cu / 5) as i64;
    let fx: i64 = 10 * col + 2 * ccol + 1;
    let fy: i64 = 6 * row + 2 * crow + 1;
    proof {
        assert(0 <= (d.size_x as int) * (fx as int) <= 16777216 * 39 && 0 <= (d.size_y as int) * (
        fy as int) <= 16777216 * 23) by (nonlinear_arith)
            requires
                1 <= d.size_x <= 16777216,
                1 <= d.size_y <= 16777216,
                1 <= fx <= 39,
                1 <= fy <= 23,
        ;
    }
    let sx: i64 = (d.pos_x as i64) * 40 + (d.size_x as i64) * fx;
    let sy: i64 = (d.pos_y as i64) * 24 + (d.size_y as i64) * fy;
    proof {
        assert(sx == cell_center_sx(*d, r as int, c as int) && sy == cell_center_sy(
            *d,
            r as int,
            c as int,
        )) by (nonlinear_arith)
            requires
                sx == (d.pos_x as int) * 40 + (d.size_x as int) * (10 * (col as int) + 2 * (
                ccol as int) + 1),
                sy == (d.pos_y as int) * 24 + (d.size_y as int) * (6 * (row as int) + 2 * (
                crow as int) + 1),
                col == region_col(r as int),
                row == region_row(r as int),
                ccol == cell_col(c as int),
                crow == cell_row(c as int),
                cell_center_sx(*d, r as int, c as int) == (d.pos_x as int) * 40 + 10 * (
                d.size_x as int) * region_col(r as int) + (d.size_x as int) * (2 * cell_col(
                    c as int,
                ) + 1),
                cell_center_sy(*d, r as int, c as int) == (d.pos_y as int) * 24 + 6 * (
                d.size_y as int) * region_row(r as int) + (d.size_y as int) * (2 * cell_row(
                    c as int,
                ) + 1),
        ;
    }
    let px = div_floor_by(sx, 40);
    let py = div_floor_by(sy, 24);
    proof {
        lemma_div_bounds_small(sx as int, 40, 1400000000);
        lemma_div_bounds_small(sy as int, 24, 1400000000);
    }
    (px as i32, py as i32)
}

} // verus!
