//! The camera: pan/zoom state and the affine mapping between grid
//! coordinates and screen coordinates, with visible-range culling.
//!
//! All scalars are exact rationals (see `frac`), so each transform's result
//! is pinned down exactly and the zoom-anchoring law is a theorem rather
//! than an approximation. The magnitude bounds in the `requires` clauses are
//! what makes every intermediate product fit in an `i128`; the caller that
//! drives the camera re-quantizes its inputs each frame, as any fixed-width
//! pipeline must.

use vstd::prelude::*;
use crate::frac::Frac;
use crate::frac::frac_wf;
use crate::frac::rat_add;
use crate::frac::rat_sub;
use crate::frac::rat_mul;
use crate::frac::rat_div_pos;
use crate::frac::floor_div_i128;
use crate::frac::ceil_div_i128;
use crate::frac::rat_reduce;
use crate::frac::in_i128;
use crate::frac::lemma_mul_bound;
use crate::frac::lemma_mul_pos;

verus! {

/// Magnitude bound on the numerator of a screen-space quantity (a position,
/// a pan delta, a cell size): 2^24.
pub const MAX_POS_NUM: i128 = 16_777_216;

/// Bound on the denominator of a screen-space quantity: 2^12.
pub const MAX_POS_DEN: i128 = 4_096;

/// Magnitude bound on a stored offset numerator accepted by a transform: 2^34.
pub const MAX_OFF_NUM: i128 = 17_179_869_184;

/// Bound on a stored offset denominator accepted by a transform: 2^20.
pub const MAX_OFF_DEN: i128 = 1_048_576;

/// Magnitude bound on a zoom numerator accepted by a transform: 2^23.
pub const MAX_ZOOM_NUM: i128 = 8_388_608;

/// Bound on a zoom denominator accepted by a transform: 2^20.
pub const MAX_ZOOM_DEN: i128 = 1_048_576;

/// Bound on both parts of a zoom factor: 2^16.
pub const MAX_FACTOR_PART: i128 = 65_536;

/// A screen-space input: position, pan delta or cell size.
pub open spec fn pos_bounded(f: Frac) -> bool {
    &&& -MAX_POS_NUM <= f.num <= MAX_POS_NUM
    &&& 1 <= f.den <= MAX_POS_DEN
}

/// A stored offset small enough for the transforms.
pub open spec fn offset_bounded(f: Frac) -> bool {
    &&& -MAX_OFF_NUM <= f.num <= MAX_OFF_NUM
    &&& 1 <= f.den <= MAX_OFF_DEN
}

/// A stored zoom small enough for the transforms.
pub open spec fn zoom_bounded(f: Frac) -> bool {
    &&& -MAX_ZOOM_NUM <= f.num <= MAX_ZOOM_NUM
    &&& 1 <= f.den <= MAX_ZOOM_DEN
}

/// A positive zoom factor with bounded parts.
pub open spec fn factor_bounded(f: Frac) -> bool {
    &&& 1 <= f.num <= MAX_FACTOR_PART
    &&& 1 <= f.den <= MAX_FACTOR_PART
}

/// Pan offset and zoom level. The zoom always stays within [1/10, 5].
pub struct Camera {
    pub offset_x: Frac,
    pub offset_y: Frac,
    pub zoom: Frac,
}

/// Numerator of `(pos - offset) / (cell * zoom)`, exactly as the transform
/// computes it.
pub open spec fn s2g_num(offset: Frac, zoom: Frac, pos: Frac, cell: Frac) -> int {
    (pos.num * offset.den - offset.num * pos.den) * (cell.den * zoom.den)
}

/// Denominator of `(pos - offset) / (cell * zoom)`.
pub open spec fn s2g_den(offset: Frac, zoom: Frac, pos: Frac, cell: Frac) -> int {
    (pos.den * offset.den) * (cell.num * zoom.num)
}

/// Numerator of `idx * cell * zoom + offset`, exactly as the transform
/// computes it.
pub open spec fn g2s_num(offset: Frac, zoom: Frac, idx: int, cell: Frac) -> int {
    (idx * (cell.num * zoom.num)) * offset.den + offset.num * (1 * (cell.den * zoom.den))
}

/// Denominator of `idx * cell * zoom + offset`.
pub open spec fn g2s_den(offset: Frac, zoom: Frac, cell: Frac) -> int {
    (1 * (cell.den * zoom.den)) * offset.den
}

impl Camera {
    /// Denominators positive, zoom within [1/10, 5].
    pub open spec fn wf(self) -> bool {
        &&& frac_wf(self.offset_x)
        &&& frac_wf(self.offset_y)
        &&& frac_wf(self.zoom)
        &&& 10 * self.zoom.num >= self.zoom.den
        &&& self.zoom.num <= 5 * self.zoom.den
    }

    /// A fresh camera: no pan, unit zoom.
    pub fn new() -> (c: Camera)
        ensures
            c.wf(),
            c.offset_x.num == 0,
            c.offset_x.den == 1,
            c.offset_y.num == 0,
            c.offset_y.den == 1,
            c.zoom.num == 1,
            c.zoom.den == 1,
    {
        Camera {
            offset_x: Frac { num: 0, den: 1 },
            offset_y: Frac { num: 0, den: 1 },
            zoom: Frac { num: 1, den: 1 },
        }
    }

    /// Pan by a screen-space delta (drag and scroll collapsed into one
    /// vector per frame by the caller): `offset += delta`, exactly.
    pub fn handle_pan(&mut self, dx: Frac, dy: Frac)
        requires
            old(self).wf(),
            offset_bounded(old(self).offset_x),
            offset_bounded(old(self).offset_y),
            pos_bounded(dx),
            pos_bounded(dy),
        ensures
            final(self).wf(),
            final(self).zoom == old(self).zoom,
            final(self).offset_x.num
                == old(self).offset_x.num * dx.den + dx.num * old(self).offset_x.den,
            final(self).offset_x.den == old(self).offset_x.den * dx.den,
            final(self).offset_y.num
                == old(self).offset_y.num * dy.den + dy.num * old(self).offset_y.den,
            final(self).offset_y.den == old(self).offset_y.den * dy.den,
    {
        proof {
            lemma_mul_bound(self.offset_x.num as int, dx.den as int,
                MAX_OFF_NUM as int, MAX_POS_DEN as int);
            lemma_mul_bound(dx.num as int, self.offset_x.den as int,
                MAX_POS_NUM as int, MAX_OFF_DEN as int);
            lemma_mul_bound(self.offset_x.den as int, dx.den as int,
                MAX_OFF_DEN as int, MAX_POS_DEN as int);
            lemma_mul_bound(self.offset_y.num as int, dy.den as int,
                MAX_OFF_NUM as int, MAX_POS_DEN as int);
            lemma_mul_bound(dy.num as int, self.offset_y.den as int,
                MAX_POS_NUM as int, MAX_OFF_DEN as int);
            lemma_mul_bound(self.offset_y.den as int, dy.den as int,
                MAX_OFF_DEN as int, MAX_POS_DEN as int);
        }
        self.offset_x = rat_add(self.offset_x, dx);
        self.offset_y = rat_add(self.offset_y, dy);
    }

    /// The on-screen size of one cell: `cell * zoom`, exactly.
    pub fn scaled_cell_size(&self, cell: Frac) -> (r: Frac)
        requires
            self.wf(),
            zoom_bounded(self.zoom),
            pos_bounded(cell),
        ensures
            r.num == cell.num * self.zoom.num,
            r.den == cell.den * self.zoom.den,
            frac_wf(r),
    {
        proof {
            lemma_mul_bound(cell.num as int, self.zoom.num as int,
                MAX_POS_NUM as int, MAX_ZOOM_NUM as int);
            lemma_mul_bound(cell.den as int, self.zoom.den as int,
                MAX_POS_DEN as int, MAX_ZOOM_DEN as int);
        }
        rat_mul(cell, self.zoom)
    }
}

impl Default for Camera {
    /// Same as `new`: no pan, unit zoom.
    fn default() -> (c: Camera)
        ensures
            c.wf(),
            c.offset_x.num == 0,
            c.offset_x.den == 1,
            c.offset_y.num == 0,
            c.offset_y.den == 1,
            c.zoom.num == 1,
            c.zoom.den == 1,
    {
        Camera::new()
    }
}

/// Numerator of the zoom level after multiplying by a factor and clamping
/// to [1/10, 5].
pub open spec fn zoomed_num(zoom: Frac, factor: Frac) -> int {
    let rn = zoom.num * factor.num;
    let rd = zoom.den * factor.den;
    if 10 * rn < rd {
        1
    } else if rn > 5 * rd {
        5
    } else {
        rn
    }
}

/// Denominator of the zoom level after multiplying by a factor and clamping.
pub open spec fn zoomed_den(zoom: Frac, factor: Frac) -> int {
    let rn = zoom.num * factor.num;
    let rd = zoom.den * factor.den;
    if 10 * rn < rd {
        10
    } else if rn > 5 * rd {
        1
    } else {
        rd
    }
}

/// Numerator of the offset that keeps the grid point under the anchor fixed
/// across a zoom change: `anchor - ((anchor - offset) / old_zoom) * new_zoom`,
/// exactly as the transform computes it, with the new zoom given as `zn / zd`.
pub open spec fn anchored_num(a: Frac, o: Frac, z0: Frac, zn: int, zd: int) -> int {
    a.num * (((a.den * o.den) * z0.num) * zd)
        - (((a.num * o.den - o.num * a.den) * z0.den) * zn) * a.den
}

/// Denominator of the anchored offset.
pub open spec fn anchored_den(a: Frac, o: Frac, z0: Frac, zn: int, zd: int) -> int {
    a.den * (((a.den * o.den) * z0.num) * zd)
}

/// One axis of the anchored-offset computation.
fn anchored_axis(a: Frac, o: Frac, z0: Frac, z1: Frac) -> (r: Frac)
    requires
        frac_wf(a),
        frac_wf(o),
        frac_wf(z0),
        frac_wf(z1),
        z0.num >= 1,
        z1.num >= 1,
        pos_bounded(a),
        offset_bounded(o),
        zoom_bounded(z0),
        z1.num <= 0x8000000000,
        z1.den <= 0x1000000000,
    ensures
        r.num == anchored_num(a, o, z0, z1.num as int, z1.den as int),
        r.den == anchored_den(a, o, z0, z1.num as int, z1.den as int),
        frac_wf(r),
{
    proof {
        lemma_mul_bound(a.num as int, o.den as int, MAX_POS_NUM as int, MAX_OFF_DEN as int);
        lemma_mul_bound(o.num as int, a.den as int, MAX_OFF_NUM as int, MAX_POS_DEN as int);
        lemma_mul_bound(a.den as int, o.den as int, MAX_POS_DEN as int, MAX_OFF_DEN as int);
    }
    let diff = rat_sub(a, o);
    proof {
        lemma_mul_bound(diff.num as int, z0.den as int, 0x1000000000000, MAX_ZOOM_DEN as int);
        lemma_mul_bound(diff.den as int, z0.num as int, 0x100000000, MAX_ZOOM_NUM as int);
    }
    let w = rat_div_pos(diff, z0);
    proof {
        lemma_mul_bound(w.num as int, z1.num as int, 0x100000000000000000, 0x8000000000);
        lemma_mul_bound(w.den as int, z1.den as int, 0x80000000000000, 0x1000000000);
    }
    let wz = rat_mul(w, z1);
    proof {
        lemma_mul_bound(a.num as int, wz.den as int,
            MAX_POS_NUM as int, 0x80000000000000000000000);
        lemma_mul_bound(wz.num as int, a.den as int,
            0x800000000000000000000000000, MAX_POS_DEN as int);
        lemma_mul_bound(a.den as int, wz.den as int,
            MAX_POS_DEN as int, 0x80000000000000000000000);
    }
    rat_sub(a, wz)
}

/// One axis of the grid-to-screen transform: `idx * cell * zoom + offset`.
fn g2s_axis(offset: Frac, zoom: Frac, idx: usize, cell: Frac) -> (r: Frac)
    requires
        frac_wf(offset),
        frac_wf(zoom),
        offset_bounded(offset),
        zoom_bounded(zoom),
        pos_bounded(cell),
        idx as int <= MAX_POS_NUM,
    ensures
        r.num == g2s_num(offset, zoom, idx as int, cell),
        r.den == g2s_den(offset, zoom, cell),
        frac_wf(r),
{
    let idx_f = Frac { num: idx as i128, den: 1 };
    proof {
        lemma_mul_bound(cell.num as int, zoom.num as int,
            MAX_POS_NUM as int, MAX_ZOOM_NUM as int);
        lemma_mul_bound(cell.den as int, zoom.den as int,
            MAX_POS_DEN as int, MAX_ZOOM_DEN as int);
    }
    let scaled = rat_mul(cell, zoom);
    proof {
        lemma_mul_bound(idx_f.num as int, scaled.num as int,
            MAX_POS_NUM as int, 0x1000000000000);
    }
    let t = rat_mul(idx_f, scaled);
    proof {
        lemma_mul_bound(t.num as int, offset.den as int,
            0x1000000000000000000, MAX_OFF_DEN as int);
        lemma_mul_bound(offset.num as int, t.den as int,
            MAX_OFF_NUM as int, 0x100000000);
        lemma_mul_bound(t.den as int, offset.den as int,
            0x100000000, MAX_OFF_DEN as int);
    }
    rat_add(t, offset)
}

/// One axis of the screen-to-grid transform: `(pos - offset) / (cell * zoom)`.
fn s2g_axis(offset: Frac, zoom: Frac, pos: Frac, cell: Frac) -> (r: Frac)
    requires
        frac_wf(offset),
        frac_wf(zoom),
        zoom.num >= 1,
        offset_bounded(offset),
        zoom_bounded(zoom),
        pos_bounded(pos),
        pos_bounded(cell),
        cell.num >= 1,
    ensures
        r.num == s2g_num(offset, zoom, pos, cell),
        r.den == s2g_den(offset, zoom, pos, cell),
        frac_wf(r),
        -0x100000000000000000000 <= r.num <= 0x100000000000000000000,
        1 <= r.den <= 0x100000000000000000000,
{
    proof {
        lemma_mul_bound(pos.num as int, offset.den as int,
            MAX_POS_NUM as int, MAX_OFF_DEN as int);
        lemma_mul_bound(offset.num as int, pos.den as int,
            MAX_OFF_NUM as int, MAX_POS_DEN as int);
        lemma_mul_bound(pos.den as int, offset.den as int,
            MAX_POS_DEN as int, MAX_OFF_DEN as int);
    }
    let diff = rat_sub(pos, offset);
    proof {
        lemma_mul_bound(cell.num as int, zoom.num as int,
            MAX_POS_NUM as int, MAX_ZOOM_NUM as int);
        lemma_mul_bound(cell.den as int, zoom.den as int,
            MAX_POS_DEN as int, MAX_ZOOM_DEN as int);
    }
    let scaled = rat_mul(cell, zoom);
    proof {
        lemma_mul_pos(cell.num as int, zoom.num as int);
        lemma_mul_bound(diff.num as int, scaled.den as int,
            0x1000000000000, 0x100000000);
        lemma_mul_bound(diff.den as int, scaled.num as int,
            0x100000000, 0x1000000000000);
    }
    rat_div_pos(diff, scaled)
}

impl Camera {
    /// Screen position to (possibly fractional, possibly off-board) grid
    /// coordinates: `x` maps to a column, `y` to a row.
    pub fn screen_to_grid(&self, pos_x: Frac, pos_y: Frac, cell: Frac)
        -> (r: (Frac, Frac))
        requires
            self.wf(),
            zoom_bounded(self.zoom),
            offset_bounded(self.offset_x),
            offset_bounded(self.offset_y),
            pos_bounded(pos_x),
            pos_bounded(pos_y),
            pos_bounded(cell),
            cell.num >= 1,
        ensures
            r.0.num == s2g_num(self.offset_x, self.zoom, pos_x, cell),
            r.0.den == s2g_den(self.offset_x, self.zoom, pos_x, cell),
            r.1.num == s2g_num(self.offset_y, self.zoom, pos_y, cell),
            r.1.den == s2g_den(self.offset_y, self.zoom, pos_y, cell),
            frac_wf(r.0),
            frac_wf(r.1),
    {
        let gx = s2g_axis(self.offset_x, self.zoom, pos_x, cell);
        let gy = s2g_axis(self.offset_y, self.zoom, pos_y, cell);
        (gx, gy)
    }

    /// The board cell under a screen position — the grid coordinates,
    /// floored — or `None` when the point falls off the board.
    pub fn screen_to_cell(
        &self,
        pos_x: Frac,
        pos_y: Frac,
        cell: Frac,
        rows: usize,
        cols: usize,
    ) -> (r: Option<(usize, usize)>)
        requires
            self.wf(),
            zoom_bounded(self.zoom),
            offset_bounded(self.offset_x),
            offset_bounded(self.offset_y),
            pos_bounded(pos_x),
            pos_bounded(pos_y),
            pos_bounded(cell),
            cell.num >= 1,
        ensures
            ({
                let row = s2g_num(self.offset_y, self.zoom, pos_y, cell)
                    / s2g_den(self.offset_y, self.zoom, pos_y, cell);
                let col = s2g_num(self.offset_x, self.zoom, pos_x, cell)
                    / s2g_den(self.offset_x, self.zoom, pos_x, cell);
                if 0 <= row < rows && 0 <= col < cols {
                    r == Some((row as usize, col as usize))
                } else {
                    r is None
                }
            }),
    {
        let gx = s2g_axis(self.offset_x, self.zoom, pos_x, cell);
        let gy = s2g_axis(self.offset_y, self.zoom, pos_y, cell);
        let col = floor_div_i128(gx.num, gx.den);
        let row = floor_div_i128(gy.num, gy.den);
        if 0 <= row && row < rows as i128 && 0 <= col && col < cols as i128 {
            Some((row as usize, col as usize))
        } else {
            None
        }
    }

    /// The screen position of the top-left corner of cell `(row, col)`:
    /// the `x` coordinate comes from the column, the `y` from the row.
    pub fn grid_to_screen(&self, row: usize, col: usize, cell: Frac) -> (p: (Frac, Frac))
        requires
            self.wf(),
            zoom_bounded(self.zoom),
            offset_bounded(self.offset_x),
            offset_bounded(self.offset_y),
            pos_bounded(cell),
            row as int <= MAX_POS_NUM,
            col as int <= MAX_POS_NUM,
        ensures
            p.0.num == g2s_num(self.offset_x, self.zoom, col as int, cell),
            p.0.den == g2s_den(self.offset_x, self.zoom, cell),
            p.1.num == g2s_num(self.offset_y, self.zoom, row as int, cell),
            p.1.den == g2s_den(self.offset_y, self.zoom, cell),
            frac_wf(p.0),
            frac_wf(p.1),
    {
        let x = g2s_axis(self.offset_x, self.zoom, col, cell);
        let y = g2s_axis(self.offset_y, self.zoom, row, cell);
        (x, y)
    }

    /// Zoom by `factor` about the screen-space anchor, clamping the new zoom
    /// to [1/10, 5] and recomputing the offset so the grid point under the
    /// anchor stays under it. Reports whether the zoom value actually
    /// changed: a factor of one changes nothing, and a factor that the clamp
    /// swallows entirely (already at a bound) reports `false` too.
    pub fn handle_zoom(&mut self, factor: Frac, anchor_x: Frac, anchor_y: Frac)
        -> (changed: bool)
        requires
            old(self).wf(),
            zoom_bounded(old(self).zoom),
            offset_bounded(old(self).offset_x),
            offset_bounded(old(self).offset_y),
            pos_bounded(anchor_x),
            pos_bounded(anchor_y),
            factor_bounded(factor),
        ensures
            final(self).wf(),
            changed == (zoomed_num(old(self).zoom, factor) * old(self).zoom.den
                != old(self).zoom.num * zoomed_den(old(self).zoom, factor)),
            factor.num == factor.den ==> *final(self) == *old(self),
            factor.num != factor.den ==> ({
                let zn = zoomed_num(old(self).zoom, factor);
                let zd = zoomed_den(old(self).zoom, factor);
                &&& final(self).zoom.num == zn
                &&& final(self).zoom.den == zd
                &&& final(self).offset_x.num
                    == anchored_num(anchor_x, old(self).offset_x, old(self).zoom, zn, zd)
                &&& final(self).offset_x.den
                    == anchored_den(anchor_x, old(self).offset_x, old(self).zoom, zn, zd)
                &&& final(self).offset_y.num
                    == anchored_num(anchor_y, old(self).offset_y, old(self).zoom, zn, zd)
                &&& final(self).offset_y.den
                    == anchored_den(anchor_y, old(self).offset_y, old(self).zoom, zn, zd)
            }),
    {
        if factor.num == factor.den {
            proof {
                let zn = self.zoom.num as int;
                let zd = self.zoom.den as int;
                let fnu = factor.num as int;
                let fde = factor.den as int;
                // a factor of one leaves the product inside the clamp window,
                // and its value equal to the old zoom
                assert(!(10 * (zn * fnu) < zd * fde)) by (nonlinear_arith)
                    requires
                        10 * zn >= zd,
                        fnu == fde,
                        fnu >= 1,
                        zd >= 1,
                ;
                assert(!((zn * fnu) > 5 * (zd * fde))) by (nonlinear_arith)
                    requires
                        zn <= 5 * zd,
                        fnu == fde,
                        fnu >= 1,
                        zd >= 1,
                ;
                assert((zn * fnu) * zd == zn * (zd * fde)) by (nonlinear_arith)
                    requires
                        fnu == fde,
                ;
            }
            return false;
        }
        proof {
            lemma_mul_bound(self.zoom.num as int, factor.num as int,
                MAX_ZOOM_NUM as int, MAX_FACTOR_PART as int);
            lemma_mul_bound(self.zoom.den as int, factor.den as int,
                MAX_ZOOM_DEN as int, MAX_FACTOR_PART as int);
            lemma_mul_pos(self.zoom.num as int, factor.num as int);
            lemma_mul_pos(self.zoom.den as int, factor.den as int);
        }
        let raw = rat_mul(self.zoom, factor);
        let new_zoom = if 10 * raw.num < raw.den {
            Frac { num: 1, den: 10 }
        } else if raw.num > 5 * raw.den {
            Frac { num: 5, den: 1 }
        } else {
            raw
        };
        let old_zoom = self.zoom;
        let ox = anchored_axis(anchor_x, self.offset_x, old_zoom, new_zoom);
        let oy = anchored_axis(anchor_y, self.offset_y, old_zoom, new_zoom);
        proof {
            lemma_mul_bound(new_zoom.num as int, old_zoom.den as int,
                0x8000000000, MAX_ZOOM_DEN as int);
            lemma_mul_bound(old_zoom.num as int, new_zoom.den as int,
                MAX_ZOOM_NUM as int, 0x1000000000);
        }
        let changed_val = new_zoom.num * old_zoom.den != old_zoom.num * new_zoom.den;
        self.zoom = new_zoom;
        self.offset_x = ox;
        self.offset_y = oy;
        changed_val
    }

    /// The half-open ranges of rows and columns that can be visible inside
    /// the screen rectangle `[min_x, max_x] × [min_y, max_y]`: the lower
    /// grid bound is floored and the upper one ceiled, so partially visible
    /// edge cells are kept, then both are clamped to the board. Returns
    /// `(row_start, row_end, col_start, col_end)`.
    pub fn visible_range(
        &self,
        min_x: Frac,
        min_y: Frac,
        max_x: Frac,
        max_y: Frac,
        rows: usize,
        cols: usize,
        cell: Frac,
    ) -> (r: (usize, usize, usize, usize))
        requires
            self.wf(),
            zoom_bounded(self.zoom),
            offset_bounded(self.offset_x),
            offset_bounded(self.offset_y),
            pos_bounded(min_x),
            pos_bounded(min_y),
            pos_bounded(max_x),
            pos_bounded(max_y),
            pos_bounded(cell),
            cell.num >= 1,
        ensures
            r.0 as int == clamped(
                s2g_num(self.offset_y, self.zoom, min_y, cell)
                    / s2g_den(self.offset_y, self.zoom, min_y, cell),
                rows as int,
            ),
            r.1 as int == clamped(
                ceil_rat(
                    s2g_num(self.offset_y, self.zoom, max_y, cell),
                    s2g_den(self.offset_y, self.zoom, max_y, cell),
                ),
                rows as int,
            ),
            r.2 as int == clamped(
                s2g_num(self.offset_x, self.zoom, min_x, cell)
                    / s2g_den(self.offset_x, self.zoom, min_x, cell),
                cols as int,
            ),
            r.3 as int == clamped(
                ceil_rat(
                    s2g_num(self.offset_x, self.zoom, max_x, cell),
                    s2g_den(self.offset_x, self.zoom, max_x, cell),
                ),
                cols as int,
            ),
            r.0 <= rows,
            r.1 <= rows,
            r.2 <= cols,
            r.3 <= cols,
    {
        let row_range = axis_range(self.offset_y, self.zoom, min_y, max_y, cell, rows);
        let col_range = axis_range(self.offset_x, self.zoom, min_x, max_x, cell, cols);
        (row_range.0, row_range.1, col_range.0, col_range.1)
    }

    /// Reduce the offsets and the zoom to equal-valued fractions with parts
    /// no larger, by their greatest common divisors. Exact pans and zooms
    /// grow the stored parts; reducing them afterwards lets a caller chain
    /// such operations while staying within the transforms' magnitude
    /// bounds.
    pub fn normalize(&mut self)
        requires
            old(self).wf(),
            in_i128(old(self).offset_x.num as int),
            in_i128(old(self).offset_y.num as int),
            in_i128(old(self).zoom.num as int),
        ensures
            final(self).wf(),
            final(self).offset_x.num * old(self).offset_x.den
                == old(self).offset_x.num * final(self).offset_x.den,
            final(self).offset_y.num * old(self).offset_y.den
                == old(self).offset_y.num * final(self).offset_y.den,
            final(self).zoom.num * old(self).zoom.den
                == old(self).zoom.num * final(self).zoom.den,
            1 <= final(self).offset_x.den <= old(self).offset_x.den,
            1 <= final(self).offset_y.den <= old(self).offset_y.den,
            1 <= final(self).zoom.den <= old(self).zoom.den,
            old(self).offset_x.num >= 0
                ==> 0 <= final(self).offset_x.num <= old(self).offset_x.num,
            old(self).offset_x.num < 0
                ==> old(self).offset_x.num <= final(self).offset_x.num <= 0,
            old(self).offset_y.num >= 0
                ==> 0 <= final(self).offset_y.num <= old(self).offset_y.num,
            old(self).offset_y.num < 0
                ==> old(self).offset_y.num <= final(self).offset_y.num <= 0,
            0 <= final(self).zoom.num <= old(self).zoom.num,
    {
        let ox = rat_reduce(self.offset_x);
        let oy = rat_reduce(self.offset_y);
        let z = rat_reduce(self.zoom);
        proof {
            lemma_ratio_bounds_preserved(self.zoom.num as int, self.zoom.den as int,
                z.num as int, z.den as int);
        }
        self.offset_x = ox;
        self.offset_y = oy;
        self.zoom = z;
    }
}

/// A fraction's value determines whether it lies within the zoom window:
/// an equal-valued fraction with positive denominator keeps the bounds.
proof fn lemma_ratio_bounds_preserved(zn: int, zd: int, rn: int, rd: int)
    by (nonlinear_arith)
    requires
        zd >= 1,
        rd >= 1,
        rn * zd == zn * rd,
        10 * zn >= zd,
        zn <= 5 * zd,
    ensures
        10 * rn >= rd,
        rn <= 5 * rd,
{
}

/// An integer clamped into `[0, hi]`.
pub open spec fn clamped(q: int, hi: int) -> int {
    if q < 0 {
        0
    } else if q > hi {
        hi
    } else {
        q
    }
}

/// The least integer at least `n / d`, for a positive `d`.
pub open spec fn ceil_rat(n: int, d: int) -> int {
    (n + d - 1) / d
}

fn clamp_to(q: i128, hi: usize) -> (r: usize)
    ensures
        r as int == clamped(q as int, hi as int),
        r <= hi,
{
    if q < 0 {
        0
    } else if q > hi as i128 {
        hi
    } else {
        q as usize
    }
}

/// The visible index range along one axis: floor of the transformed lower
/// screen bound, ceiling of the upper, both clamped to `[0, count]`.
fn axis_range(offset: Frac, zoom: Frac, lo: Frac, hi: Frac, cell: Frac, count: usize)
    -> (r: (usize, usize))
    requires
        frac_wf(offset),
        frac_wf(zoom),
        zoom.num >= 1,
        offset_bounded(offset),
        zoom_bounded(zoom),
        pos_bounded(lo),
        pos_bounded(hi),
        pos_bounded(cell),
        cell.num >= 1,
    ensures
        r.0 as int == clamped(
            s2g_num(offset, zoom, lo, cell) / s2g_den(offset, zoom, lo, cell),
            count as int,
        ),
        r.1 as int == clamped(
            ceil_rat(s2g_num(offset, zoom, hi, cell), s2g_den(offset, zoom, hi, cell)),
            count as int,
        ),
        r.0 <= count,
        r.1 <= count,
{
    let glo = s2g_axis(offset, zoom, lo, cell);
    let ghi = s2g_axis(offset, zoom, hi, cell);
    let fl = floor_div_i128(glo.num, glo.den);
    let ce = ceil_div_i128(ghi.num, ghi.den);
    (clamp_to(fl, count), clamp_to(ce, count))
}

/// The zoom-anchoring law: when a zoom installs the anchored offset — as
/// `handle_zoom` promises to, whatever the clamp made of the new zoom level —
/// the anchor maps to the same grid point after the zoom as before it.
/// Stated as cross-multiplied equality of the two exact screen-to-grid
/// fractions, whose denominators are nonzero for well-formed cameras.
/// The anchored-offset numerator recombines: with `o1 == (an*base - s*ad) / (ad*base)`,
/// the difference driving the new screen-to-grid numerator collapses to `s * ad^2`.
proof fn lemma_anchor_num(an: int, ad: int, base: int, s: int, o1n: int, o1d: int)
    by (nonlinear_arith)
    requires
        o1n == an * base - s * ad,
        o1d == ad * base,
    ensures
        an * o1d - o1n * ad == s * (ad * ad),
{
}

proof fn lemma_mul_assoc3(a: int, b: int, c: int)
    by (nonlinear_arith)
    ensures
        (a * b) * c == a * (b * c),
{
}

proof fn lemma_mul_rot3(a: int, b: int, c: int)
    by (nonlinear_arith)
    ensures
        a * (b * c) == (a * c) * b,
{
}

proof fn lemma_mul_shuffle4(a: int, b: int, c: int, d: int)
    by (nonlinear_arith)
    ensures
        (a * b) * (c * d) == (a * c) * (b * d),
{
}

proof fn lemma_mul_regroup5a(x: int, cd: int, z0d: int, cn: int, z1n: int)
    by (nonlinear_arith)
    ensures
        (x * (cd * z0d)) * (cn * z1n) == ((x * z0d) * z1n) * (cd * cn),
{
}

proof fn lemma_mul_regroup5b(cd: int, cn: int, p: int, z0n: int, z1d: int)
    by (nonlinear_arith)
    ensures
        (cd * cn) * ((p * z0n) * z1d) == (cd * z1d) * (p * (cn * z0n)),
{
}

pub proof fn lemma_zoom_anchor_preserved(
    a: Frac,
    o: Frac,
    z0: Frac,
    z1: Frac,
    o1: Frac,
    cell: Frac,
)
    requires
        o1.num == anchored_num(a, o, z0, z1.num as int, z1.den as int),
        o1.den == anchored_den(a, o, z0, z1.num as int, z1.den as int),
    ensures
        s2g_num(o, z0, a, cell) * s2g_den(o1, z1, a, cell)
            == s2g_num(o1, z1, a, cell) * s2g_den(o, z0, a, cell),
{
    let an = a.num as int;
    let ad = a.den as int;
    let on = o.num as int;
    let od = o.den as int;
    let z0n = z0.num as int;
    let z0d = z0.den as int;
    let z1n = z1.num as int;
    let z1d = z1.den as int;
    let cn = cell.num as int;
    let cd = cell.den as int;
    let o1n = o1.num as int;
    let o1d = o1.den as int;
    let delta = an * od - on * ad;
    let p = ad * od;
    let base = (p * z0n) * z1d;
    let s = (delta * z0d) * z1n;
    let f = ad * ad;
    let kk = s * f;
    let m1 = cd * z0d;
    let m2 = cn * z1n;
    let m3 = cd * z1d;
    let m4 = cn * z0n;
    assert(o1n == an * base - s * ad);
    assert(o1d == ad * base);
    lemma_anchor_num(an, ad, base, s, o1n, o1d);
    assert(an * o1d - o1n * ad == kk);
    // walk the left product over to the right one, one regrouping at a time
    lemma_mul_assoc3(ad, ad, base);
    assert(ad * o1d == f * base);
    let lhs = (delta * m1) * ((ad * o1d) * m2);
    assert(lhs == (delta * m1) * ((f * base) * m2));
    lemma_mul_rot3(delta * m1, f * base, m2);
    assert(lhs == ((delta * m1) * m2) * (f * base));
    lemma_mul_regroup5a(delta, cd, z0d, cn, z1n);
    assert(lhs == (s * (cd * cn)) * (f * base));
    lemma_mul_shuffle4(s, cd * cn, f, base);
    assert(lhs == (s * f) * ((cd * cn) * base));
    lemma_mul_regroup5b(cd, cn, p, z0n, z1d);
    assert(lhs == kk * (m3 * (p * m4)));
    lemma_mul_assoc3(kk, m3, p * m4);
    assert(lhs == (kk * m3) * (p * m4));
    // and read both ends as the screen-to-grid fractions
    assert(s2g_num(o, z0, a, cell) == delta * m1);
    assert(s2g_den(o1, z1, a, cell) == (ad * o1d) * m2);
    assert(s2g_num(o1, z1, a, cell) == kk * m3);
    assert(s2g_den(o, z0, a, cell) == p * m4);
}

} // verus!
