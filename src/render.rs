use crate::signal::{Signal, FULL_SCALE};
use vstd::arithmetic::div_mod::*;
use vstd::prelude::*;

verus! {

/// The scan geometry of a display: total and visible pixels per line and
/// lines per frame, blanking included in the totals, and the refresh rate.
#[derive(Clone, Copy, Debug)]
pub struct DisplayGeometry {
    pub h_total: u32,
    pub v_total: u32,
    pub h_display: u32,
    pub v_display: u32,
    pub vertical_sync_hz: u32,
}

impl DisplayGeometry {
    /// The visible area lies within the total one, and one second of pixels
    /// fits in a `u32`.
    pub open spec fn wf(&self) -> bool {
        &&& 0 < self.h_display <= self.h_total
        &&& 0 < self.v_display <= self.v_total
        &&& self.h_total * self.v_total * self.vertical_sync_hz <= u32::MAX
        &&& self.h_total * self.v_total <= u32::MAX
    }

    /// Total pixels in one frame, blanking included.
    pub fn frame_pixels(&self) -> (r: u32)
        requires
            self.wf(),
        ensures
            r == self.h_total * self.v_total,
    {
        self.h_total * self.v_total
    }

    /// Visible pixels in one frame.
    pub fn visible_pixels(&self) -> (r: u32)
        requires
            self.wf(),
        ensures
            r == self.h_display * self.v_display,
    {
        proof {
            assert(self.h_display * self.v_display <= self.h_total * self.v_total)
                by (nonlinear_arith)
                requires
                    0 < self.h_display <= self.h_total,
                    0 < self.v_display <= self.v_total,
            ;
        }
        self.h_display * self.v_display
    }

    /// Pixels synthesised per second.
    pub fn dot_clock(&self) -> (r: u32)
        requires
            self.wf(),
        ensures
            r == self.h_total * self.v_total * self.vertical_sync_hz,
    {
        self.h_total * self.v_total * self.vertical_sync_hz
    }
}

/// The total index of visible index `i`: the horizontal blank is added once
/// for each completed visible line, and the vertical blank once for each
/// completed visible frame.
pub open spec fn total_index_of(g: DisplayGeometry, i: int) -> int {
    i + (i / (g.h_display as int)) * (g.h_total - g.h_display) + (i / (g.h_display
        * g.v_display)) * g.h_total * (g.v_total - g.v_display)
}

/// Within the visible area, visible index `i` sits at line `i / h_display`
/// and column `i % h_display` of the total frame.
pub proof fn lemma_visible_position(g: DisplayGeometry, i: int)
    requires
        g.wf(),
        0 <= i < g.h_display * g.v_display,
    ensures
        total_index_of(g, i) == (i / (g.h_display as int)) * g.h_total + i % (
        g.h_display as int),
        0 <= total_index_of(g, i) < g.h_total * g.v_total,
{
    let hd = g.h_display as int;
    let vd = g.v_display as int;
    let ht = g.h_total as int;
    let vt = g.v_total as int;
    lemma_fundamental_div_mod(i, hd);
    lemma_small_div_converse_helper(i, hd * vd);
    let row = i / hd;
    let col = i % hd;
    assert(row < vd) by {
        lemma_div_is_ordered(i, hd * vd - 1, hd);
        assert(hd * vd - 1 == (vd - 1) * hd + (hd - 1)) by (nonlinear_arith);
        lemma_fundamental_div_mod_converse_div(hd * vd - 1, hd, vd - 1, hd - 1);
    }
    lemma_div_pos_is_pos(i, hd);
    assert(row * ht + col < ht * vt) by (nonlinear_arith)
        requires
            0 <= row < vd,
            0 <= col < hd,
            hd <= ht,
            vd <= vt,
    ;
    assert(i + row * (ht - hd) == row * ht + col) by (nonlinear_arith)
        requires
            i == hd * row + col,
    ;
    let z = i / (hd * vd);
    assert(z == 0);
    assert(z * ht * (vt - vd) == 0) by (nonlinear_arith)
        requires
            z == 0,
    ;
}

proof fn lemma_small_div_converse_helper(i: int, n: int)
    requires
        0 <= i < n,
    ensures
        i / n == 0,
{
    lemma_fundamental_div_mod_converse_div(i, n, 0, i);
}

/// Maps a visible pixel index to its index in the total frame timing.
pub fn visible_to_total_index(geometry: &DisplayGeometry, pixel_index: usize) -> (r: u32)
    requires
        geometry.wf(),
        total_index_of(*geometry, pixel_index as int) <= u32::MAX,
    ensures
        r == total_index_of(*geometry, pixel_index as int),
{
    let i: u128 = pixel_index as u128;
    let hd: u128 = geometry.h_display as u128;
    let vd: u128 = geometry.v_display as u128;
    let ht: u128 = geometry.h_total as u128;
    let vt: u128 = geometry.v_total as u128;
    proof {
        let (ii, hh, vv, hhh, vvv) = (i as int, hd as int, vd as int, ht as int, vt as int);
        assert(hh * vv > 0 && hh * vv <= 0xffff_ffff * 0xffff_ffffint) by (nonlinear_arith)
            requires
                0 < hh <= 0xffff_ffff,
                0 < vv <= 0xffff_ffff,
        ;
        lemma_div_pos_is_pos(ii, hh);
        lemma_div_pos_is_pos(ii, hh * vv);
        lemma_mul_nonneg_helper(ii / hh, hhh - hh);
        lemma_mul_nonneg_helper3(ii / (hh * vv), hhh, vvv - vv);
        lemma_div_is_ordered_by_denominator(ii, 1, hh * vv);
        lemma_div_basics(ii);
        assert((ii / (hh * vv)) * hhh <= 0xffff_ffff_ffff_ffff * 0xffff_ffffint) by (nonlinear_arith)
            requires
                0 <= ii / (hh * vv) <= ii,
                ii <= 0xffff_ffff_ffff_ffff,
                0 <= hhh <= 0xffff_ffff,
        ;
        assert(ii + (ii / hh) * (hhh - hh) + (ii / (hh * vv)) * hhh * (vvv - vv) <= 0xffff_ffff);
        assert((ii / (hh * vv)) * hhh * (vvv - vv) <= 0xffff_ffff);
    }
    let line_blanks: u128 = (i / hd) * (ht - hd);
    let frames: u128 = i / (hd * vd);
    let frame_lines: u128 = frames * ht;
    let frame_blanks: u128 = frame_lines * (vt - vd);
    (i + line_blanks + frame_blanks) as u32
}

proof fn lemma_mul_nonneg_helper(a: int, b: int)
    requires
        a >= 0,
        b >= 0,
    ensures
        a * b >= 0,
{
    assert(a * b >= 0) by (nonlinear_arith)
        requires
            a >= 0,
            b >= 0,
    ;
}

proof fn lemma_mul_nonneg_helper3(a: int, b: int, c: int)
    requires
        a >= 0,
        b >= 0,
        c >= 0,
    ensures
        a * b * c >= 0,
{
    assert(a * b * c >= 0) by (nonlinear_arith)
        requires
            a >= 0,
            b >= 0,
            c >= 0,
    ;
}

/// The 8-bit gray value of a level: `round(a * 127.5 + 127.5)` for the
/// amplitude `a = level / FULL_SCALE`, halves rounded up.
pub open spec fn gray_of(level: int) -> int {
    (255 * (level + FULL_SCALE) + FULL_SCALE) / (2 * FULL_SCALE)
}

/// Maps a level in `[-1, 1]` to an 8-bit gray value.
pub fn grayscale(level: i32) -> (r: u8)
    requires
        -FULL_SCALE <= level <= FULL_SCALE,
    ensures
        r == gray_of(level as int),
{
    let shifted: u32 = (level + FULL_SCALE) as u32;
    proof {
        lemma_div_is_ordered(
            255 * shifted + FULL_SCALE,
            255 * 65536 + FULL_SCALE,
            65536,
        );
        lemma_fundamental_div_mod_converse_div(255 * 65536 + FULL_SCALE, 65536, 255, 32768);
    }
    ((255 * shifted + FULL_SCALE as u32) / 65536) as u8
}

} // verus!
