//! Pure board geometry: peg centers, dropbox intervals, stacked disc
//! positions, disc widths, and rectangle clamping. Everything works in
//! logical board coordinates; the dropbox intervals tile the board width
//! exactly, which is what makes drop-target selection unambiguous.

use vstd::prelude::*;

use crate::config::Config;
use vstd::arithmetic::div_mod::{
    lemma_div_is_ordered, lemma_div_multiples_vanish, lemma_div_of0,
    lemma_fundamental_div_mod, lemma_mod_division_less_than_divisor,
};
use vstd::arithmetic::mul::lemma_mul_inequality;

verus! {

/// Left end of peg `i`'s dropbox: the board width is divided into
/// `n_rods` near-equal slices, with boundaries at `(i * width) / n_rods`.
pub open spec fn spec_div_boundary(cfg: Config, i: int) -> int {
    (i * cfg.board_width) / (cfg.n_rods as int)
}

/// Pointer x-coordinate `x` targets peg `i`: the dropbox interval is
/// half-open, `[boundary(i), boundary(i + 1))`.
pub open spec fn spec_in_dropbox(cfg: Config, i: int, x: int) -> bool {
    spec_div_boundary(cfg, i) <= x < spec_div_boundary(cfg, i + 1)
}

/// Horizontal center of peg `i`: the midpoint of its board slice,
/// `(width / n_rods) * (i + 1/2)` carried out in integers.
pub open spec fn spec_rod_center(cfg: Config, i: int) -> int {
    ((2 * i + 1) * cfg.board_width) / (2 * cfg.n_rods as int)
}

/// Top y-coordinate of the disc at stack position `pos` (0 = bottom-most,
/// resting on the base line): discs stack upward from `rod_base_y`.
pub open spec fn spec_stack_y(cfg: Config, pos: int) -> int {
    cfg.rod_base_y - cfg.disc_height * (pos + 1)
}

/// Width of the disc of rank `rank`: linear interpolation between the
/// smallest and the largest width, in steps of
/// `(max - min) / (n_discs - 1)`.
pub open spec fn spec_disc_width(cfg: Config, rank: int) -> int {
    cfg.disc_width_min + ((cfg.disc_width_max - cfg.disc_width_min) / (cfg.n_discs - 1)) * rank
}

/// One axis of rectangle clamping: move coordinate `v` of a segment of
/// length `size` so the segment lies within `[0, bound]`, checking the low
/// edge first.
pub open spec fn spec_clamp_coord(v: int, size: int, bound: int) -> int {
    if v < 0 {
        0
    } else if v > bound - size {
        bound - size
    } else {
        v
    }
}

/// Left end of peg `i`'s dropbox.
pub fn rod_dropbox_start(cfg: &Config, i: u32) -> (r: u32)
    requires
        cfg.wf(),
        i <= cfg.n_rods,
    ensures
        r == spec_div_boundary(*cfg, i as int),
        r <= cfg.board_width,
{
    proof {
        lemma_boundary_in_range(*cfg, i as int);
        assert((i as int) * (cfg.board_width as int) <= 1000000 * 1000000) by (nonlinear_arith)
            requires
                0 <= i <= 1000000,
                0 <= cfg.board_width <= 1000000,
        ;
    }
    (((i as u64) * (cfg.board_width as u64)) / (cfg.n_rods as u64)) as u32
}

/// Right end (exclusive) of peg `i`'s dropbox.
pub fn rod_dropbox_end(cfg: &Config, i: u32) -> (r: u32)
    requires
        cfg.wf(),
        i < cfg.n_rods,
    ensures
        r == spec_div_boundary(*cfg, i as int + 1),
        r <= cfg.board_width,
{
    rod_dropbox_start(cfg, i + 1)
}

/// Horizontal center of peg `i`.
pub fn calc_rod_center(cfg: &Config, i: u32) -> (r: u32)
    requires
        cfg.wf(),
        i < cfg.n_rods,
    ensures
        r == spec_rod_center(*cfg, i as int),
        r <= cfg.board_width,
{
    proof {
        assert((2 * (i as int) + 1) * (cfg.board_width as int) <= 2000001 * 1000000)
            by (nonlinear_arith)
            requires
                0 <= i <= 1000000,
                0 <= cfg.board_width <= 1000000,
        ;
    }
    let num: u64 = (2 * (i as u64) + 1) * (cfg.board_width as u64);
    let den: u64 = 2 * (cfg.n_rods as u64);
    proof {
        let w = cfg.board_width as int;
        let r2 = 2 * (cfg.n_rods as int);
        assert((2 * i + 1) * w <= r2 * w) by (nonlinear_arith)
            requires
                2 * i + 1 <= r2,
                w >= 0,
        ;
        lemma_div_is_ordered((2 * i + 1) * w, r2 * w, r2);
        lemma_div_multiples_vanish(w, r2);
    }
    (num / den) as u32
}

/// Top y-coordinate of the disc at stack position `pos`.
pub fn calc_stacked_y(cfg: &Config, pos: u32) -> (y: i64)
    requires
        cfg.wf(),
        pos < cfg.n_discs,
    ensures
        y == spec_stack_y(*cfg, pos as int),
        0 <= y <= cfg.rod_base_y,
{
    proof {
        lemma_mul_inequality(pos as int + 1, cfg.n_discs as int, cfg.disc_height as int);
        assert((pos as int + 1) * cfg.disc_height == cfg.disc_height * (pos as int + 1))
            by (nonlinear_arith);
        assert(cfg.n_discs * cfg.disc_height == cfg.disc_height * cfg.n_discs)
            by (nonlinear_arith);
    }
    (cfg.rod_base_y as i64) - (cfg.disc_height as i64) * ((pos as i64) + 1)
}

/// Width of the disc of rank `rank`.
pub fn calc_disc_width(cfg: &Config, rank: u32) -> (w: u32)
    requires
        cfg.wf(),
        rank < cfg.n_discs,
    ensures
        w == spec_disc_width(*cfg, rank as int),
        cfg.disc_width_min <= w <= cfg.disc_width_max,
{
    let span: u32 = cfg.disc_width_max - cfg.disc_width_min;
    let step: u32 = span / (cfg.n_discs - 1);
    proof {
        let d = span as int;
        let n1 = cfg.n_discs as int - 1;
        lemma_fundamental_div_mod(d, n1);
        lemma_mod_division_less_than_divisor(d, n1);
        assert(n1 * (d / n1) == (d / n1) * n1) by (nonlinear_arith);
        lemma_mul_inequality(rank as int, n1, step as int);
        assert((rank as int) * step == (step as int) * rank) by (nonlinear_arith);
        assert((n1 as int) * step == (step as int) * n1) by (nonlinear_arith);
    }
    cfg.disc_width_min + step * rank
}

/// Clamp a rectangle's top-left corner so the whole `width` x `height`
/// rectangle stays within `[0, bound_w] x [0, bound_h]`; keeps a dragged
/// disc's sprite on the board even when the pointer leaves it.
pub fn clamp_rect_position(
    x: i64,
    y: i64,
    width: u32,
    height: u32,
    bound_w: u32,
    bound_h: u32,
) -> (r: (i64, i64))
    requires
        -8 * crate::COORD_MAX <= x <= 8 * crate::COORD_MAX,
        -8 * crate::COORD_MAX <= y <= 8 * crate::COORD_MAX,
    ensures
        r.0 == spec_clamp_coord(x as int, width as int, bound_w as int),
        r.1 == spec_clamp_coord(y as int, height as int, bound_h as int),
{
    let mut new_pos_x: i64 = x;
    let mut new_pos_y: i64 = y;

    if new_pos_x < 0 {
        new_pos_x = 0;
    } else if new_pos_x > (bound_w as i64) - (width as i64) {
        new_pos_x = (bound_w as i64) - (width as i64);
    }

    if new_pos_y < 0 {
        new_pos_y = 0;
    } else if new_pos_y > (bound_h as i64) - (height as i64) {
        new_pos_y = (bound_h as i64) - (height as i64);
    }

    (new_pos_x, new_pos_y)
}

/// The dropbox boundaries stay within the board: `0 <= boundary(i) <= width`.
pub proof fn lemma_boundary_in_range(cfg: Config, i: int)
    requires
        cfg.wf(),
        0 <= i <= cfg.n_rods,
    ensures
        0 <= spec_div_boundary(cfg, i) <= cfg.board_width,
{
    let w = cfg.board_width as int;
    let r = cfg.n_rods as int;
    assert(0 <= i * w) by (nonlinear_arith)
        requires
            0 <= i,
            0 <= w,
    ;
    assert(i * w <= r * w) by (nonlinear_arith)
        requires
            i <= r,
            0 <= w,
    ;
    lemma_div_of0(r);
    assert((0 as int) * w == 0);
    lemma_div_is_ordered(0, i * w, r);
    lemma_div_is_ordered(i * w, r * w, r);
    lemma_div_multiples_vanish(w, r);
}

/// Dropbox boundaries are monotone in the peg index.
pub proof fn lemma_boundary_monotone(cfg: Config, i: int, j: int)
    requires
        cfg.wf(),
        i <= j,
    ensures
        spec_div_boundary(cfg, i) <= spec_div_boundary(cfg, j),
{
    let w = cfg.board_width as int;
    let r = cfg.n_rods as int;
    assert(i * w <= j * w) by (nonlinear_arith)
        requires
            i <= j,
            0 <= w,
    ;
    lemma_div_is_ordered(i * w, j * w, r);
}

/// Every x within the board belongs to some dropbox at or after `i`, as
/// long as it lies past `i`'s left boundary.
proof fn lemma_dropbox_exists_from(cfg: Config, x: int, i: int)
    requires
        cfg.wf(),
        0 <= i < cfg.n_rods,
        spec_div_boundary(cfg, i) <= x < cfg.board_width,
    ensures
        exists|j: int| i <= j < cfg.n_rods && spec_in_dropbox(cfg, j, x),
    decreases cfg.n_rods - i,
{
    if x < spec_div_boundary(cfg, i + 1) {
        assert(spec_in_dropbox(cfg, i, x));
    } else {
        let w = cfg.board_width as int;
        let r = cfg.n_rods as int;
        lemma_div_multiples_vanish(w, r);
        assert(r * w == w * r) by (nonlinear_arith);
        assert(spec_div_boundary(cfg, r) == w);
        assert(i + 1 < r);
        lemma_dropbox_exists_from(cfg, x, i + 1);
        let j = choose|j: int| i + 1 <= j < cfg.n_rods && spec_in_dropbox(cfg, j, x);
        assert(spec_in_dropbox(cfg, j, x));
    }
}

/// Dropbox partition law: for any well-formed configuration, the dropbox
/// intervals of the pegs exactly tile `[0, board_width)` — every x inside
/// the board lies in exactly one peg's dropbox, and no x outside it lies
/// in any.
pub proof fn lemma_dropbox_partition(cfg: Config, x: int)
    requires
        cfg.wf(),
    ensures
        (0 <= x < cfg.board_width) <==> (exists|i: int|
            0 <= i < cfg.n_rods && spec_in_dropbox(cfg, i, x)),
        forall|i: int, j: int|
            0 <= i < cfg.n_rods && 0 <= j < cfg.n_rods && i != j ==> !(spec_in_dropbox(cfg, i, x)
                && spec_in_dropbox(cfg, j, x)),
{
    let w = cfg.board_width as int;
    let r = cfg.n_rods as int;
    lemma_div_of0(r);
    assert((0 as int) * w == 0);
    assert(spec_div_boundary(cfg, 0) == 0);
    if 0 <= x < w {
        lemma_dropbox_exists_from(cfg, x, 0);
    }
    if exists|i: int| 0 <= i < cfg.n_rods && spec_in_dropbox(cfg, i, x) {
        let i = choose|i: int| 0 <= i < cfg.n_rods && spec_in_dropbox(cfg, i, x);
        lemma_boundary_monotone(cfg, 0, i);
        lemma_boundary_monotone(cfg, i + 1, r);
        lemma_div_multiples_vanish(w, r);
        assert(r * w == w * r) by (nonlinear_arith);
        assert(0 <= x < w);
    }
    assert forall|i: int, j: int|
        0 <= i < cfg.n_rods && 0 <= j < cfg.n_rods && i != j implies !(spec_in_dropbox(cfg, i, x)
        && spec_in_dropbox(cfg, j, x)) by {
        if spec_in_dropbox(cfg, i, x) && spec_in_dropbox(cfg, j, x) {
            if i < j {
                lemma_boundary_monotone(cfg, i + 1, j);
            } else {
                lemma_boundary_monotone(cfg, j + 1, i);
            }
        }
    }
}

} // verus!
