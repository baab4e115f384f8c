//! The render projection: a pure, stateless description of one frame.
//! Given the board state and the current play-area frame it produces, in
//! draw order, the play-area background, one sprite per rod, every stacked
//! disc bottom to top, and — last, so it draws on top — the floating disc.
//! All highlight flags are recomputed here from the state; nothing is
//! stored. No legality logic lives here.

use vstd::prelude::*;

use crate::board::lemma_stack_len_bound;
use crate::config::Config;
use crate::framing::Frame;
use crate::geometry::{
    calc_stacked_y, clamp_rect_position, spec_clamp_coord, spec_rod_center, spec_stack_y,
};
use crate::play_area::{DragState, PlayArea};

verus! {

/// One rod sprite: its rectangle in window coordinates and whether it
/// draws in its highlighted variant.
#[derive(Clone, Copy, Debug, PartialEq, Eq, Structural)]
pub struct RodView {
    pub x: i64,
    pub y: i64,
    pub width: u32,
    pub height: u32,
    pub highlighted: bool,
}

/// One disc sprite: anchor (center-x, top-y) in window coordinates, the
/// disc's rank (which selects its tint), width, and highlight variant.
#[derive(Clone, Copy, Debug, PartialEq, Eq, Structural)]
pub struct DiscView {
    pub rank: u32,
    pub center_x: i64,
    pub top_y: i64,
    pub width: u32,
    pub highlighted: bool,
}

/// Everything one frame draws, in order: background, rods, stacked discs
/// (per rod, bottom to top), then the floating disc on top of all.
#[derive(Debug)]
pub struct Scene {
    /// Play-area background rectangle, window coordinates.
    pub back_x: i64,
    pub back_y: i64,
    pub back_width: u32,
    pub back_height: u32,
    /// One view per rod, in index order.
    pub rods: Vec<RodView>,
    /// Stacked disc views: `discs[i][k]` is rod `i`'s disc at height `k`.
    pub discs: Vec<Vec<DiscView>>,
    /// The disc in hand, if any; drawn last.
    pub floating: Option<DiscView>,
}

/// The rod sprite of rod `i` under frame `f`.
pub open spec fn rod_view_matches(p: PlayArea, f: Frame, i: int, v: RodView) -> bool {
    &&& v.x == spec_rod_center(p.config, i) - (p.config.rod_width as int) / 2 + f.offset_x
    &&& v.y == p.config.rod_base_y - p.config.rod_height + f.offset_y
    &&& v.width == p.config.rod_width
    &&& v.height == p.config.rod_height
    &&& v.highlighted == p.spec_rod_highlight(i)
}

/// The disc sprite of rod `i`'s disc at stack position `k` under frame
/// `f`: centered on the rod, stacked upward from the base line, lit iff
/// it is the hovered top disc.
pub open spec fn stacked_disc_view_matches(p: PlayArea, f: Frame, i: int, k: int, v: DiscView)
    -> bool {
    let d = p.rods@[i].discs@[k];
    &&& v.rank == d.rank
    &&& v.width == d.width
    &&& v.center_x == spec_rod_center(p.config, i) + f.offset_x
    &&& v.top_y == spec_stack_y(p.config, k) + f.offset_y
    &&& v.highlighted == (p.spec_disc_hover(i) && k == p.rods@[i].discs@.len() - 1)
}

/// Logical left edge of the floating disc: pointer plus pick-up offset
/// gives the desired anchor, then the rectangle is clamped into the
/// board so the sprite never leaves the play area.
pub open spec fn spec_float_left(p: PlayArea) -> int {
    spec_clamp_coord(
        p.mouse_x + p.spec_offset_x() - (p.spec_held_disc().width as int) / 2,
        p.spec_held_disc().width as int,
        p.config.board_width as int,
    )
}

/// Logical top edge of the floating disc, clamped into the board.
pub open spec fn spec_float_top(p: PlayArea) -> int {
    spec_clamp_coord(
        p.mouse_y + p.spec_offset_y(),
        p.config.disc_height as int,
        p.config.board_height as int,
    )
}

/// The floating disc's sprite under frame `f`: clamped logical position
/// translated by the frame offset. The disc in hand draws in its
/// highlighted variant.
pub open spec fn floating_view_matches(p: PlayArea, f: Frame, v: DiscView) -> bool {
    let d = p.spec_held_disc();
    &&& v.rank == d.rank
    &&& v.width == d.width
    &&& v.center_x == spec_float_left(p) + (d.width as int) / 2 + f.offset_x
    &&& v.top_y == spec_float_top(p) + f.offset_y
    &&& v.highlighted == true
}

/// Frame-shift law: the clamp happens in logical board coordinates, so
/// when the window is resized mid-drag the floating disc's rendered
/// position shifts by exactly the change in the centering offset, while
/// the logical drag state is untouched.
pub proof fn lemma_floating_shift(p: PlayArea, f1: Frame, f2: Frame, v1: DiscView, v2: DiscView)
    requires
        floating_view_matches(p, f1, v1),
        floating_view_matches(p, f2, v2),
    ensures
        v2.center_x - v1.center_x == f2.offset_x - f1.offset_x,
        v2.top_y - v1.top_y == f2.offset_y - f1.offset_y,
{
}

/// One axis-aligned rectangle a disc slice is drawn into, window
/// coordinates.
#[derive(Clone, Copy, Debug, PartialEq, Eq, Structural)]
pub struct SliceRect {
    pub x: i64,
    pub y: i64,
    pub width: i64,
    pub height: u32,
}

/// A disc sprite is drawn as three texture slices — a left cap, a
/// stretched middle, and a right cap — so one set of textures fits every
/// disc width.
#[derive(Clone, Copy, Debug, PartialEq, Eq, Structural)]
pub struct DiscSlices {
    pub left: SliceRect,
    pub middle: SliceRect,
    pub right: SliceRect,
}

/// Cut a disc view into its three slice rectangles: caps one
/// twelfth of the disc height wide, the middle stretched over the rest.
pub fn disc_slices(cfg: &Config, v: &DiscView) -> (s: DiscSlices)
    requires
        cfg.wf(),
        -8 * crate::COORD_MAX <= v.center_x <= 8 * crate::COORD_MAX,
        -8 * crate::COORD_MAX <= v.top_y <= 8 * crate::COORD_MAX,
        2 * (cfg.disc_height as int / 12) <= v.width,
    ensures
        ({
            let pixel = cfg.disc_height as int / 12;
            let x = v.center_x - (v.width as int) / 2;
            &&& s.left.x == x
            &&& s.left.y == v.top_y
            &&& s.left.width == pixel
            &&& s.left.height == cfg.disc_height
            &&& s.middle.x == x + pixel
            &&& s.middle.y == v.top_y
            &&& s.middle.width == v.width - 2 * pixel
            &&& s.middle.height == cfg.disc_height
            &&& s.right.x == x + v.width - pixel
            &&& s.right.y == v.top_y
            &&& s.right.width == pixel
            &&& s.right.height == cfg.disc_height
        }),
{
    let pixel: i64 = (cfg.disc_height / 12) as i64;
    let x: i64 = v.center_x - ((v.width / 2) as i64);
    let left = SliceRect { x, y: v.top_y, width: pixel, height: cfg.disc_height };
    let middle = SliceRect {
        x: x + pixel,
        y: v.top_y,
        width: (v.width as i64) - 2 * pixel,
        height: cfg.disc_height,
    };
    let right = SliceRect {
        x: x + (v.width as i64) - pixel,
        y: v.top_y,
        width: pixel,
        height: cfg.disc_height,
    };
    DiscSlices { left, middle, right }
}

/// Multiply one color channel by a tint channel, both in `0 ..= 255`,
/// rescaled back into `0 ..= 255`. Applying this to every pixel of a
/// grayscale sprite colorizes it.
pub fn tint_channel(value: u8, tint: u8) -> (r: u8)
    ensures
        r == (value as int * tint as int) / 255,
{
    proof {
        assert((value as int) * (tint as int) <= 255 * 255) by (nonlinear_arith)
            requires
                0 <= value <= 255,
                0 <= tint <= 255,
        ;
        assert(0 <= (value as int) * (tint as int)) by (nonlinear_arith)
            requires
                0 <= value,
                0 <= tint,
        ;
        vstd::arithmetic::div_mod::lemma_div_is_ordered(
            (value as int) * (tint as int),
            65025,
            255,
        );
    }
    (((value as u32) * (tint as u32)) / 255) as u8
}

/// An HSV color triple, each channel in `0 .. 256`.
#[derive(Clone, Copy, Debug, PartialEq, Eq, Structural)]
pub struct Hsv {
    pub h: u8,
    pub s: u8,
    pub v: u8,
}

/// Tint for disc `disc` of `n_discs`: hue swept evenly across `[0, 255]`
/// in proportion to the rank, at full saturation and value. The texture
/// loader turns this into an RGB tint for the disc's sprite.
pub fn compute_disc_color(disc: u32, n_discs: u32) -> (c: Hsv)
    requires
        1 <= n_discs,
        disc < n_discs,
    ensures
        c.h == (255 as int / n_discs as int) * disc,
        c.s == 255,
        c.v == 255,
{
    proof {
        let n = n_discs as int;
        let q = 255 as int / n;
        vstd::arithmetic::div_mod::lemma_fundamental_div_mod(255, n);
        vstd::arithmetic::div_mod::lemma_mod_division_less_than_divisor(255, n);
        assert(n * q == q * n) by (nonlinear_arith);
        vstd::arithmetic::mul::lemma_mul_inequality(disc as int, n - 1, q);
        assert((disc as int) * q == q * disc) by (nonlinear_arith);
        assert((n - 1) * q == q * (n - 1)) by (nonlinear_arith);
        assert(q * (n - 1) <= q * n) by (nonlinear_arith)
            requires
                q >= 0,
                n >= 1,
        ;
    }
    Hsv { h: ((255 / n_discs) * disc) as u8, s: 255, v: 255 }
}

impl PlayArea {
    /// Advisory rod highlight, evaluated live: while dragging, rod `i`
    /// lights up iff the pointer is in its dropbox and it accepts the
    /// held disc. This is the same `can_accept` the drop decision uses,
    /// so the preview never disagrees with the commit.
    pub fn rod_highlight(&self, i: usize) -> (r: bool)
        requires
            self.wf(),
            i < self.rods@.len(),
        ensures
            r == self.spec_rod_highlight(i as int),
    {
        match &self.drag {
            DragState::Idle => false,
            DragState::Dragging { disc, .. } => {
                let d = *disc;
                self.rods[i].pos_in_dropbox(&self.config, self.mouse_x) && self.rods[i].can_accept(
                    &d,
                )
            },
        }
    }

    /// Project one frame. The scene is pinned exactly: background at the
    /// frame offset, rod `i`'s sprite per `rod_view_matches`, disc views
    /// per `stacked_disc_view_matches`, and the floating disc present iff
    /// a drag is in progress.
    pub fn render(&self, frame: &Frame) -> (scene: Scene)
        requires
            self.wf(),
            frame.fits(self.config),
        ensures
            scene.back_x == frame.offset_x,
            scene.back_y == frame.offset_y,
            scene.back_width == self.config.board_width,
            scene.back_height == self.config.board_height,
            scene.rods@.len() == self.rods@.len(),
            forall|i: int|
                0 <= i < self.rods@.len() ==> rod_view_matches(
                    *self,
                    *frame,
                    i,
                    #[trigger] scene.rods@[i],
                ),
            scene.discs@.len() == self.rods@.len(),
            forall|i: int|
                0 <= i < self.rods@.len() ==> #[trigger] scene.discs@[i]@.len()
                    == self.rods@[i].discs@.len(),
            forall|i: int, k: int|
                0 <= i < self.rods@.len() && 0 <= k < self.rods@[i].discs@.len()
                    ==> stacked_disc_view_matches(
                    *self,
                    *frame,
                    i,
                    k,
                    #[trigger] scene.discs@[i]@[k],
                ),
            (match scene.floating {
                Some(v) => self.drag is Dragging && floating_view_matches(*self, *frame, v),
                None => self.drag is Idle,
            }),
    {
        let mut rod_views: Vec<RodView> = Vec::new();
        let mut disc_views: Vec<Vec<DiscView>> = Vec::new();
        let n = self.rods.len();
        let mut i: usize = 0;
        while i < n
            invariant
                self.wf(),
                frame.fits(self.config),
                n == self.rods@.len(),
                i <= n,
                rod_views@.len() == i,
                forall|j: int|
                    0 <= j < i as int ==> rod_view_matches(
                        *self,
                        *frame,
                        j,
                        #[trigger] rod_views@[j],
                    ),
                disc_views@.len() == i,
                forall|j: int|
                    0 <= j < i as int ==> #[trigger] disc_views@[j]@.len()
                        == self.rods@[j].discs@.len(),
                forall|j: int, k: int|
                    0 <= j < i as int && 0 <= k < self.rods@[j].discs@.len()
                        ==> stacked_disc_view_matches(
                        *self,
                        *frame,
                        j,
                        k,
                        #[trigger] disc_views@[j]@[k],
                    ),
            decreases n - i,
        {
            let rod = &self.rods[i];
            let highlighted = self.rod_highlight(i);
            rod_views.push(
                RodView {
                    x: (rod.center_x as i64) - ((self.config.rod_width / 2) as i64)
                        + frame.offset_x,
                    y: ((self.config.rod_base_y - self.config.rod_height) as i64) + frame.offset_y,
                    width: self.config.rod_width,
                    height: self.config.rod_height,
                    highlighted,
                },
            );

            let hover = match &self.drag {
                DragState::Idle => self.top_disc_hovered(i),
                DragState::Dragging { .. } => false,
            };
            let m = self.rods[i].discs.len();
            proof {
                lemma_stack_len_bound(self.config, self.rods@[i as int].discs@);
            }
            let mut stack_views: Vec<DiscView> = Vec::new();
            let mut k: usize = 0;
            while k < m
                invariant
                    self.wf(),
                    frame.fits(self.config),
                    i < self.rods@.len(),
                    m == self.rods@[i as int].discs@.len(),
                    m <= self.config.n_discs,
                    k <= m,
                    hover == self.spec_disc_hover(i as int),
                    stack_views@.len() == k,
                    forall|t: int|
                        0 <= t < k as int ==> stacked_disc_view_matches(
                            *self,
                            *frame,
                            i as int,
                            t,
                            #[trigger] stack_views@[t],
                        ),
                decreases m - k,
            {
                let d = self.rods[i].discs[k];
                stack_views.push(
                    DiscView {
                        rank: d.rank,
                        center_x: (self.rods[i].center_x as i64) + frame.offset_x,
                        top_y: calc_stacked_y(&self.config, k as u32) + frame.offset_y,
                        width: d.width,
                        highlighted: hover && k == m - 1,
                    },
                );
                k = k + 1;
            }
            disc_views.push(stack_views);
            i = i + 1;
        }

        let floating: Option<DiscView> = match &self.drag {
            DragState::Idle => None,
            DragState::Dragging { disc, offset_x, offset_y, .. } => {
                let d = *disc;
                let desired_center_x: i64 = self.mouse_x + *offset_x;
                let desired_top_y: i64 = self.mouse_y + *offset_y;
                let (left, top) = clamp_rect_position(
                    desired_center_x - ((d.width / 2) as i64),
                    desired_top_y,
                    d.width,
                    self.config.disc_height,
                    self.config.board_width,
                    self.config.board_height,
                );
                Some(
                    DiscView {
                        rank: d.rank,
                        center_x: left + ((d.width / 2) as i64) + frame.offset_x,
                        top_y: top + frame.offset_y,
                        width: d.width,
                        highlighted: true,
                    },
                )
            },
        };

        Scene {
            back_x: frame.offset_x,
            back_y: frame.offset_y,
            back_width: self.config.board_width,
            back_height: self.config.board_height,
            rods: rod_views,
            discs: disc_views,
            floating,
        }
    }

    /// Hover test for the render projection: while idle, rod `i`'s top
    /// disc lights up iff the pointer is over it.
    pub fn top_disc_hovered(&self, i: usize) -> (r: bool)
        requires
            self.wf(),
            i < self.rods@.len(),
        ensures
            r == self.spec_disc_hover(i as int),
    {
        match &self.drag {
            DragState::Idle => self.top_disc_hit(i),
            DragState::Dragging { .. } => false,
        }
    }
}

} // verus!

