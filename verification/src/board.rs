//! The board model: discs, pegs (rods), and the stacking rule. Each rod
//! owns an ordered stack of discs, bottom-most first; ranks strictly
//! decrease from bottom to top, and a disc may only rest on an empty rod or
//! on a strictly larger disc. This module holds the single legality rule of
//! the whole game.

use vstd::prelude::*;

use crate::config::Config;
use crate::geometry::{
    calc_rod_center, rod_dropbox_end, rod_dropbox_start, spec_disc_width, spec_div_boundary,
    spec_in_dropbox, spec_rod_center,
};

verus! {

/// A ranked, stackable game piece; lower rank = smaller. The width is
/// derived from the rank once, at creation.
#[derive(Clone, Copy, Debug, PartialEq, Eq, Structural)]
pub struct Disc {
    /// 0 = smallest; unique across the whole board.
    pub rank: u32,
    /// Rendered width, linear in the rank.
    pub width: u32,
}

/// A vertical slot holding an ordered stack of discs, together with its
/// precomputed horizontal placement.
#[derive(Debug)]
pub struct Rod {
    /// Position of this rod on the board, `0 .. n_rods`.
    pub index: u32,
    /// Horizontal center of the rod sprite and of every stacked disc.
    pub center_x: u32,
    /// Left end of the rod's dropbox interval.
    pub dropbox_start: u32,
    /// Right end (exclusive) of the rod's dropbox interval.
    pub dropbox_end: u32,
    /// The stack: index 0 is the bottom-most disc, the last is the top.
    pub discs: Vec<Disc>,
}

/// A single disc is valid for a configuration: rank in range and width
/// derived from the rank.
pub open spec fn disc_wf(cfg: Config, d: Disc) -> bool {
    &&& d.rank < cfg.n_discs
    &&& d.width == spec_disc_width(cfg, d.rank as int)
}

/// A stack is valid: every disc is valid and ranks strictly decrease from
/// bottom to top (every disc is smaller than every disc below it).
pub open spec fn stack_wf(cfg: Config, s: Seq<Disc>) -> bool {
    &&& forall|k: int| 0 <= k < s.len() ==> disc_wf(cfg, #[trigger] s[k])
    &&& forall|i: int, j: int| 0 <= i < j < s.len() ==> s[j].rank < s[i].rank
}

/// A rod is valid at position `i`: its placement matches the geometry of
/// the configuration and its stack is valid.
pub open spec fn rod_wf(cfg: Config, r: Rod, i: int) -> bool {
    &&& r.index == i
    &&& r.center_x == spec_rod_center(cfg, i)
    &&& r.dropbox_start == spec_div_boundary(cfg, i)
    &&& r.dropbox_end == spec_div_boundary(cfg, i + 1)
    &&& stack_wf(cfg, r.discs@)
}

/// The stacking rule on a stack: a disc may land on an empty stack or on a
/// strictly larger top disc.
pub open spec fn spec_can_accept(s: Seq<Disc>, d: Disc) -> bool {
    s.len() == 0 || d.rank < s.last().rank
}

impl Rod {
    /// The rod's top disc, if any.
    pub fn top_disc(&self) -> (r: Option<Disc>)
        ensures
            r == (if self.discs@.len() == 0 {
                Option::<Disc>::None
            } else {
                Option::Some(self.discs@.last())
            }),
    {
        if self.discs.len() == 0 {
            None
        } else {
            Some(self.discs[self.discs.len() - 1])
        }
    }

    /// The legality rule of the game: true iff this rod is empty or `disc`
    /// is smaller than its top disc.
    pub fn can_accept(&self, disc: &Disc) -> (r: bool)
        ensures
            r == spec_can_accept(self.discs@, *disc),
    {
        let n = self.discs.len();
        n == 0 || disc.rank < self.discs[n - 1].rank
    }

    /// Pop the top disc; the rod must not be empty.
    pub fn remove_top(&mut self) -> (d: Disc)
        requires
            old(self).discs@.len() > 0,
        ensures
            d == old(self).discs@.last(),
            final(self).discs@ == old(self).discs@.drop_last(),
            final(self).index == old(self).index,
            final(self).center_x == old(self).center_x,
            final(self).dropbox_start == old(self).dropbox_start,
            final(self).dropbox_end == old(self).dropbox_end,
    {
        let d = self.discs.pop().unwrap();
        proof {
            assert(final(self).discs@ =~= old(self).discs@.drop_last());
        }
        d
    }

    /// Append a disc on top. The caller is responsible for having checked
    /// `can_accept`, or for performing the revert-to-source fallback, which
    /// is always legal.
    pub fn push(&mut self, d: Disc)
        ensures
            final(self).discs@ == old(self).discs@.push(d),
            final(self).index == old(self).index,
            final(self).center_x == old(self).center_x,
            final(self).dropbox_start == old(self).dropbox_start,
            final(self).dropbox_end == old(self).dropbox_end,
    {
        self.discs.push(d);
    }

    /// Pointer x-coordinate `x` lies within this rod's dropbox interval.
    pub fn pos_in_dropbox(&self, cfg: &Config, x: i64) -> (r: bool)
        requires
            cfg.wf(),
            rod_wf(*cfg, *self, self.index as int),
        ensures
            r == spec_in_dropbox(*cfg, self.index as int, x as int),
    {
        (self.dropbox_start as i64) <= x && x < (self.dropbox_end as i64)
    }
}

/// The rank a dropped disc must beat on this stack: the top disc's rank,
/// or the largest `u32` when the stack is empty so that every disc is
/// accepted.
pub fn calc_rod_value(discs: &Vec<Disc>) -> (v: u32)
    ensures
        v == (if discs@.len() == 0 {
            u32::MAX
        } else {
            discs@.last().rank
        }),
{
    if discs.len() < 1 {
        u32::MAX
    } else {
        discs[discs.len() - 1].rank
    }
}

/// Pushing an acceptable disc onto a valid stack keeps the stack valid.
pub proof fn lemma_push_preserves_stack_wf(cfg: Config, s: Seq<Disc>, d: Disc)
    requires
        stack_wf(cfg, s),
        disc_wf(cfg, d),
        spec_can_accept(s, d),
    ensures
        stack_wf(cfg, s.push(d)),
{
    let t = s.push(d);
    assert forall|i: int, j: int| 0 <= i < j < t.len() implies t[j].rank < t[i].rank by {
        if j == t.len() - 1 {
            if s.len() > 0 && i < s.len() - 1 {
                assert(s[s.len() - 1].rank < s[i].rank);
            }
        }
    }
}

/// Removing the top disc keeps the stack valid, and the removed disc can
/// always land back: the stack left behind accepts it.
pub proof fn lemma_remove_top_stack_wf(cfg: Config, s: Seq<Disc>)
    requires
        stack_wf(cfg, s),
        s.len() > 0,
    ensures
        stack_wf(cfg, s.drop_last()),
        spec_can_accept(s.drop_last(), s.last()),
{
    if s.len() > 1 {
        assert(s[s.len() - 1].rank < s[s.len() - 2].rank);
    }
}

/// In a valid stack, the disc at position `k` has rank at least
/// `len - 1 - k`: ranks strictly decrease toward the top and stop at 0.
pub proof fn lemma_rank_lower_bound(cfg: Config, s: Seq<Disc>, k: int)
    requires
        stack_wf(cfg, s),
        0 <= k < s.len(),
    ensures
        s[k].rank >= s.len() - 1 - k,
    decreases s.len() - k,
{
    if k < s.len() - 1 {
        lemma_rank_lower_bound(cfg, s, k + 1);
    }
}

/// A valid stack holds at most `n_discs` discs: its ranks are distinct
/// values below `n_discs`.
pub proof fn lemma_stack_len_bound(cfg: Config, s: Seq<Disc>)
    requires
        stack_wf(cfg, s),
    ensures
        s.len() <= cfg.n_discs,
{
    if s.len() > 0 {
        lemma_rank_lower_bound(cfg, s, 0);
    }
}

/// Build rod `i` of the board with an empty stack.
pub fn make_rod(cfg: &Config, i: u32) -> (r: Rod)
    requires
        cfg.wf(),
        i < cfg.n_rods,
    ensures
        rod_wf(*cfg, r, i as int),
        r.discs@.len() == 0,
{
    Rod {
        index: i,
        center_x: calc_rod_center(cfg, i),
        dropbox_start: rod_dropbox_start(cfg, i),
        dropbox_end: rod_dropbox_end(cfg, i),
        discs: Vec::new(),
    }
}

} // verus!
