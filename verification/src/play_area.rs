//! The play area: the full board state (rods with their stacks, pointer
//! position, drag state) and the drag controller. Pointer events arrive in
//! logical board coordinates; each handler preserves the board's
//! well-formedness — stack ordering and disc conservation — and its
//! contract pins down the exact state transition.

use vstd::prelude::*;

use crate::board::{
    disc_wf, lemma_push_preserves_stack_wf, lemma_remove_top_stack_wf, lemma_stack_len_bound,
    make_rod, rod_wf, spec_can_accept, stack_wf, Disc, Rod,
};
use crate::config::Config;
use crate::conservation::{
    lemma_ranks_of_push, lemma_stacks_ranks_one_rod, lemma_stacks_ranks_pop,
    lemma_stacks_ranks_push, ranks_from, ranks_of, stacks_ranks,
};
use crate::geometry::{
    calc_disc_width, calc_stacked_y, spec_in_dropbox, spec_rod_center, spec_stack_y,
};
use vstd::multiset::Multiset;

verus! {

/// Pointer button identifier at the input boundary; only the primary
/// (left) button drives the drag lifecycle, every other button is ignored.
#[derive(Clone, Copy, Debug, PartialEq, Eq, Structural)]
pub enum PointerButton {
    Left,
    Other,
}

/// The drag lifecycle: either no disc is in hand, or exactly one disc is,
/// remembered together with the rod it was lifted from and the offset of
/// its anchor point (center-x, top-y) from the pointer at pick-up time.
#[derive(Clone, Copy, Debug, PartialEq, Eq, Structural)]
pub enum DragState {
    Idle,
    Dragging { disc: Disc, source_rod: usize, offset_x: i64, offset_y: i64 },
}

/// The whole interactive board: configuration, rods with their stacks,
/// the last seen pointer position (logical board coordinates), and the
/// drag state.
#[derive(Debug)]
pub struct PlayArea {
    /// Startup configuration; never changes after `new`.
    pub config: Config,
    /// The rods, in index order; `rods[i]` is well-formed at position `i`.
    pub rods: Vec<Rod>,
    /// Last seen pointer x, in logical board coordinates.
    pub mouse_x: i64,
    /// Last seen pointer y, in logical board coordinates.
    pub mouse_y: i64,
    /// The drag lifecycle state.
    pub drag: DragState,
}

impl PlayArea {
    /// The disc in hand, if any (rank 0 placeholder while idle).
    pub open spec fn spec_held_disc(self) -> Disc
        recommends
            self.drag is Dragging,
    {
        match self.drag {
            DragState::Dragging { disc, .. } => disc,
            DragState::Idle => Disc { rank: 0, width: 0 },
        }
    }

    /// The rod the disc in hand was lifted from (0 while idle).
    pub open spec fn spec_source_rod(self) -> int
        recommends
            self.drag is Dragging,
    {
        match self.drag {
            DragState::Dragging { source_rod, .. } => source_rod as int,
            DragState::Idle => 0,
        }
    }

    /// Pointer offset, x axis: disc anchor minus pointer at pick-up time
    /// (0 while idle).
    pub open spec fn spec_offset_x(self) -> int {
        match self.drag {
            DragState::Dragging { offset_x, .. } => offset_x as int,
            DragState::Idle => 0,
        }
    }

    /// Pointer offset, y axis: disc anchor minus pointer at pick-up time
    /// (0 while idle).
    pub open spec fn spec_offset_y(self) -> int {
        match self.drag {
            DragState::Dragging { offset_y, .. } => offset_y as int,
            DragState::Idle => 0,
        }
    }

    /// Rank multiset of the disc in hand: empty while idle.
    pub open spec fn held_ranks(self) -> Multiset<u32> {
        match self.drag {
            DragState::Idle => Multiset::empty(),
            DragState::Dragging { disc, .. } => Multiset::empty().insert(disc.rank),
        }
    }

    /// Every rank on the board: all stacked discs plus the disc in hand.
    pub open spec fn board_ranks(self) -> Multiset<u32> {
        stacks_ranks(self.rods@).add(self.held_ranks())
    }

    /// Validity of the drag state. While dragging, the source rod exists
    /// and would take its disc back: the disc came off that rod's top, so
    /// the stack left behind is empty or starts with a larger disc. This
    /// is what makes the revert fallback always legal.
    pub open spec fn drag_wf(self) -> bool {
        match self.drag {
            DragState::Idle => true,
            DragState::Dragging { disc, source_rod, offset_x, offset_y } => {
                &&& source_rod < self.rods@.len()
                &&& disc_wf(self.config, disc)
                &&& spec_can_accept(self.rods@[source_rod as int].discs@, disc)
                &&& -3 * crate::COORD_MAX <= offset_x <= 3 * crate::COORD_MAX
                &&& -3 * crate::COORD_MAX <= offset_y <= 3 * crate::COORD_MAX
            },
        }
    }

    /// Full well-formedness of the board. This is the game's invariant:
    /// a valid configuration, one well-formed rod per peg (stack ordering
    /// included), a bounded pointer, a valid drag state, and conservation
    /// — the ranks across all rods plus the hand are exactly
    /// `{0, ..., n_discs - 1}`.
    pub open spec fn wf(self) -> bool {
        &&& self.config.wf()
        &&& self.rods@.len() == self.config.n_rods
        &&& forall|i: int|
            0 <= i < self.rods@.len() ==> rod_wf(self.config, #[trigger] self.rods@[i], i)
        &&& -crate::COORD_MAX <= self.mouse_x <= crate::COORD_MAX
        &&& -crate::COORD_MAX <= self.mouse_y <= crate::COORD_MAX
        &&& self.drag_wf()
        &&& self.board_ranks() == ranks_from(0, self.config.n_discs as int)
    }

    /// The pointer lies over the top disc of rod `i`, drawn at its
    /// stacked position (hit box bounds inclusive).
    pub open spec fn over_top_disc(self, i: int) -> bool {
        let s = self.rods@[i].discs@;
        &&& s.len() > 0
        &&& {
            let d = s.last();
            let left = spec_rod_center(self.config, i) - (d.width as int) / 2;
            let top = spec_stack_y(self.config, s.len() - 1);
            &&& left <= self.mouse_x <= left + d.width
            &&& top <= self.mouse_y <= top + self.config.disc_height
        }
    }

    /// Index of the first rod at or after `i` whose top disc is under the
    /// pointer.
    pub open spec fn first_pick_from(self, i: int) -> Option<int>
        decreases self.rods@.len() - i,
    {
        if i >= self.rods@.len() {
            None
        } else if self.over_top_disc(i) {
            Some(i)
        } else {
            self.first_pick_from(i + 1)
        }
    }

    /// The rod a press would lift a disc from: the first rod, in index
    /// order, whose top disc is under the pointer.
    pub open spec fn spec_picked(self) -> Option<int> {
        self.first_pick_from(0)
    }

    /// Rod `i` is a valid drop target for disc `d`: the pointer sits in
    /// its dropbox and the stacking rule allows `d` on it.
    pub open spec fn drop_ok(self, i: int, d: Disc) -> bool {
        spec_in_dropbox(self.config, i, self.mouse_x as int) && spec_can_accept(
            self.rods@[i].discs@,
            d,
        )
    }

    /// Index of the first rod at or after `i` that is a valid drop target
    /// for `d`.
    pub open spec fn first_drop_from(self, i: int, d: Disc) -> Option<int>
        decreases self.rods@.len() - i,
    {
        if i >= self.rods@.len() {
            None
        } else if self.drop_ok(i, d) {
            Some(i)
        } else {
            self.first_drop_from(i + 1, d)
        }
    }

    /// Destination of a release: the first rod in index order that passes
    /// both the dropbox test and the stacking rule; if none does, the
    /// source rod — a failed or off-target drop reverts, it never loses
    /// the disc.
    pub open spec fn spec_drop_target(self) -> int
        recommends
            self.drag is Dragging,
    {
        match self.first_drop_from(0, self.spec_held_disc()) {
            Some(i) => i,
            None => self.spec_source_rod(),
        }
    }

    /// Advisory rod highlight, recomputed from the state every frame:
    /// while dragging, rod `i` lights up iff it is a valid drop target
    /// for the held disc.
    pub open spec fn spec_rod_highlight(self, i: int) -> bool {
        match self.drag {
            DragState::Dragging { disc, .. } => self.drop_ok(i, disc),
            DragState::Idle => false,
        }
    }

    /// Hover highlight, recomputed from the state every frame: while
    /// idle, the top disc of rod `i` lights up iff the pointer is over it.
    pub open spec fn spec_disc_hover(self, i: int) -> bool {
        self.drag is Idle && self.over_top_disc(i)
    }
}

/// Build the rods of a fresh board, all stacks empty.
pub fn init_rods(cfg: &Config) -> (rods: Vec<Rod>)
    requires
        cfg.wf(),
    ensures
        rods@.len() == cfg.n_rods,
        forall|i: int| 0 <= i < rods@.len() ==> rod_wf(*cfg, #[trigger] rods@[i], i),
        forall|i: int| 0 <= i < rods@.len() ==> #[trigger] rods@[i].discs@.len() == 0,
{
    let mut rods: Vec<Rod> = Vec::new();
    let mut i: u32 = 0;
    while i < cfg.n_rods
        invariant
            cfg.wf(),
            i <= cfg.n_rods,
            rods@.len() == i,
            forall|j: int| 0 <= j < rods@.len() ==> rod_wf(*cfg, #[trigger] rods@[j], j),
            forall|j: int| 0 <= j < rods@.len() ==> #[trigger] rods@[j].discs@.len() == 0,
        decreases cfg.n_rods - i,
    {
        rods.push(make_rod(cfg, i));
        i = i + 1;
    }
    rods
}

/// Build the initial stack for the first rod: `n_discs` discs, largest at
/// the bottom, so position `k` from the bottom holds rank
/// `n_discs - 1 - k`.
pub fn init_discs(cfg: &Config) -> (discs: Vec<Disc>)
    requires
        cfg.wf(),
    ensures
        discs@.len() == cfg.n_discs,
        stack_wf(*cfg, discs@),
        forall|k: int| 0 <= k < discs@.len() ==> #[trigger] discs@[k].rank == cfg.n_discs - 1 - k,
        ranks_of(discs@) == ranks_from(0, cfg.n_discs as int),
{
    let mut discs: Vec<Disc> = Vec::new();
    let mut r: u32 = cfg.n_discs;
    proof {
        crate::conservation::lemma_ranks_of_empty(discs@);
    }
    while r > 0
        invariant
            cfg.wf(),
            r <= cfg.n_discs,
            discs@.len() == cfg.n_discs - r,
            stack_wf(*cfg, discs@),
            forall|k: int| 0 <= k < discs@.len() ==> #[trigger] discs@[k].rank == cfg.n_discs - 1
                - k,
            ranks_of(discs@) == ranks_from(r as int, cfg.n_discs as int),
        decreases r,
    {
        let rank = r - 1;
        let d = Disc { rank, width: calc_disc_width(cfg, rank) };
        proof {
            lemma_ranks_of_push(discs@, d);
        }
        discs.push(d);
        r = rank;
    }
    discs
}

impl PlayArea {
    /// A fresh game: every disc on the first rod, largest at the bottom,
    /// nothing in hand, pointer at the board origin.
    pub fn new(config: Config) -> (p: PlayArea)
        requires
            config.wf(),
        ensures
            p.wf(),
            p.config == config,
            p.drag == DragState::Idle,
            p.mouse_x == 0,
            p.mouse_y == 0,
            p.rods@.len() == config.n_rods,
            p.rods@[0].discs@.len() == config.n_discs,
            forall|k: int|
                0 <= k < config.n_discs ==> #[trigger] p.rods@[0].discs@[k].rank == config.n_discs
                    - 1 - k,
            forall|i: int|
                1 <= i < config.n_rods ==> #[trigger] p.rods@[i].discs@.len() == 0,
    {
        let mut rods = init_rods(&config);
        let discs = init_discs(&config);
        let base = Rod {
            index: rods[0].index,
            center_x: rods[0].center_x,
            dropbox_start: rods[0].dropbox_start,
            dropbox_end: rods[0].dropbox_end,
            discs,
        };
        let slot = &mut rods[0];
        *slot = base;
        let p = PlayArea { config, rods, mouse_x: 0, mouse_y: 0, drag: DragState::Idle };
        proof {
            assert(forall|i: int|
                0 <= i < p.rods@.len() ==> rod_wf(p.config, #[trigger] p.rods@[i], i));
            lemma_stacks_ranks_one_rod(p.rods@, 0);
            assert(p.board_ranks() =~= ranks_of(p.rods@[0].discs@));
        }
        p
    }

    /// The pointer is over the top disc of rod `i`, tested against the
    /// disc's rendered rectangle at its stacked position.
    pub fn top_disc_hit(&self, i: usize) -> (r: bool)
        requires
            self.wf(),
            i < self.rods@.len(),
        ensures
            r == self.over_top_disc(i as int),
    {
        let rod = &self.rods[i];
        let n = rod.discs.len();
        if n == 0 {
            return false;
        }
        proof {
            lemma_stack_len_bound(self.config, rod.discs@);
        }
        let d = rod.discs[n - 1];
        let left: i64 = (rod.center_x as i64) - ((d.width / 2) as i64);
        let top: i64 = calc_stacked_y(&self.config, (n - 1) as u32);
        left <= self.mouse_x && self.mouse_x <= left + (d.width as i64) && top <= self.mouse_y
            && self.mouse_y <= top + (self.config.disc_height as i64)
    }

    /// Record a pointer move. The board and the drag state are untouched:
    /// highlights are not stored state but are recomputed from the new
    /// pointer position by the render projection.
    pub fn mouse_moved(&mut self, x: i64, y: i64)
        requires
            old(self).wf(),
            -crate::COORD_MAX <= x <= crate::COORD_MAX,
            -crate::COORD_MAX <= y <= crate::COORD_MAX,
        ensures
            final(self).wf(),
            final(self).mouse_x == x,
            final(self).mouse_y == y,
            final(self).config == old(self).config,
            final(self).rods == old(self).rods,
            final(self).drag == old(self).drag,
    {
        self.mouse_x = x;
        self.mouse_y = y;
    }

    /// Pick-up: on a primary-button press while idle, lift the top disc
    /// of the first rod whose top disc is under the pointer, remembering
    /// the source rod and the pointer offset from the disc's anchor
    /// (center-x, top-y). A press over no disc, a press while already
    /// dragging, and any other button are no-ops.
    pub fn mouse_button_pressed(&mut self, button: PointerButton)
        requires
            old(self).wf(),
        ensures
            final(self).wf(),
            final(self).config == old(self).config,
            final(self).mouse_x == old(self).mouse_x,
            final(self).mouse_y == old(self).mouse_y,
            (if button == PointerButton::Left && old(self).drag is Idle {
                match old(self).spec_picked() {
                    Some(i) => {
                        &&& final(self).drag is Dragging
                        &&& final(self).spec_held_disc() == old(self).rods@[i].discs@.last()
                        &&& final(self).spec_source_rod() == i
                        &&& final(self).spec_offset_x() == spec_rod_center(old(self).config, i)
                            - old(self).mouse_x
                        &&& final(self).spec_offset_y() == spec_stack_y(
                            old(self).config,
                            old(self).rods@[i].discs@.len() - 1,
                        ) - old(self).mouse_y
                        &&& final(self).rods@.len() == old(self).rods@.len()
                        &&& final(self).rods@[i].discs@ == old(self).rods@[i].discs@.drop_last()
                        &&& forall|j: int|
                            0 <= j < old(self).rods@.len() && j != i ==> final(self).rods@[j]
                                == old(self).rods@[j]
                    },
                    None => {
                        &&& final(self).rods == old(self).rods
                        &&& final(self).drag == old(self).drag
                    },
                }
            } else {
                &&& final(self).rods == old(self).rods
                &&& final(self).drag == old(self).drag
            }),
    {
        if !(matches!(button, PointerButton::Left)) {
            return ;
        }
        match self.drag {
            DragState::Dragging { .. } => {
                return ;
            },
            DragState::Idle => {},
        }
        let n = self.rods.len();
        let mut k: usize = 0;
        while k < n
            invariant
                old(self).wf(),
                old(self).drag is Idle,
                button == PointerButton::Left,
                *self == *old(self),
                n == self.rods@.len(),
                k <= n,
                forall|j: int| 0 <= j < k ==> !self.over_top_disc(j),
            decreases n - k,
        {
            if self.top_disc_hit(k) {
                proof {
                    lemma_first_pick_skip(*self, 0, k as int);
                    lemma_stack_len_bound(self.config, self.rods@[k as int].discs@);
                }
                let ghost pre = *self;
                let rod_center = self.rods[k].center_x;
                let stack_len = self.rods[k].discs.len();
                let top_y = calc_stacked_y(&self.config, (stack_len - 1) as u32);
                let off_x: i64 = (rod_center as i64) - self.mouse_x;
                let off_y: i64 = top_y - self.mouse_y;
                let rod = &mut self.rods[k];
                let d = rod.remove_top();
                self.drag = DragState::Dragging {
                    disc: d,
                    source_rod: k,
                    offset_x: off_x,
                    offset_y: off_y,
                };
                proof {
                    lemma_remove_top_stack_wf(pre.config, pre.rods@[k as int].discs@);
                    assert(self.rods@[k as int].discs@ == pre.rods@[k as int].discs@.drop_last());
                    assert(forall|j: int|
                        0 <= j < pre.rods@.len() && j != k ==> self.rods@[j].discs@
                            == pre.rods@[j].discs@);
                    lemma_stacks_ranks_pop(pre.rods@, self.rods@, k as int);
                    assert(self.board_ranks() =~= pre.board_ranks());
                    assert(forall|i: int|
                        0 <= i < self.rods@.len() ==> rod_wf(
                            self.config,
                            #[trigger] self.rods@[i],
                            i,
                        ));
                }
                return ;
            }
            k = k + 1;
        }
        proof {
            lemma_first_pick_skip(*self, 0, n as int);
        }
    }

    /// Drop: on a primary-button release while dragging, commit the held
    /// disc to the first rod, in index order, whose dropbox contains the
    /// pointer and which accepts the disc; when no rod passes both tests
    /// the disc returns to its source rod — an off-target or illegal drop
    /// reverts, it never loses the disc. Either way the drag ends and the
    /// board is otherwise unchanged. A release while idle and any other
    /// button are no-ops.
    pub fn mouse_button_released(&mut self, button: PointerButton)
        requires
            old(self).wf(),
        ensures
            final(self).wf(),
            final(self).config == old(self).config,
            final(self).mouse_x == old(self).mouse_x,
            final(self).mouse_y == old(self).mouse_y,
            (if button == PointerButton::Left && old(self).drag is Dragging {
                let t = old(self).spec_drop_target();
                &&& 0 <= t < old(self).rods@.len()
                &&& final(self).drag == DragState::Idle
                &&& final(self).rods@.len() == old(self).rods@.len()
                &&& final(self).rods@[t].discs@ == old(self).rods@[t].discs@.push(
                    old(self).spec_held_disc(),
                )
                &&& forall|j: int|
                    0 <= j < old(self).rods@.len() && j != t ==> final(self).rods@[j] == old(
                        self,
                    ).rods@[j]
            } else {
                &&& final(self).rods == old(self).rods
                &&& final(self).drag == old(self).drag
            }),
    {
        if !(matches!(button, PointerButton::Left)) {
            return ;
        }
        let (disc, source) = match self.drag {
            DragState::Idle => {
                return ;
            },
            DragState::Dragging { disc, source_rod, .. } => (disc, source_rod),
        };
        let n = self.rods.len();
        let mut target: usize = source;
        let mut found = false;
        let mut k: usize = 0;
        while k < n
            invariant
                old(self).wf(),
                old(self).drag is Dragging,
                button == PointerButton::Left,
                *self == *old(self),
                disc == old(self).spec_held_disc(),
                source == old(self).spec_source_rod(),
                n == self.rods@.len(),
                k <= n,
                found ==> 0 <= target < n && old(self).first_drop_from(0, disc) == Some(
                    target as int,
                ) && self.drop_ok(target as int, disc),
                !found ==> target == source && (forall|j: int|
                    0 <= j < k ==> !self.drop_ok(j, disc)),
            decreases n - k,
        {
            if !found && self.rods[k].pos_in_dropbox(&self.config, self.mouse_x)
                && self.rods[k].can_accept(&disc) {
                proof {
                    lemma_first_drop_skip(*self, 0, k as int, disc);
                }
                target = k;
                found = true;
            }
            k = k + 1;
        }
        proof {
            if !found {
                lemma_first_drop_skip(*self, 0, n as int, disc);
            }
            assert(target as int == old(self).spec_drop_target());
            assert(spec_can_accept(self.rods@[target as int].discs@, disc));
        }
        let ghost pre = *self;
        let rod = &mut self.rods[target];
        rod.push(disc);
        self.drag = DragState::Idle;
        proof {
            lemma_push_preserves_stack_wf(pre.config, pre.rods@[target as int].discs@, disc);
            lemma_stacks_ranks_push(pre.rods@, self.rods@, target as int, disc);
            assert(self.board_ranks() =~= pre.board_ranks());
            assert(forall|i: int|
                0 <= i < self.rods@.len() ==> rod_wf(self.config, #[trigger] self.rods@[i], i));
        }
    }
}

/// If no rod before `k` has its top disc under the pointer, the pick
/// search gives the same result started at `i` or at `k`.
proof fn lemma_first_pick_skip(p: PlayArea, i: int, k: int)
    requires
        0 <= i <= k <= p.rods@.len(),
        forall|j: int| i <= j < k ==> !p.over_top_disc(j),
    ensures
        p.first_pick_from(i) == p.first_pick_from(k),
    decreases k - i,
{
    if i < k {
        assert(!p.over_top_disc(i));
        lemma_first_pick_skip(p, i + 1, k);
    }
}

/// If no rod before `k` is a valid drop target for `d`, the drop search
/// gives the same result started at `i` or at `k`.
proof fn lemma_first_drop_skip(p: PlayArea, i: int, k: int, d: Disc)
    requires
        0 <= i <= k <= p.rods@.len(),
        forall|j: int| i <= j < k ==> !p.drop_ok(j, d),
    ensures
        p.first_drop_from(i, d) == p.first_drop_from(k, d),
    decreases k - i,
{
    if i < k {
        assert(!p.drop_ok(i, d));
        lemma_first_drop_skip(p, i + 1, k, d);
    }
}

/// Stack ordering law: in any well-formed board state, disc ranks
/// strictly decrease from bottom to top on every rod.
pub proof fn lemma_stack_ordering(p: PlayArea, i: int, a: int, b: int)
    requires
        p.wf(),
        0 <= i < p.rods@.len(),
        0 <= a < b < p.rods@[i].discs@.len(),
    ensures
        p.rods@[i].discs@[b].rank < p.rods@[i].discs@[a].rank,
{
}

/// Conservation law: in any well-formed board state, every rank below
/// `n_discs` occurs exactly once across all rods and the hand together,
/// and no other rank occurs at all — no disc is ever duplicated or lost.
pub proof fn lemma_conservation(p: PlayArea, r: u32)
    requires
        p.wf(),
    ensures
        p.board_ranks().count(r) == (if r < p.config.n_discs {
            1nat
        } else {
            0nat
        }),
{
    crate::conservation::lemma_ranks_from_count(0, p.config.n_discs as int, r);
}

/// Revert law: while dragging, if no rod passes both drop tests — the
/// pointer sits in no rod's dropbox, or every rod whose dropbox holds it
/// refuses the held disc — then the drop target is the source rod: the
/// disc goes back where it came from.
pub proof fn lemma_revert_target(p: PlayArea)
    requires
        p.wf(),
        p.drag is Dragging,
        forall|i: int| 0 <= i < p.rods@.len() ==> !p.drop_ok(i, p.spec_held_disc()),
    ensures
        p.spec_drop_target() == p.spec_source_rod(),
{
    lemma_first_drop_skip(p, 0, p.rods@.len() as int, p.spec_held_disc());
}

/// Single-winner highlight law: two distinct rods are never highlighted
/// at once, because the dropbox intervals do not overlap.
pub proof fn lemma_highlight_unique(p: PlayArea, i: int, j: int)
    requires
        p.wf(),
        0 <= i < p.rods@.len(),
        0 <= j < p.rods@.len(),
        i != j,
    ensures
        !(p.spec_rod_highlight(i) && p.spec_rod_highlight(j)),
{
    match p.drag {
        DragState::Dragging { .. } => {
            crate::geometry::lemma_dropbox_partition(p.config, p.mouse_x as int);
        },
        DragState::Idle => {},
    }
}

} // verus!
