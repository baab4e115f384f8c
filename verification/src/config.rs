//! Startup configuration: peg count, disc count, and the fixed logical
//! board geometry. Every other module takes a well-formed `Config`.

use vstd::prelude::*;

verus! {

/// The game's startup configuration. All lengths are in logical board
/// pixels; the board itself has a fixed size and is letterboxed into the
/// actual window by the framing module.
#[derive(Clone, Copy, Debug, PartialEq, Eq, Structural)]
pub struct Config {
    /// Number of pegs (at least 2).
    pub n_rods: u32,
    /// Number of discs (at least 2); ranks are `0 .. n_discs`.
    pub n_discs: u32,
    /// Width of the logical board.
    pub board_width: u32,
    /// Height of the logical board.
    pub board_height: u32,
    /// Width of the smallest disc (rank 0).
    pub disc_width_min: u32,
    /// Width of the largest disc (rank `n_discs - 1`).
    pub disc_width_max: u32,
    /// Height of every disc sprite.
    pub disc_height: u32,
    /// Width of a peg sprite.
    pub rod_width: u32,
    /// Height of a peg sprite.
    pub rod_height: u32,
    /// The y coordinate of the base line discs rest on; stacks grow upward
    /// (toward smaller y) from here.
    pub rod_base_y: u32,
}

impl Config {
    /// A configuration the rest of the library can work with: at least two
    /// pegs and two discs, and geometry that keeps every computed sprite
    /// rectangle inside the board.
    pub open spec fn wf(self) -> bool {
        &&& self.n_rods >= 2
        &&& self.n_discs >= 2
        &&& self.n_rods <= self.board_width
        &&& self.board_width <= 1000000
        &&& self.board_height <= 1000000
        &&& 1 <= self.disc_width_min
        &&& self.disc_width_min <= self.disc_width_max
        &&& self.disc_width_max <= self.board_width
        &&& 1 <= self.disc_height
        &&& self.disc_height * self.n_discs <= self.rod_base_y
        &&& self.rod_base_y <= self.board_height
        &&& self.rod_height <= self.rod_base_y
        &&& self.rod_width <= self.board_width
        &&& 2 * (self.disc_height / 12) <= self.disc_width_min
    }
}

/// The configuration the game ships with: a 1280x720 board, three pegs and
/// five discs.
pub fn default_config() -> (c: Config)
    ensures
        c.wf(),
        c.n_rods == 3,
        c.n_discs == 5,
        c.board_width == 1280,
        c.board_height == 720,
        c.disc_width_min == 100,
        c.disc_width_max == 350,
        c.disc_height == 60,
        c.rod_width == 20,
        c.rod_height == 500,
        c.rod_base_y == 620,
{
    Config {
        n_rods: 3,
        n_discs: 5,
        board_width: 1280,
        board_height: 720,
        disc_width_min: 100,
        disc_width_max: 350,
        disc_height: 60,
        rod_width: 20,
        rod_height: 500,
        rod_base_y: 620,
    }
}

} // verus!
