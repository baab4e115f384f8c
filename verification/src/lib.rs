//! Interactive Towers-of-Hanoi board: peg stacks, the legality rule for
//! moves, the drag lifecycle (pick up, drag, drop with validation, commit or
//! revert), and the integer geometry that maps pointer positions to pegs and
//! stack slots and back. Rendering and windowing live outside the library;
//! the board works in logical board coordinates and produces a pure
//! description of each frame.

pub mod board;
pub mod config;
pub mod conservation;
pub mod framing;
pub mod geometry;
pub mod play_area;
pub mod render;

use vstd::prelude::*;

verus! {

/// Bound on every pointer coordinate the library accepts, generous enough
/// for any physical screen while keeping all coordinate arithmetic far from
/// `i64` overflow.
pub const COORD_MAX: i64 = 0x100_0000_0000;

} // verus!
