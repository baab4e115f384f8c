//! Play-area framing: the fixed-size logical board is centered inside a
//! resizable window. The frame carries the board size and the offset of the
//! board's top-left corner in window coordinates; the offset is negative
//! when the window is smaller than the board.

use vstd::prelude::*;

use crate::config::Config;

verus! {

/// Placement of the logical board inside the current window, recomputed
/// once per rendered frame.
#[derive(Clone, Copy, Debug, PartialEq, Eq, Structural)]
pub struct Frame {
    /// Width of the logical board (fixed, from the configuration).
    pub width: u32,
    /// Height of the logical board (fixed, from the configuration).
    pub height: u32,
    /// x of the board's top-left corner in window coordinates.
    pub offset_x: i64,
    /// y of the board's top-left corner in window coordinates.
    pub offset_y: i64,
}

/// Centering offset along one axis: half the difference between window and
/// board size, rounded toward zero, negative when the window is smaller.
pub open spec fn spec_center_offset(window: int, board: int) -> int {
    if window >= board {
        (window - board) / 2
    } else {
        -((board - window) / 2)
    }
}

impl Frame {
    /// A frame fits a configuration when it carries that configuration's
    /// board size and an offset the coordinate arithmetic can absorb.
    pub open spec fn fits(self, cfg: Config) -> bool {
        &&& self.width == cfg.board_width
        &&& self.height == cfg.board_height
        &&& -crate::COORD_MAX <= self.offset_x <= crate::COORD_MAX
        &&& -crate::COORD_MAX <= self.offset_y <= crate::COORD_MAX
    }
}

/// Compute the frame that centers the board in a `window_w` x `window_h`
/// window.
pub fn place_play_area(cfg: &Config, window_w: u64, window_h: u64) -> (f: Frame)
    requires
        cfg.wf(),
        window_w <= crate::COORD_MAX,
        window_h <= crate::COORD_MAX,
    ensures
        f.fits(*cfg),
        f.offset_x == spec_center_offset(window_w as int, cfg.board_width as int),
        f.offset_y == spec_center_offset(window_h as int, cfg.board_height as int),
{
    let offset_x: i64 = if window_w >= cfg.board_width as u64 {
        ((window_w - cfg.board_width as u64) / 2) as i64
    } else {
        -((((cfg.board_width as u64) - window_w) / 2) as i64)
    };
    let offset_y: i64 = if window_h >= cfg.board_height as u64 {
        ((window_h - cfg.board_height as u64) / 2) as i64
    } else {
        -((((cfg.board_height as u64) - window_h) / 2) as i64)
    };
    Frame { width: cfg.board_width, height: cfg.board_height, offset_x, offset_y }
}

} // verus!
