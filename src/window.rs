//! Window geometry shared by the window-like entities.

use vstd::prelude::*;

verus! {

/// Space a window reserves along the screen edges (its "strut"), with the
/// extent of each reservation along its edge.
#[derive(PartialEq, Eq, Structural, Debug, Clone, Copy)]
pub struct Struct {
    pub left: u16,
    pub right: u16,
    pub top: u16,
    pub bottom: u16,
    pub left_start_y: u16,
    pub left_end_y: u16,
    pub right_start_y: u16,
    pub right_end_y: u16,
    pub top_start_x: u16,
    pub top_end_x: u16,
    pub bottom_start_x: u16,
    pub bottom_end_x: u16,
}

} // verus!
