//! One placed piece as reported by the replay parser.

use vstd::prelude::*;
use crate::board_analyzer::{MinoType, CELLS};

verus! {

/// How a placement cleared lines.
#[derive(Clone, Copy, Debug, PartialEq, Eq, Structural)]
pub enum ClearType {
    NoClear,
    Single,
    Double,
    Triple,
    Quad,
    Penta,
    TspinMini,
    Tspin,
    TspinMiniSingle,
    TspinSingle,
    TspinMiniDouble,
    TspinDouble,
    TspinTriple,
    TspinQuad,
    TspinPenta,
    PerfectClear,
}

impl ClearType {
    /// Position of the kind in per-clear tables.
    pub open spec fn ordinal_spec(&self) -> usize {
        match self {
            ClearType::NoClear => 0,
            ClearType::Single => 1,
            ClearType::Double => 2,
            ClearType::Triple => 3,
            ClearType::Quad => 4,
            ClearType::Penta => 5,
            ClearType::TspinMini => 6,
            ClearType::Tspin => 7,
            ClearType::TspinMiniSingle => 8,
            ClearType::TspinSingle => 9,
            ClearType::TspinMiniDouble => 10,
            ClearType::TspinDouble => 11,
            ClearType::TspinTriple => 12,
            ClearType::TspinQuad => 13,
            ClearType::TspinPenta => 14,
            ClearType::PerfectClear => 15,
        }
    }

    /// Position of the kind in per-clear tables.
    pub fn ordinal(&self) -> (r: usize)
        ensures
            r == self.ordinal_spec(),
            r < 16,
    {
        match self {
            ClearType::NoClear => 0,
            ClearType::Single => 1,
            ClearType::Double => 2,
            ClearType::Triple => 3,
            ClearType::Quad => 4,
            ClearType::Penta => 5,
            ClearType::TspinMini => 6,
            ClearType::Tspin => 7,
            ClearType::TspinMiniSingle => 8,
            ClearType::TspinSingle => 9,
            ClearType::TspinMiniDouble => 10,
            ClearType::TspinDouble => 11,
            ClearType::TspinTriple => 12,
            ClearType::TspinQuad => 13,
            ClearType::TspinPenta => 14,
            ClearType::PerfectClear => 15,
        }
    }

    /// The clears that keep a back-to-back chain going: quads, pentas and
    /// T-spins that clear at least one line.
    pub open spec fn is_multipliable_spec(&self) -> bool {
        match self {
            ClearType::Quad | ClearType::Penta | ClearType::TspinMiniSingle
            | ClearType::TspinSingle | ClearType::TspinMiniDouble | ClearType::TspinDouble
            | ClearType::TspinTriple | ClearType::TspinQuad | ClearType::TspinPenta => true,
            _ => false,
        }
    }

    /// Whether the clear keeps a back-to-back chain going.
    pub fn is_multipliable(&self) -> (r: bool)
        ensures
            r == self.is_multipliable_spec(),
    {
        match self {
            ClearType::Quad | ClearType::Penta | ClearType::TspinMiniSingle
            | ClearType::TspinSingle | ClearType::TspinMiniDouble | ClearType::TspinDouble
            | ClearType::TspinTriple | ClearType::TspinQuad | ClearType::TspinPenta => true,
            _ => false,
        }
    }
}

/// One placed piece and the state it left behind.
#[derive(Clone, Debug)]
pub struct PlacementStats {
    /// The shape of the placed piece.
    pub shape: MinoType,
    /// How the placement cleared lines, as the parser tagged it.
    pub clear_type: ClearType,
    /// The board after the placement: `CELLS` cells, row 0 on top.
    pub board: Vec<MinoType>,
    /// Garbage lines cleared by the placement.
    pub garbage_cleared: usize,
    /// Lines cleared by the placement.
    pub lines_cleared: usize,
    /// Attack sent by the placement, in parts.
    pub attack: Vec<usize>,
    /// Delay since the previous placement, in thousandths of a frame.
    pub frame_delay: u64,
    /// Keys pressed for the placement.
    pub keypresses: usize,
    /// The hold piece followed by the next pieces.
    pub queue: Vec<MinoType>,
    /// Length of the back-to-back chain after the placement.
    pub btb_chain: usize,
    /// Length of the combo after the placement.
    pub combo: usize,
    /// Whether the clear kept the back-to-back chain going.
    pub btb_clear: bool,
}

impl PlacementStats {
    /// The board has the size of a board.
    pub open spec fn wf(&self) -> bool {
        self.board@.len() == CELLS
    }
}

} // verus!
