//! The statistics bundle of one player's placements and the operation that
//! merges two bundles. Counters add (saturating at the type's maximum) and
//! series concatenate, so merging is associative, has the empty bundle as
//! identity, and is commutative up to the order inside the series.

use vstd::prelude::*;
use vstd::seq_lib::lemma_seq_union_to_multiset_commutative;
use crate::board_analyzer::MinoType;

verus! {

/// Number of clear kinds.
pub const CLEAR_KINDS: usize = 16;

/// Number of cell kinds, pieces included.
pub const SHAPE_KINDS: usize = 9;

/// An open or finished back-to-back run.
#[derive(Clone, Copy, Debug, PartialEq, Eq)]
pub struct BTBSegment {
    /// Frames spent in the run after its first placement, in thousandths.
    pub frames: u64,
    pub attack: usize,
    /// Clears in the run after its first placement that kept the chain.
    pub btb: usize,
    pub blocks: usize,
    /// How often the well height changed between consecutive placements.
    pub wellshifts: usize,
    /// Non-chaining clears made with an I piece.
    pub wasted_i: usize,
    /// Non-chaining clears made with a T piece.
    pub wasted_t: usize,
    pub i_placed: usize,
    pub t_placed: usize,
    /// Well height after the last placement; none on an empty board.
    pub well: Option<usize>,
}

/// An open or finished combo run.
#[derive(Clone, Debug)]
pub struct ComboSegment {
    /// Frames spent in the run after its first placement, in thousandths.
    pub frames: u64,
    pub attack: usize,
    pub blocks: usize,
    /// Positions in the run of the clears of a multipliable kind.
    pub multipliers: Vec<usize>,
    /// Delay of the run's first placement, in thousandths of a frame.
    pub initial_delay: u64,
    /// Delay of the placement before the run, when there is one.
    pub prev_delay: Option<u64>,
}

impl BTBSegment {
    /// The run opened by a placement: its attack, one block, and the piece
    /// counted when it is an I or a T.
    pub fn new(starting_attack: usize, shape: MinoType, well: Option<usize>) -> (r: Self)
        ensures
            r == (BTBSegment {
                frames: 0,
                attack: starting_attack,
                btb: 0,
                blocks: 1,
                wellshifts: 0,
                wasted_i: 0,
                wasted_t: 0,
                i_placed: if shape == MinoType::I { 1 } else { 0 },
                t_placed: if shape == MinoType::T { 1 } else { 0 },
                well,
            }),
    {
        BTBSegment {
            frames: 0,
            attack: starting_attack,
            btb: 0,
            blocks: 1,
            wellshifts: 0,
            wasted_i: 0,
            wasted_t: 0,
            i_placed: if shape == MinoType::I { 1 } else { 0 },
            t_placed: if shape == MinoType::T { 1 } else { 0 },
            well,
        }
    }
}

impl ComboSegment {
    /// The run opened by a placement that clears lines: its attack, one
    /// block, and position 0 recorded when the clear multiplies.
    pub fn new(
        starting_attack: usize,
        is_multiplier: bool,
        initial_delay: u64,
        prev_delay: Option<u64>,
    ) -> (r: Self)
        ensures
            r@ == (ComboModel {
                frames: 0,
                attack: starting_attack,
                blocks: 1,
                multipliers: if is_multiplier { seq![0usize] } else { Seq::empty() },
                initial_delay,
                prev_delay,
            }),
    {
        let mut multipliers: Vec<usize> = Vec::new();
        if is_multiplier {
            multipliers.push(0);
        }
        assert(is_multiplier ==> multipliers@ =~= seq![0usize]);
        assert(!is_multiplier ==> multipliers@ =~= Seq::empty());
        ComboSegment {
            frames: 0,
            attack: starting_attack,
            blocks: 1,
            multipliers,
            initial_delay,
            prev_delay,
        }
    }
}

/// The value of a combo run.
pub struct ComboModel {
    pub frames: u64,
    pub attack: usize,
    pub blocks: usize,
    pub multipliers: Seq<usize>,
    pub initial_delay: u64,
    pub prev_delay: Option<u64>,
}

impl View for ComboSegment {
    type V = ComboModel;

    open spec fn view(&self) -> ComboModel {
        ComboModel {
            frames: self.frames,
            attack: self.attack,
            blocks: self.blocks,
            multipliers: self.multipliers@,
            initial_delay: self.initial_delay,
            prev_delay: self.prev_delay,
        }
    }
}

/// Statistics accumulated over placements.
#[derive(Debug)]
pub struct CumulativePlacementStats {
    pub clear_types: [usize; 16],
    pub shape_types: [usize; 9],
    pub garbage_cleared: usize,
    pub lines_cleared: usize,
    pub attack: usize,
    pub attack_with_garbage: usize,
    pub exclusive_garbage_cleared: usize,
    pub attack_with_stack: usize,
    pub exclusive_stack_cleared: usize,
    pub attack_with_cheese: usize,
    pub exclusive_cheese_cleared: usize,
    /// Frame delay of each placement, in thousandths of a frame.
    pub delays: Vec<u64>,
    pub stack_heights: Vec<usize>,
    pub garbage_heights: Vec<usize>,
    pub btb_segments: Vec<BTBSegment>,
    pub combo_segments: Vec<ComboSegment>,
    pub keypresses: usize,
    pub opener_attack: usize,
    /// Frames of the opener, in thousandths.
    pub opener_frames: u64,
    pub opener_blocks: usize,
    pub defense_potentials: Vec<usize>,
    pub attack_potentials: Vec<usize>,
    pub blockfish_scores: Vec<usize>,
}

/// The value of a bundle.
pub struct StatsModel {
    pub clear_types: Seq<usize>,
    pub shape_types: Seq<usize>,
    pub garbage_cleared: usize,
    pub lines_cleared: usize,
    pub attack: usize,
    pub attack_with_garbage: usize,
    pub exclusive_garbage_cleared: usize,
    pub attack_with_stack: usize,
    pub exclusive_stack_cleared: usize,
    pub attack_with_cheese: usize,
    pub exclusive_cheese_cleared: usize,
    pub delays: Seq<u64>,
    pub stack_heights: Seq<usize>,
    pub garbage_heights: Seq<usize>,
    pub btb_segments: Seq<BTBSegment>,
    pub combo_segments: Seq<ComboModel>,
    pub keypresses: usize,
    pub opener_attack: usize,
    pub opener_frames: u64,
    pub opener_blocks: usize,
    pub defense_potentials: Seq<usize>,
    pub attack_potentials: Seq<usize>,
    pub blockfish_scores: Seq<usize>,
}

impl StatsModel {
    /// The per-kind tables have one entry per kind.
    pub open spec fn wf(self) -> bool {
        self.clear_types.len() == CLEAR_KINDS && self.shape_types.len() == SHAPE_KINDS
    }
}

impl View for CumulativePlacementStats {
    type V = StatsModel;

    open spec fn view(&self) -> StatsModel {
        StatsModel {
            clear_types: self.clear_types@,
            shape_types: self.shape_types@,
            garbage_cleared: self.garbage_cleared,
            lines_cleared: self.lines_cleared,
            attack: self.attack,
            attack_with_garbage: self.attack_with_garbage,
            exclusive_garbage_cleared: self.exclusive_garbage_cleared,
            attack_with_stack: self.attack_with_stack,
            exclusive_stack_cleared: self.exclusive_stack_cleared,
            attack_with_cheese: self.attack_with_cheese,
            exclusive_cheese_cleared: self.exclusive_cheese_cleared,
            delays: self.delays@,
            stack_heights: self.stack_heights@,
            garbage_heights: self.garbage_heights@,
            btb_segments: self.btb_segments@,
            combo_segments: self.combo_segments@.map_values(|c: ComboSegment| c@),
            keypresses: self.keypresses,
            opener_attack: self.opener_attack,
            opener_frames: self.opener_frames,
            opener_blocks: self.opener_blocks,
            defense_potentials: self.defense_potentials@,
            attack_potentials: self.attack_potentials@,
            blockfish_scores: self.blockfish_scores@,
        }
    }
}

/// Entry-wise saturating sum of two tables.
pub open spec fn add_tables(a: Seq<usize>, b: Seq<usize>) -> Seq<usize> {
    Seq::new(a.len(), |i: int| a[i].saturating_add(b[i]))
}

/// The bundle of no placement.
pub open spec fn zero_model() -> StatsModel {
    StatsModel {
        clear_types: Seq::new(CLEAR_KINDS as nat, |i: int| 0usize),
        shape_types: Seq::new(SHAPE_KINDS as nat, |i: int| 0usize),
        garbage_cleared: 0,
        lines_cleared: 0,
        attack: 0,
        attack_with_garbage: 0,
        exclusive_garbage_cleared: 0,
        attack_with_stack: 0,
        exclusive_stack_cleared: 0,
        attack_with_cheese: 0,
        exclusive_cheese_cleared: 0,
        delays: Seq::empty(),
        stack_heights: Seq::empty(),
        garbage_heights: Seq::empty(),
        btb_segments: Seq::empty(),
        combo_segments: Seq::empty(),
        keypresses: 0,
        opener_attack: 0,
        opener_frames: 0,
        opener_blocks: 0,
        defense_potentials: Seq::empty(),
        attack_potentials: Seq::empty(),
        blockfish_scores: Seq::empty(),
    }
}

/// The merge of two bundles: counters add, saturating; series concatenate.
pub open spec fn absorb_model(a: StatsModel, b: StatsModel) -> StatsModel {
    StatsModel {
        clear_types: add_tables(a.clear_types, b.clear_types),
        shape_types: add_tables(a.shape_types, b.shape_types),
        garbage_cleared: a.garbage_cleared.saturating_add(b.garbage_cleared),
        lines_cleared: a.lines_cleared.saturating_add(b.lines_cleared),
        attack: a.attack.saturating_add(b.attack),
        attack_with_garbage: a.attack_with_garbage.saturating_add(b.attack_with_garbage),
        exclusive_garbage_cleared: a.exclusive_garbage_cleared.saturating_add(
            b.exclusive_garbage_cleared,
        ),
        attack_with_stack: a.attack_with_stack.saturating_add(b.attack_with_stack),
        exclusive_stack_cleared: a.exclusive_stack_cleared.saturating_add(
            b.exclusive_stack_cleared,
        ),
        attack_with_cheese: a.attack_with_cheese.saturating_add(b.attack_with_cheese),
        exclusive_cheese_cleared: a.exclusive_cheese_cleared.saturating_add(
            b.exclusive_cheese_cleared,
        ),
        delays: a.delays + b.delays,
        stack_heights: a.stack_heights + b.stack_heights,
        garbage_heights: a.garbage_heights + b.garbage_heights,
        btb_segments: a.btb_segments + b.btb_segments,
        combo_segments: a.combo_segments + b.combo_segments,
        keypresses: a.keypresses.saturating_add(b.keypresses),
        opener_attack: a.opener_attack.saturating_add(b.opener_attack),
        opener_frames: a.opener_frames.saturating_add(b.opener_frames),
        opener_blocks: a.opener_blocks.saturating_add(b.opener_blocks),
        defense_potentials: a.defense_potentials + b.defense_potentials,
        attack_potentials: a.attack_potentials + b.attack_potentials,
        blockfish_scores: a.blockfish_scores + b.blockfish_scores,
    }
}

/// Two bundles agree on every counter and hold the same elements in every
/// series, whatever their order.
pub open spec fn same_aggregate(a: StatsModel, b: StatsModel) -> bool {
    &&& a.clear_types == b.clear_types
    &&& a.shape_types == b.shape_types
    &&& a.garbage_cleared == b.garbage_cleared
    &&& a.lines_cleared == b.lines_cleared
    &&& a.attack == b.attack
    &&& a.attack_with_garbage == b.attack_with_garbage
    &&& a.exclusive_garbage_cleared == b.exclusive_garbage_cleared
    &&& a.attack_with_stack == b.attack_with_stack
    &&& a.exclusive_stack_cleared == b.exclusive_stack_cleared
    &&& a.attack_with_cheese == b.attack_with_cheese
    &&& a.exclusive_cheese_cleared == b.exclusive_cheese_cleared
    &&& a.delays.to_multiset() == b.delays.to_multiset()
    &&& a.stack_heights.to_multiset() == b.stack_heights.to_multiset()
    &&& a.garbage_heights.to_multiset() == b.garbage_heights.to_multiset()
    &&& a.btb_segments.to_multiset() == b.btb_segments.to_multiset()
    &&& a.combo_segments.to_multiset() == b.combo_segments.to_multiset()
    &&& a.keypresses == b.keypresses
    &&& a.opener_attack == b.opener_attack
    &&& a.opener_frames == b.opener_frames
    &&& a.opener_blocks == b.opener_blocks
    &&& a.defense_potentials.to_multiset() == b.defense_potentials.to_multiset()
    &&& a.attack_potentials.to_multiset() == b.attack_potentials.to_multiset()
    &&& a.blockfish_scores.to_multiset() == b.blockfish_scores.to_multiset()
}

fn add_counts<const N: usize>(a: &mut [usize; N], b: &[usize; N])
    ensures
        final(a)@ == add_tables(old(a)@, b@),
{
    let ghost start = a@;
    let mut i: usize = 0;
    while i < N
        invariant
            i <= N,
            a@.len() == N,
            b@.len() == N,
            start.len() == N,
            forall|j: int| 0 <= j < i ==> a@[j] == start[j].saturating_add(b@[j]),
            forall|j: int| i <= j < N ==> a@[j] == start[j],
        decreases N - i,
    {
        let v = a[i].saturating_add(b[i]);
        a[i] = v;
        i += 1;
    }
    assert(a@ =~= add_tables(start, b@));
}

impl CumulativePlacementStats {
    /// The bundle of no placement: every counter zero, every series empty.
    pub fn new() -> (r: Self)
        ensures
            r@ == zero_model(),
    {
        let r = CumulativePlacementStats {
            clear_types: [0usize; 16],
            shape_types: [0usize; 9],
            garbage_cleared: 0,
            lines_cleared: 0,
            attack: 0,
            attack_with_garbage: 0,
            exclusive_garbage_cleared: 0,
            attack_with_stack: 0,
            exclusive_stack_cleared: 0,
            attack_with_cheese: 0,
            exclusive_cheese_cleared: 0,
            delays: Vec::new(),
            stack_heights: Vec::new(),
            garbage_heights: Vec::new(),
            btb_segments: Vec::new(),
            combo_segments: Vec::new(),
            keypresses: 0,
            opener_attack: 0,
            opener_frames: 0,
            opener_blocks: 0,
            defense_potentials: Vec::new(),
            attack_potentials: Vec::new(),
            blockfish_scores: Vec::new(),
        };
        assert(r@.clear_types =~= zero_model().clear_types);
        assert(r@.shape_types =~= zero_model().shape_types);
        assert(r@.combo_segments =~= zero_model().combo_segments);
        r
    }

    /// Merges `stats` into `self`: counters add, saturating at the maximum,
    /// and the series of `stats` are appended to those of `self`.
    pub fn absorb(&mut self, stats: CumulativePlacementStats)
        ensures
            final(self)@ == absorb_model(old(self)@, stats@),
    {
        let mut stats = stats;
        let ghost combos_a = self.combo_segments@;
        let ghost combos_b = stats.combo_segments@;
        add_counts(&mut self.clear_types, &stats.clear_types);
        add_counts(&mut self.shape_types, &stats.shape_types);
        self.garbage_cleared = self.garbage_cleared.saturating_add(stats.garbage_cleared);
        self.lines_cleared = self.lines_cleared.saturating_add(stats.lines_cleared);
        self.attack = self.attack.saturating_add(stats.attack);
        self.attack_with_garbage = self.attack_with_garbage.saturating_add(
            stats.attack_with_garbage,
        );
        self.exclusive_garbage_cleared = self.exclusive_garbage_cleared.saturating_add(
            stats.exclusive_garbage_cleared,
        );
        self.attack_with_stack = self.attack_with_stack.saturating_add(stats.attack_with_stack);
        self.exclusive_stack_cleared = self.exclusive_stack_cleared.saturating_add(
            stats.exclusive_stack_cleared,
        );
        self.attack_with_cheese = self.attack_with_cheese.saturating_add(stats.attack_with_cheese);
        self.exclusive_cheese_cleared = self.exclusive_cheese_cleared.saturating_add(
            stats.exclusive_cheese_cleared,
        );

        self.delays.append(&mut stats.delays);
        self.stack_heights.append(&mut stats.stack_heights);
        self.garbage_heights.append(&mut stats.garbage_heights);
        self.btb_segments.append(&mut stats.btb_segments);
        self.combo_segments.append(&mut stats.combo_segments);

        self.keypresses = self.keypresses.saturating_add(stats.keypresses);
        self.opener_attack = self.opener_attack.saturating_add(stats.opener_attack);
        self.opener_frames = self.opener_frames.saturating_add(stats.opener_frames);
        self.opener_blocks = self.opener_blocks.saturating_add(stats.opener_blocks);

        self.defense_potentials.append(&mut stats.defense_potentials);
        self.attack_potentials.append(&mut stats.attack_potentials);
        self.blockfish_scores.append(&mut stats.blockfish_scores);
        assert((combos_a + combos_b).map_values(|c: ComboSegment| c@) =~= combos_a.map_values(
            |c: ComboSegment| c@,
        ) + combos_b.map_values(|c: ComboSegment| c@));
    }
}

impl Default for CumulativePlacementStats {
    fn default() -> (r: Self)
        ensures
            r@ == zero_model(),
    {
        CumulativePlacementStats::new()
    }
}

/// Merging is commutative: `absorb(a, b)` and `absorb(b, a)` agree on every
/// counter and hold the same elements in every series.
pub proof fn lemma_absorb_commutative(a: CumulativePlacementStats, b: CumulativePlacementStats)
    ensures
        same_aggregate(absorb_model(a@, b@), absorb_model(b@, a@)),
{
    let (x, y) = (a@, b@);
    assert(add_tables(x.clear_types, y.clear_types) =~= add_tables(y.clear_types, x.clear_types));
    assert(add_tables(x.shape_types, y.shape_types) =~= add_tables(y.shape_types, x.shape_types));
    lemma_seq_union_to_multiset_commutative(x.delays, y.delays);
    lemma_seq_union_to_multiset_commutative(x.stack_heights, y.stack_heights);
    lemma_seq_union_to_multiset_commutative(x.garbage_heights, y.garbage_heights);
    lemma_seq_union_to_multiset_commutative(x.btb_segments, y.btb_segments);
    lemma_seq_union_to_multiset_commutative(x.combo_segments, y.combo_segments);
    lemma_seq_union_to_multiset_commutative(x.defense_potentials, y.defense_potentials);
    lemma_seq_union_to_multiset_commutative(x.attack_potentials, y.attack_potentials);
    lemma_seq_union_to_multiset_commutative(x.blockfish_scores, y.blockfish_scores);
}

/// Merging is associative: `absorb(absorb(a, b), c) == absorb(a, absorb(b, c))`.
pub proof fn lemma_absorb_associative(
    a: CumulativePlacementStats,
    b: CumulativePlacementStats,
    c: CumulativePlacementStats,
)
    ensures
        absorb_model(absorb_model(a@, b@), c@) == absorb_model(a@, absorb_model(b@, c@)),
{
    let (x, y, z) = (a@, b@, c@);
    let l = absorb_model(absorb_model(x, y), z);
    let r = absorb_model(x, absorb_model(y, z));
    assert(l.clear_types =~= r.clear_types);
    assert(l.shape_types =~= r.shape_types);
    assert(l.delays =~= r.delays);
    assert(l.stack_heights =~= r.stack_heights);
    assert(l.garbage_heights =~= r.garbage_heights);
    assert(l.btb_segments =~= r.btb_segments);
    assert(l.combo_segments =~= r.combo_segments);
    assert(l.defense_potentials =~= r.defense_potentials);
    assert(l.attack_potentials =~= r.attack_potentials);
    assert(l.blockfish_scores =~= r.blockfish_scores);
}

/// The empty bundle is the identity of merging, on either side.
pub proof fn lemma_absorb_identity(a: CumulativePlacementStats)
    ensures
        absorb_model(zero_model(), a@) == a@,
        absorb_model(a@, zero_model()) == a@,
{
    let x = a@;
    let l = absorb_model(zero_model(), x);
    let r = absorb_model(x, zero_model());
    assert(l.clear_types =~= x.clear_types);
    assert(l.shape_types =~= x.shape_types);
    assert(r.clear_types =~= x.clear_types);
    assert(r.shape_types =~= x.shape_types);
    assert(l.delays =~= x.delays);
    assert(l.stack_heights =~= x.stack_heights);
    assert(l.garbage_heights =~= x.garbage_heights);
    assert(l.btb_segments =~= x.btb_segments);
    assert(l.combo_segments =~= x.combo_segments);
    assert(l.defense_potentials =~= x.defense_potentials);
    assert(l.attack_potentials =~= x.attack_potentials);
    assert(l.blockfish_scores =~= x.blockfish_scores);
    assert(r.delays =~= x.delays);
    assert(r.stack_heights =~= x.stack_heights);
    assert(r.garbage_heights =~= x.garbage_heights);
    assert(r.btb_segments =~= x.btb_segments);
    assert(r.combo_segments =~= x.combo_segments);
    assert(r.defense_potentials =~= x.defense_potentials);
    assert(r.attack_potentials =~= x.attack_potentials);
    assert(r.blockfish_scores =~= x.blockfish_scores);
}

} // verus!
