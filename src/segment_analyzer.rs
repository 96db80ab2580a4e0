//! The per-game analyzer: a streaming automaton over the placements of one
//! game that tracks the opener, the combo and back-to-back runs, and fills a
//! statistics bundle.

use vstd::prelude::*;
use crate::board_analyzer::{
    get_garbage_height, get_height, get_well, has_cheese, garbage_height, is_cheese,
    lemma_garbage_within_stack, stack_height, well_height, MinoType,
};
use crate::placement_stats::{
    zero_model, BTBSegment, ComboModel, ComboSegment, CumulativePlacementStats, StatsModel,
};
use crate::replay_response::{ClearType, PlacementStats};

verus! {

/// What the outside scorers said of one placement.
#[derive(Clone, Copy, Debug)]
pub struct PlacementScores {
    /// The solver's estimate of the best attack reachable.
    pub attack_potential: usize,
    /// The solver's estimate of the best defense reachable.
    pub defense_potential: usize,
    /// The move-suggestion AI's score; none when it could not be asked.
    pub ai_score: Option<i64>,
}

/// The analyzer between two placements.
pub struct AnalyzerState {
    pub stats: StatsModel,
    pub opener_over: bool,
    pub combo: Option<ComboModel>,
    pub btb: Option<BTBSegment>,
}

/// Total of the attack parts, saturating.
pub open spec fn attack_total(parts: Seq<usize>) -> usize
    decreases parts.len(),
{
    if parts.len() == 0 {
        0
    } else {
        attack_total(parts.drop_last()).saturating_add(parts.last())
    }
}

/// The placement ends the opener: it clears garbage, and is either a T piece
/// that breaks back-to-back or another piece that clears fewer than four lines.
pub open spec fn ends_opener(p: PlacementStats) -> bool {
    p.garbage_cleared > 0 && ((p.shape == MinoType::T && !p.btb_clear) || (p.shape
        != MinoType::T && p.lines_cleared < 4))
}

/// The clear kind counted for the placement: a perfect clear whenever the
/// board is left empty, the parser's tag otherwise.
pub open spec fn counted_clear(p: PlacementStats) -> ClearType {
    if stack_height(p.board@) == 0 {
        ClearType::PerfectClear
    } else {
        p.clear_type
    }
}

/// The well after the placement; none on an empty board.
pub open spec fn placement_well(p: PlacementStats) -> Option<usize> {
    if stack_height(p.board@) > 0 {
        Some(well_height(p.board@) as usize)
    } else {
        None
    }
}

/// Adds one to entry `i` of a table, saturating.
pub open spec fn bump(t: Seq<usize>, i: int) -> Seq<usize> {
    t.update(i, t[i].saturating_add(1))
}

/// Appends the value, if any.
pub open spec fn push_some<A>(s: Seq<A>, v: Option<A>) -> Seq<A> {
    match v {
        Some(x) => s.push(x),
        None => s,
    }
}

/// Everything one placement adds to the bundle apart from finished runs.
pub open spec fn record_placement(
    s: StatsModel,
    p: PlacementStats,
    sc: PlacementScores,
    attack: usize,
    in_opener: bool,
    cheese: bool,
) -> StatsModel {
    let height = stack_height(p.board@);
    let gh = garbage_height(p.board@);
    StatsModel {
        clear_types: bump(s.clear_types, counted_clear(p).ordinal_spec() as int),
        shape_types: bump(s.shape_types, p.shape.ordinal_spec() as int),
        garbage_cleared: s.garbage_cleared.saturating_add(p.garbage_cleared),
        lines_cleared: s.lines_cleared.saturating_add(p.lines_cleared),
        attack: s.attack.saturating_add(attack),
        opener_blocks: if in_opener { s.opener_blocks.saturating_add(1) } else { s.opener_blocks },
        opener_attack: if in_opener { s.opener_attack.saturating_add(attack) } else { s.opener_attack },
        opener_frames: if in_opener {
            s.opener_frames.saturating_add(p.frame_delay)
        } else {
            s.opener_frames
        },
        attack_with_garbage: if p.garbage_cleared > 0 {
            s.attack_with_garbage.saturating_add(attack)
        } else {
            s.attack_with_garbage
        },
        exclusive_garbage_cleared: if p.garbage_cleared > 0 {
            s.exclusive_garbage_cleared.saturating_add(p.lines_cleared)
        } else {
            s.exclusive_garbage_cleared
        },
        attack_with_stack: if p.garbage_cleared == 0 && p.lines_cleared > 0 {
            s.attack_with_stack.saturating_add(attack)
        } else {
            s.attack_with_stack
        },
        exclusive_stack_cleared: if p.garbage_cleared == 0 && p.lines_cleared > 0 {
            s.exclusive_stack_cleared.saturating_add(p.lines_cleared)
        } else {
            s.exclusive_stack_cleared
        },
        attack_with_cheese: if cheese {
            s.attack_with_cheese.saturating_add(attack)
        } else {
            s.attack_with_cheese
        },
        exclusive_cheese_cleared: if cheese {
            s.exclusive_cheese_cleared.saturating_add(p.lines_cleared)
        } else {
            s.exclusive_cheese_cleared
        },
        delays: s.delays.push(p.frame_delay),
        keypresses: s.keypresses.saturating_add(p.keypresses),
        stack_heights: s.stack_heights.push((height - gh) as usize),
        garbage_heights: s.garbage_heights.push(gh as usize),
        defense_potentials: s.defense_potentials.push(sc.defense_potential),
        attack_potentials: s.attack_potentials.push(sc.attack_potential),
        blockfish_scores: match sc.ai_score {
            Some(v) => if v > 0 { s.blockfish_scores.push(v as usize) } else { s.blockfish_scores },
            None => s.blockfish_scores,
        },
        ..s
    }
}

/// The combo run that a placement clearing lines opens.
pub open spec fn open_combo(p: PlacementStats, attack: usize, prev: Option<u64>) -> ComboModel {
    ComboModel {
        frames: 0,
        attack,
        blocks: 1,
        multipliers: if p.clear_type.is_multipliable_spec() { seq![0usize] } else { Seq::empty() },
        initial_delay: p.frame_delay,
        prev_delay: prev,
    }
}

/// A combo run extended by a placement clearing lines.
pub open spec fn extend_combo(c: ComboModel, p: PlacementStats, attack: usize) -> ComboModel {
    ComboModel {
        frames: c.frames.saturating_add(p.frame_delay),
        attack: c.attack.saturating_add(attack),
        blocks: c.blocks.saturating_add(1),
        multipliers: if p.clear_type.is_multipliable_spec() {
            c.multipliers.push(c.blocks)
        } else {
            c.multipliers
        },
        ..c
    }
}

/// The open combo run after the placement, and the run it finished, if any.
pub open spec fn combo_step(
    open: Option<ComboModel>,
    p: PlacementStats,
    attack: usize,
    prev: Option<u64>,
) -> (Option<ComboModel>, Option<ComboModel>) {
    if p.lines_cleared > 0 {
        match open {
            Some(c) => (Some(extend_combo(c, p, attack)), None),
            None => (Some(open_combo(p, attack, prev)), None),
        }
    } else {
        (None, open)
    }
}

/// The back-to-back run that a placement opens.
pub open spec fn open_btb(p: PlacementStats, attack: usize) -> BTBSegment {
    BTBSegment {
        frames: 0,
        attack,
        btb: 0,
        blocks: 1,
        wellshifts: 0,
        wasted_i: 0,
        wasted_t: 0,
        i_placed: if p.shape == MinoType::I { 1 } else { 0 },
        t_placed: if p.shape == MinoType::T { 1 } else { 0 },
        well: placement_well(p),
    }
}

/// A back-to-back run extended by a placement.
pub open spec fn extend_btb(b: BTBSegment, p: PlacementStats, attack: usize) -> BTBSegment {
    let mult = p.clear_type.is_multipliable_spec();
    let w = placement_well(p);
    BTBSegment {
        frames: b.frames.saturating_add(p.frame_delay),
        attack: b.attack.saturating_add(attack),
        btb: if mult { b.btb.saturating_add(1) } else { b.btb },
        blocks: b.blocks.saturating_add(1),
        wellshifts: if b.well != w { b.wellshifts.saturating_add(1) } else { b.wellshifts },
        wasted_i: if p.lines_cleared > 0 && !mult && p.shape == MinoType::I {
            b.wasted_i.saturating_add(1)
        } else {
            b.wasted_i
        },
        wasted_t: if p.lines_cleared > 0 && !mult && p.shape == MinoType::T {
            b.wasted_t.saturating_add(1)
        } else {
            b.wasted_t
        },
        i_placed: if p.shape == MinoType::I { b.i_placed.saturating_add(1) } else { b.i_placed },
        t_placed: if p.shape == MinoType::T { b.t_placed.saturating_add(1) } else { b.t_placed },
        well: w,
    }
}

/// The open back-to-back run after the placement, and the run it finished:
/// a placement that clears lines and breaks back-to-back closes the run, any
/// other one extends it or opens one.
pub open spec fn btb_step(open: Option<BTBSegment>, p: PlacementStats, attack: usize) -> (
    Option<BTBSegment>,
    Option<BTBSegment>,
) {
    if p.lines_cleared > 0 && !p.btb_clear {
        (None, open)
    } else {
        match open {
            Some(b) => (Some(extend_btb(b, p, attack)), None),
            None => (Some(open_btb(p, attack)), None),
        }
    }
}

/// The analyzer before the first placement.
pub open spec fn initial_state() -> AnalyzerState {
    AnalyzerState { stats: zero_model(), opener_over: false, combo: None, btb: None }
}

/// The analyzer after placement `i` of the game.
pub open spec fn step(
    st: AnalyzerState,
    game: Seq<PlacementStats>,
    scores: Seq<PlacementScores>,
    i: int,
) -> AnalyzerState {
    let p = game[i];
    let over = st.opener_over || ends_opener(p);
    let attack = attack_total(p.attack@);
    let cheese = i != 0 && p.garbage_cleared > 0 && is_cheese(game[i - 1].board@);
    let prev = if i > 0 { Some(game[i - 1].frame_delay) } else { None };
    let s = record_placement(st.stats, p, scores[i], attack, !over, cheese);
    let (combo, combo_done) = combo_step(st.combo, p, attack, prev);
    let (btb, btb_done) = btb_step(st.btb, p, attack);
    AnalyzerState {
        stats: StatsModel {
            combo_segments: push_some(s.combo_segments, combo_done),
            btb_segments: push_some(s.btb_segments, btb_done),
            ..s
        },
        opener_over: over,
        combo,
        btb,
    }
}

/// The analyzer after the first `n` placements.
pub open spec fn run(game: Seq<PlacementStats>, scores: Seq<PlacementScores>, n: nat) -> AnalyzerState
    decreases n,
{
    if n == 0 {
        initial_state()
    } else {
        step(run(game, scores, (n - 1) as nat), game, scores, n - 1)
    }
}

/// The bundle of a finished game: the runs still open are added.
pub open spec fn finish(st: AnalyzerState) -> StatsModel {
    StatsModel {
        combo_segments: push_some(st.stats.combo_segments, st.combo),
        btb_segments: push_some(st.stats.btb_segments, st.btb),
        ..st.stats
    }
}

/// The bundle of a game, given what the outside scorers said of each placement.
pub open spec fn analyze(game: Seq<PlacementStats>, scores: Seq<PlacementScores>) -> StatsModel {
    finish(run(game, scores, game.len()))
}

/// A placement that leaves the board empty counts as a perfect clear,
/// whatever its tag: the perfect-clear count grows by one and no other clear
/// kind changes.
pub proof fn lemma_perfect_clear_override(
    st: AnalyzerState,
    game: Seq<PlacementStats>,
    scores: Seq<PlacementScores>,
    i: int,
)
    requires
        0 <= i < game.len(),
        stack_height(game[i].board@) == 0,
    ensures
        step(st, game, scores, i).stats.clear_types == bump(
            st.stats.clear_types,
            ClearType::PerfectClear.ordinal_spec() as int,
        ),
{
}

/// Placements among the first `n` whose counted clear is of kind `t`.
pub open spec fn clear_count(game: Seq<PlacementStats>, n: int, t: int) -> nat
    decreases n,
{
    if n <= 0 {
        0
    } else {
        clear_count(game, n - 1, t) + if counted_clear(game[n - 1]).ordinal_spec() == t {
            1nat
        } else {
            0nat
        }
    }
}

proof fn lemma_clear_count_bound(game: Seq<PlacementStats>, n: int, t: int)
    requires
        0 <= n,
    ensures
        clear_count(game, n, t) <= n,
    decreases n,
{
    if n > 0 {
        lemma_clear_count_bound(game, n - 1, t);
    }
}

proof fn lemma_run_clear_counts(game: Seq<PlacementStats>, scores: Seq<PlacementScores>, n: int)
    requires
        0 <= n <= game.len(),
        game.len() <= usize::MAX,
    ensures
        run(game, scores, n as nat).stats.clear_types.len() == 16,
        forall|t: int|
            0 <= t < 16 ==> run(game, scores, n as nat).stats.clear_types[t] == #[trigger] clear_count(
                game,
                n,
                t,
            ),
    decreases n,
{
    if n == 0 {
        assert forall|t: int| 0 <= t < 16 implies run(game, scores, 0).stats.clear_types[t]
            == #[trigger] clear_count(game, 0, t) by {}
    } else {
        lemma_run_clear_counts(game, scores, n - 1);
        assert forall|t: int| 0 <= t < 16 implies run(game, scores, n as nat).stats.clear_types[t]
            == #[trigger] clear_count(game, n, t) by {
            lemma_clear_count_bound(game, n - 1, t);
        }
    }
}

/// Over a whole game, each clear kind is counted once for every placement
/// whose counted clear is of that kind: a placement that leaves the board
/// empty counts as a perfect clear, whatever its tag; any other one by its tag.
pub proof fn lemma_game_clear_counts(game: Seq<PlacementStats>, scores: Seq<PlacementScores>, t: int)
    requires
        0 <= t < 16,
        game.len() <= usize::MAX,
    ensures
        analyze(game, scores).clear_types[t] == clear_count(game, game.len() as int, t),
{
    lemma_run_clear_counts(game, scores, game.len() as int);
}

/// Some placement among the first `n` ends the opener.
pub open spec fn opener_ended(game: Seq<PlacementStats>, n: int) -> bool {
    exists|j: int| 0 <= j < n && ends_opener(#[trigger] game[j])
}

/// Placements among the first `n` counted in the opener: those up to which
/// no placement, themselves included, ended it.
pub open spec fn opener_count(game: Seq<PlacementStats>, n: int) -> nat
    decreases n,
{
    if n <= 0 {
        0
    } else {
        opener_count(game, n - 1) + if opener_ended(game, n) {
            0nat
        } else {
            1nat
        }
    }
}

proof fn lemma_run_opener(game: Seq<PlacementStats>, scores: Seq<PlacementScores>, n: int)
    requires
        0 <= n <= game.len(),
        game.len() <= usize::MAX,
    ensures
        run(game, scores, n as nat).opener_over == opener_ended(game, n),
        run(game, scores, n as nat).stats.opener_blocks == opener_count(game, n),
        opener_count(game, n) <= n,
    decreases n,
{
    if n > 0 {
        lemma_run_opener(game, scores, n - 1);
        if opener_ended(game, n - 1) {
            let j = choose|j: int| 0 <= j < n - 1 && ends_opener(#[trigger] game[j]);
            assert(0 <= j < n && ends_opener(game[j]));
        }
        if ends_opener(game[n - 1]) {
            assert(opener_ended(game, n));
        }
        if opener_ended(game, n) && !ends_opener(game[n - 1]) {
            let j = choose|j: int| 0 <= j < n && ends_opener(#[trigger] game[j]);
            assert(j < n - 1);
        }
    }
}

/// Over a whole game, the opener holds the placements before the first one
/// that ends it.
pub proof fn lemma_game_opener_length(game: Seq<PlacementStats>, scores: Seq<PlacementScores>)
    requires
        game.len() <= usize::MAX,
    ensures
        analyze(game, scores).opener_blocks == opener_count(game, game.len() as int),
{
    lemma_run_opener(game, scores, game.len() as int);
}

/// Placement `i` starts a combo run: it clears lines and the one before it,
/// if any, did not.
pub open spec fn starts_combo(game: Seq<PlacementStats>, i: int) -> bool {
    game[i].lines_cleared > 0 && (i == 0 || game[i - 1].lines_cleared == 0)
}

/// Placements among the first `n` that start a combo run.
pub open spec fn combo_starts(game: Seq<PlacementStats>, n: int) -> nat
    decreases n,
{
    if n <= 0 {
        0
    } else {
        combo_starts(game, n - 1) + if starts_combo(game, n - 1) {
            1nat
        } else {
            0nat
        }
    }
}

/// The placement clears lines and breaks back-to-back.
pub open spec fn breaks_btb(p: PlacementStats) -> bool {
    p.lines_cleared > 0 && !p.btb_clear
}

/// Placement `i` starts a back-to-back run: it does not break back-to-back
/// and the one before it, if any, did.
pub open spec fn starts_btb(game: Seq<PlacementStats>, i: int) -> bool {
    !breaks_btb(game[i]) && (i == 0 || breaks_btb(game[i - 1]))
}

/// Placements among the first `n` that start a back-to-back run.
pub open spec fn btb_starts(game: Seq<PlacementStats>, n: int) -> nat
    decreases n,
{
    if n <= 0 {
        0
    } else {
        btb_starts(game, n - 1) + if starts_btb(game, n - 1) {
            1nat
        } else {
            0nat
        }
    }
}

proof fn lemma_run_segments(game: Seq<PlacementStats>, scores: Seq<PlacementScores>, n: int)
    requires
        0 <= n <= game.len(),
    ensures
        run(game, scores, n as nat).combo.is_some() == (n > 0 && game[n - 1].lines_cleared > 0),
        run(game, scores, n as nat).stats.combo_segments.len() + (if run(
            game,
            scores,
            n as nat,
        ).combo.is_some() {
            1int
        } else {
            0int
        }) == combo_starts(game, n),
        run(game, scores, n as nat).btb.is_some() == (n > 0 && !breaks_btb(game[n - 1])),
        run(game, scores, n as nat).stats.btb_segments.len() + (if run(
            game,
            scores,
            n as nat,
        ).btb.is_some() {
            1int
        } else {
            0int
        }) == btb_starts(game, n),
    decreases n,
{
    if n > 0 {
        lemma_run_segments(game, scores, n - 1);
    }
}

/// Over a whole game, one combo run is recorded for each maximal stretch of
/// placements that clear lines, and one back-to-back run for each maximal
/// stretch of placements that do not break back-to-back.
pub proof fn lemma_game_segment_counts(game: Seq<PlacementStats>, scores: Seq<PlacementScores>)
    ensures
        analyze(game, scores).combo_segments.len() == combo_starts(game, game.len() as int),
        analyze(game, scores).btb_segments.len() == btb_starts(game, game.len() as int),
{
    lemma_run_segments(game, scores, game.len() as int);
}

/// A game of one placement that clears nothing, on a board left standing:
/// its shape and its tag are each counted once and nothing else is; no combo
/// run is recorded, and the back-to-back run it opened is flushed at the end.
pub proof fn lemma_single_quiet_placement(p: PlacementStats, sc: PlacementScores)
    requires
        p.lines_cleared == 0,
        p.garbage_cleared == 0,
        stack_height(p.board@) > 0,
    ensures
        forall|t: int|
            0 <= t < 9 ==> #[trigger] analyze(seq![p], seq![sc]).shape_types[t] == if t
                == p.shape.ordinal_spec() {
                1usize
            } else {
                0usize
            },
        forall|t: int|
            0 <= t < 16 ==> #[trigger] analyze(seq![p], seq![sc]).clear_types[t] == if t
                == p.clear_type.ordinal_spec() {
                1usize
            } else {
                0usize
            },
        analyze(seq![p], seq![sc]).combo_segments.len() == 0,
        analyze(seq![p], seq![sc]).btb_segments.len() == 1,
{
    let game = seq![p];
    let scores = seq![sc];
    assert(run(game, scores, 0) == initial_state());
    assert(run(game, scores, 1) == step(run(game, scores, 0), game, scores, 0));
    let st = run(game, scores, 1);
    assert(game[0] == p);
    assert forall|t: int| 0 <= t < 9 implies #[trigger] st.stats.shape_types[t] == if t
        == p.shape.ordinal_spec() {
        1usize
    } else {
        0usize
    } by {}
    assert forall|t: int| 0 <= t < 16 implies #[trigger] st.stats.clear_types[t] == if t
        == p.clear_type.ordinal_spec() {
        1usize
    } else {
        0usize
    } by {}
}

/// The value of an optional combo run.
pub open spec fn combo_view(c: Option<ComboSegment>) -> Option<ComboModel> {
    match c {
        Some(s) => Some(s@),
        None => None,
    }
}

fn sum_attack(parts: &Vec<usize>) -> (r: usize)
    ensures
        r == attack_total(parts@),
{
    let mut total: usize = 0;
    let mut i: usize = 0;
    while i < parts.len()
        invariant
            i <= parts@.len(),
            total == attack_total(parts@.subrange(0, i as int)),
        decreases parts@.len() - i,
    {
        assert(parts@.subrange(0, i + 1).drop_last() =~= parts@.subrange(0, i as int));
        total = total.saturating_add(parts[i]);
        i += 1;
    }
    assert(parts@.subrange(0, i as int) =~= parts@);
    total
}

fn same_well(a: Option<usize>, b: Option<usize>) -> (r: bool)
    ensures
        r == (a == b),
{
    match (a, b) {
        (Some(x), Some(y)) => x == y,
        (None, None) => true,
        _ => false,
    }
}

fn well_of(p: &PlacementStats, height: usize) -> (r: Option<usize>)
    requires
        p.wf(),
        height == stack_height(p.board@),
    ensures
        r == placement_well(*p),
{
    if height > 0 {
        Some(get_well(&p.board))
    } else {
        None
    }
}

fn step_combo(
    open: Option<ComboSegment>,
    p: &PlacementStats,
    attack: usize,
    prev: Option<u64>,
) -> (r: (Option<ComboSegment>, Option<ComboSegment>))
    ensures
        (combo_view(r.0), combo_view(r.1)) == combo_step(combo_view(open), *p, attack, prev),
{
    if p.lines_cleared > 0 {
        match open {
            Some(c) => {
                let mut c = c;
                if p.clear_type.is_multipliable() {
                    c.multipliers.push(c.blocks);
                }
                c.frames = c.frames.saturating_add(p.frame_delay);
                c.attack = c.attack.saturating_add(attack);
                c.blocks = c.blocks.saturating_add(1);
                (Some(c), None)
            },
            None => {
                let c = ComboSegment::new(
                    attack,
                    p.clear_type.is_multipliable(),
                    p.frame_delay,
                    prev,
                );
                (Some(c), None)
            },
        }
    } else {
        (None, open)
    }
}

fn step_btb(open: Option<BTBSegment>, p: &PlacementStats, attack: usize, height: usize) -> (r: (
    Option<BTBSegment>,
    Option<BTBSegment>,
))
    requires
        p.wf(),
        height == stack_height(p.board@),
    ensures
        r == btb_step(open, *p, attack),
{
    if p.lines_cleared > 0 && !p.btb_clear {
        (None, open)
    } else {
        let w = well_of(p, height);
        let is_i = p.shape == MinoType::I;
        let is_t = p.shape == MinoType::T;
        match open {
            Some(b) => {
                let mut b = b;
                let mult = p.clear_type.is_multipliable();
                b.frames = b.frames.saturating_add(p.frame_delay);
                b.attack = b.attack.saturating_add(attack);
                if mult {
                    b.btb = b.btb.saturating_add(1);
                } else if p.lines_cleared > 0 && is_i {
                    b.wasted_i = b.wasted_i.saturating_add(1);
                } else if p.lines_cleared > 0 && is_t {
                    b.wasted_t = b.wasted_t.saturating_add(1);
                }
                if is_i {
                    b.i_placed = b.i_placed.saturating_add(1);
                } else if is_t {
                    b.t_placed = b.t_placed.saturating_add(1);
                }
                b.blocks = b.blocks.saturating_add(1);
                if !same_well(b.well, w) {
                    b.wellshifts = b.wellshifts.saturating_add(1);
                }
                b.well = w;
                (Some(b), None)
            },
            None => {
                let b = BTBSegment::new(attack, p.shape, w);
                (Some(b), None)
            },
        }
    }
}

impl CumulativePlacementStats {
    fn push_combo(&mut self, done: Option<ComboSegment>)
        ensures
            final(self)@ == (StatsModel {
                combo_segments: push_some(old(self)@.combo_segments, combo_view(done)),
                ..old(self)@
            }),
    {
        let ghost before = self.combo_segments@;
        match done {
            Some(c) => {
                self.combo_segments.push(c);
                assert(self.combo_segments@.map_values(|c: ComboSegment| c@) =~= before.map_values(
                    |c: ComboSegment| c@,
                ).push(c@));
            },
            None => {},
        }
    }

    fn push_btb(&mut self, done: Option<BTBSegment>)
        ensures
            final(self)@ == (StatsModel {
                btb_segments: push_some(old(self)@.btb_segments, done),
                ..old(self)@
            }),
    {
        match done {
            Some(b) => self.btb_segments.push(b),
            None => {},
        }
    }

    #[verifier::rlimit(40)]
    fn record(
        &mut self,
        p: &PlacementStats,
        sc: &PlacementScores,
        attack: usize,
        in_opener: bool,
        cheese: bool,
        height: usize,
    )
        requires
            p.wf(),
            height == stack_height(p.board@),
        ensures
            final(self)@ == record_placement(old(self)@, *p, *sc, attack, in_opener, cheese),
    {
        let gh = get_garbage_height(&p.board);
        proof {
            lemma_garbage_within_stack(p.board@);
        }
        let shape = p.shape.ordinal();
        let v = self.shape_types[shape].saturating_add(1);
        self.shape_types[shape] = v;
        let clear = if height == 0 {
            ClearType::PerfectClear.ordinal()
        } else {
            p.clear_type.ordinal()
        };
        let v = self.clear_types[clear].saturating_add(1);
        self.clear_types[clear] = v;
        self.garbage_cleared = self.garbage_cleared.saturating_add(p.garbage_cleared);
        self.lines_cleared = self.lines_cleared.saturating_add(p.lines_cleared);
        self.attack = self.attack.saturating_add(attack);
        if in_opener {
            self.opener_blocks = self.opener_blocks.saturating_add(1);
            self.opener_attack = self.opener_attack.saturating_add(attack);
            self.opener_frames = self.opener_frames.saturating_add(p.frame_delay);
        }
        if p.garbage_cleared > 0 {
            self.attack_with_garbage = self.attack_with_garbage.saturating_add(attack);
            self.exclusive_garbage_cleared = self.exclusive_garbage_cleared.saturating_add(
                p.lines_cleared,
            );
        } else if p.lines_cleared > 0 {
            self.attack_with_stack = self.attack_with_stack.saturating_add(attack);
            self.exclusive_stack_cleared = self.exclusive_stack_cleared.saturating_add(
                p.lines_cleared,
            );
        }
        if cheese {
            self.attack_with_cheese = self.attack_with_cheese.saturating_add(attack);
            self.exclusive_cheese_cleared = self.exclusive_cheese_cleared.saturating_add(
                p.lines_cleared,
            );
        }
        self.delays.push(p.frame_delay);
        self.keypresses = self.keypresses.saturating_add(p.keypresses);
        self.stack_heights.push(height - gh);
        self.garbage_heights.push(gh);
        self.defense_potentials.push(sc.defense_potential);
        self.attack_potentials.push(sc.attack_potential);
        match sc.ai_score {
            Some(v) => {
                if v > 0 {
                    self.blockfish_scores.push(v as usize);
                }
            },
            None => {},
        }
    }

    /// The bundle of one game, given what the outside scorers said of each
    /// of its placements (`scores[i]` of `game[i]`).
    pub fn from_game(game: &Vec<PlacementStats>, scores: &Vec<PlacementScores>) -> (r: Self)
        requires
            game@.len() == scores@.len(),
            forall|i: int| 0 <= i < game@.len() ==> (#[trigger] game@[i]).wf(),
        ensures
            r@ == analyze(game@, scores@),
    {
        let mut stats = CumulativePlacementStats::new();
        let mut opener_over = false;
        let mut current_combo: Option<ComboSegment> = None;
        let mut current_btb: Option<BTBSegment> = None;
        let mut i: usize = 0;
        while i < game.len()
            invariant
                i <= game@.len(),
                game@.len() == scores@.len(),
                forall|j: int| 0 <= j < game@.len() ==> (#[trigger] game@[j]).wf(),
                run(game@, scores@, i as nat) == (AnalyzerState {
                    stats: stats@,
                    opener_over,
                    combo: combo_view(current_combo),
                    btb: current_btb,
                }),
            decreases game@.len() - i,
        {
            let p = &game[i];
            assert(p.wf());
            if !opener_over && p.garbage_cleared > 0 && ((p.shape == MinoType::T && !p.btb_clear)
                || (p.shape != MinoType::T && p.lines_cleared < 4)) {
                opener_over = true;
            }
            let height = get_height(&p.board);
            let attack = sum_attack(&p.attack);
            let cheese = i != 0 && p.garbage_cleared > 0 && has_cheese(&game[i - 1].board);
            let prev = if i > 0 {
                Some(game[i - 1].frame_delay)
            } else {
                None
            };
            stats.record(p, &scores[i], attack, !opener_over, cheese, height);
            let (combo, combo_done) = step_combo(current_combo, p, attack, prev);
            let (btb, btb_done) = step_btb(current_btb, p, attack, height);
            stats.push_combo(combo_done);
            stats.push_btb(btb_done);
            current_combo = combo;
            current_btb = btb;
            i += 1;
        }
        stats.push_combo(current_combo);
        stats.push_btb(current_btb);
        stats
    }
}

} // verus!
