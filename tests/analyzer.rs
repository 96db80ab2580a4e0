use action_parser::ai_input::{ai_snapshot, mino_to_color};
use action_parser::board_analyzer::MinoType;
use action_parser::placement_stats::CumulativePlacementStats;
use action_parser::replay_response::{ClearType, PlacementStats};
use action_parser::segment_analyzer::PlacementScores;

fn board_with_height(h: usize) -> Vec<MinoType> {
    let mut b = vec![MinoType::Empty; 400];
    if h > 0 {
        b[(40 - h) * 10] = MinoType::Z;
        b[39 * 10 + 1] = MinoType::Z;
    }
    b
}

fn placement(shape: MinoType, clear: ClearType, lines: usize, board: Vec<MinoType>) -> PlacementStats {
    PlacementStats {
        shape,
        clear_type: clear,
        board,
        garbage_cleared: 0,
        lines_cleared: lines,
        attack: vec![],
        frame_delay: 10_000,
        keypresses: 3,
        queue: vec![MinoType::T, MinoType::I, MinoType::O],
        btb_chain: 0,
        combo: 0,
        btb_clear: false,
    }
}

fn scores(n: usize) -> Vec<PlacementScores> {
    vec![PlacementScores { attack_potential: 4, defense_potential: 2, ai_score: Some(7) }; n]
}

#[test]
fn single_quiet_placement() {
    let game = vec![placement(MinoType::S, ClearType::NoClear, 0, board_with_height(39))];
    let s = CumulativePlacementStats::from_game(&game, &scores(1));
    assert_eq!(s.shape_types[MinoType::S.ordinal()], 1);
    assert_eq!(s.shape_types.iter().sum::<usize>(), 1);
    assert_eq!(s.clear_types[ClearType::NoClear.ordinal()], 1);
    assert_eq!(s.clear_types.iter().sum::<usize>(), 1);
    assert!(s.combo_segments.is_empty());
    // A placement that clears nothing keeps the back-to-back run open, so the
    // run it opened is flushed at the end of the game.
    assert_eq!(s.btb_segments.len(), 1);
    assert_eq!(s.btb_segments[0].blocks, 1);
    assert_eq!(s.stack_heights, vec![39]);
    assert_eq!(s.garbage_heights, vec![0]);
    assert_eq!(s.delays, vec![10_000]);
    assert_eq!(s.keypresses, 3);
    assert_eq!(s.attack_potentials, vec![4]);
    assert_eq!(s.defense_potentials, vec![2]);
    assert_eq!(s.blockfish_scores, vec![7]);
}

#[test]
fn empty_board_counts_as_perfect_clear() {
    let game = vec![placement(MinoType::I, ClearType::Single, 1, board_with_height(0))];
    let s = CumulativePlacementStats::from_game(&game, &scores(1));
    assert_eq!(s.clear_types[ClearType::PerfectClear.ordinal()], 1);
    assert_eq!(s.clear_types[ClearType::Single.ordinal()], 0);
}

#[test]
fn empty_game_gives_empty_bundle() {
    let s = CumulativePlacementStats::from_game(&vec![], &vec![]);
    assert_eq!(s.clear_types.iter().sum::<usize>(), 0);
    assert!(s.delays.is_empty() && s.btb_segments.is_empty() && s.combo_segments.is_empty());
}

#[test]
fn combo_segment_runs_over_clears() {
    let mut a = placement(MinoType::T, ClearType::TspinDouble, 2, board_with_height(5));
    a.attack = vec![3, 1];
    a.btb_clear = true;
    let mut b = placement(MinoType::L, ClearType::Single, 1, board_with_height(4));
    b.attack = vec![1];
    let c = placement(MinoType::O, ClearType::NoClear, 0, board_with_height(6));
    let s = CumulativePlacementStats::from_game(&vec![a, b, c], &scores(3));
    assert_eq!(s.attack, 5);
    assert_eq!(s.lines_cleared, 3);
    assert_eq!(s.attack_with_stack, 5);
    assert_eq!(s.exclusive_stack_cleared, 3);
    assert_eq!(s.combo_segments.len(), 1);
    let combo = &s.combo_segments[0];
    assert_eq!(combo.blocks, 2);
    assert_eq!(combo.attack, 5);
    assert_eq!(combo.frames, 10_000);
    assert_eq!(combo.multipliers, vec![0]);
    assert_eq!(combo.initial_delay, 10_000);
    assert_eq!(combo.prev_delay, None);
    // The single breaks back-to-back and closes the first run; the last
    // placement opens a new one.
    assert_eq!(s.btb_segments.len(), 2);
    assert_eq!(s.btb_segments[0].attack, 4);
    assert_eq!(s.btb_segments[0].t_placed, 1);
    assert_eq!(s.btb_segments[1].well, Some(0));
}

#[test]
fn btb_segment_tracks_chain_and_wellshifts() {
    let mut a = placement(MinoType::I, ClearType::Quad, 4, board_with_height(8));
    a.btb_clear = true;
    let mut b = placement(MinoType::T, ClearType::TspinSingle, 1, board_with_height(7));
    b.btb_clear = true;
    let mut c = placement(MinoType::I, ClearType::NoClear, 0, board_with_height(0));
    c.garbage_cleared = 0;
    let s = CumulativePlacementStats::from_game(&vec![a, b, c], &scores(3));
    assert_eq!(s.btb_segments.len(), 1);
    let seg = &s.btb_segments[0];
    assert_eq!(seg.blocks, 3);
    assert_eq!(seg.btb, 1);
    assert_eq!(seg.i_placed, 2);
    assert_eq!(seg.t_placed, 1);
    // The last I placement clears nothing, so it wastes nothing.
    assert_eq!(seg.wasted_i, 0);
    assert_eq!(seg.frames, 20_000);
    assert_eq!(seg.well, None);
    assert_eq!(seg.wellshifts, 1);
}

#[test]
fn opener_ends_at_first_downstack_clear() {
    let a = placement(MinoType::J, ClearType::NoClear, 0, board_with_height(3));
    let mut b = placement(MinoType::L, ClearType::Single, 1, board_with_height(3));
    b.garbage_cleared = 1;
    b.attack = vec![2];
    let c = placement(MinoType::O, ClearType::NoClear, 0, board_with_height(4));
    let s = CumulativePlacementStats::from_game(&vec![a, b, c], &scores(3));
    assert_eq!(s.opener_blocks, 1);
    assert_eq!(s.opener_frames, 10_000);
    assert_eq!(s.attack_with_garbage, 2);
    assert_eq!(s.exclusive_garbage_cleared, 1);
    assert_eq!(s.garbage_cleared, 1);
}

#[test]
fn cheese_clear_is_attributed() {
    let mut cheese_board = vec![MinoType::Empty; 400];
    for x in 1..10 {
        cheese_board[39 * 10 + x] = MinoType::Garbage;
    }
    let a = placement(MinoType::J, ClearType::NoClear, 0, cheese_board);
    let mut b = placement(MinoType::I, ClearType::Single, 1, board_with_height(2));
    b.garbage_cleared = 1;
    b.attack = vec![1];
    let s = CumulativePlacementStats::from_game(&vec![a, b], &scores(2));
    assert_eq!(s.attack_with_cheese, 1);
    assert_eq!(s.exclusive_cheese_cleared, 1);
}

#[test]
fn non_positive_ai_scores_are_dropped() {
    let game = vec![
        placement(MinoType::S, ClearType::NoClear, 0, board_with_height(2)),
        placement(MinoType::S, ClearType::NoClear, 0, board_with_height(2)),
        placement(MinoType::S, ClearType::NoClear, 0, board_with_height(2)),
    ];
    let sc = vec![
        PlacementScores { attack_potential: 0, defense_potential: 0, ai_score: Some(0) },
        PlacementScores { attack_potential: 0, defense_potential: 0, ai_score: Some(-4) },
        PlacementScores { attack_potential: 0, defense_potential: 0, ai_score: None },
    ];
    let s = CumulativePlacementStats::from_game(&game, &sc);
    assert!(s.blockfish_scores.is_empty());
    assert_eq!(s.attack_potentials.len(), 3);
}

#[test]
fn attack_sum_saturates() {
    let mut a = placement(MinoType::T, ClearType::TspinDouble, 2, board_with_height(3));
    a.attack = vec![usize::MAX, 5];
    let s = CumulativePlacementStats::from_game(&vec![a], &scores(1));
    assert_eq!(s.attack, usize::MAX);
}

#[test]
fn ai_snapshot_takes_five_pieces_and_cells_above_garbage() {
    let mut board = vec![MinoType::Empty; 400];
    for x in 0..9 {
        board[39 * 10 + x] = MinoType::Garbage;
    }
    board[38 * 10 + 2] = MinoType::T;
    let mut p = placement(MinoType::T, ClearType::NoClear, 0, board);
    p.queue = vec![
        MinoType::Garbage, MinoType::Z, MinoType::L, MinoType::O, MinoType::S, MinoType::I,
        MinoType::J,
    ];
    let snap = ai_snapshot(&p).unwrap();
    assert_eq!(snap.hold, 'Z');
    assert_eq!(snap.queue, vec!['L', 'O', 'S', 'I']);
    assert_eq!(snap.cells, vec![(0, 2)]);
    p.queue = vec![MinoType::Empty];
    assert!(ai_snapshot(&p).is_none());
    assert_eq!(mino_to_color(MinoType::J), Some('J'));
    assert_eq!(mino_to_color(MinoType::Garbage), None);
}

#[test]
fn non_multiplying_clear_by_i_is_wasted() {
    let mut a = placement(MinoType::I, ClearType::Quad, 4, board_with_height(8));
    a.btb_clear = true;
    let mut b = placement(MinoType::I, ClearType::Single, 1, board_with_height(7));
    b.btb_clear = true;
    let mut c = placement(MinoType::T, ClearType::Double, 2, board_with_height(5));
    c.btb_clear = true;
    let s = CumulativePlacementStats::from_game(&vec![a, b, c], &scores(3));
    assert_eq!(s.btb_segments.len(), 1);
    assert_eq!(s.btb_segments[0].wasted_i, 1);
    assert_eq!(s.btb_segments[0].wasted_t, 1);
    assert_eq!(s.btb_segments[0].btb, 0);
}
