use action_parser::board_analyzer::MinoType;
use action_parser::placement_stats::{BTBSegment, ComboSegment, CumulativePlacementStats};

fn bundle(seed: usize) -> CumulativePlacementStats {
    let mut s = CumulativePlacementStats::new();
    s.clear_types[1] = seed;
    s.shape_types[4] = seed + 1;
    s.attack = seed * 3;
    s.keypresses = seed + 7;
    s.opener_frames = seed as u64 * 1000;
    s.delays = vec![seed as u64, 2];
    s.stack_heights = vec![seed];
    s.attack_potentials = vec![seed, seed + 1];
    s.btb_segments = vec![BTBSegment {
        frames: 5,
        attack: seed,
        btb: 1,
        blocks: 2,
        wellshifts: 0,
        wasted_i: 0,
        wasted_t: 0,
        i_placed: 1,
        t_placed: 0,
        well: Some(seed),
    }];
    s.combo_segments = vec![ComboSegment {
        frames: 1,
        attack: seed,
        blocks: 3,
        multipliers: vec![0],
        initial_delay: 4,
        prev_delay: None,
    }];
    s
}

fn merged(a: usize, b: usize) -> CumulativePlacementStats {
    let mut x = bundle(a);
    x.absorb(bundle(b));
    x
}

fn sorted<T: Ord + Clone>(v: &[T]) -> Vec<T> {
    let mut v = v.to_vec();
    v.sort();
    v
}

#[test]
fn absorb_adds_counters_and_concatenates_series() {
    let m = merged(2, 5);
    assert_eq!(m.clear_types[1], 7);
    assert_eq!(m.shape_types[4], 9);
    assert_eq!(m.attack, 21);
    assert_eq!(m.keypresses, 21);
    assert_eq!(m.opener_frames, 7000);
    assert_eq!(m.delays, vec![2, 2, 5, 2]);
    assert_eq!(m.stack_heights, vec![2, 5]);
    assert_eq!(m.btb_segments.len(), 2);
    assert_eq!(m.combo_segments.len(), 2);
}

#[test]
fn absorb_is_commutative_up_to_order() {
    let ab = merged(2, 5);
    let ba = merged(5, 2);
    assert_eq!(ab.clear_types, ba.clear_types);
    assert_eq!(ab.attack, ba.attack);
    assert_eq!(sorted(&ab.delays), sorted(&ba.delays));
    assert_eq!(sorted(&ab.attack_potentials), sorted(&ba.attack_potentials));
}

#[test]
fn absorb_is_associative() {
    let mut left = merged(1, 2);
    left.absorb(bundle(3));
    let mut right = bundle(1);
    right.absorb(merged(2, 3));
    assert_eq!(left.clear_types, right.clear_types);
    assert_eq!(left.attack, right.attack);
    assert_eq!(left.delays, right.delays);
    assert_eq!(left.btb_segments, right.btb_segments);
}

#[test]
fn empty_bundle_is_identity() {
    let mut z = CumulativePlacementStats::default();
    z.absorb(bundle(4));
    let b = bundle(4);
    assert_eq!(z.clear_types, b.clear_types);
    assert_eq!(z.delays, b.delays);
    assert_eq!(z.keypresses, b.keypresses);
    let mut b2 = bundle(4);
    b2.absorb(CumulativePlacementStats::new());
    assert_eq!(b2.attack_potentials, b.attack_potentials);
}

#[test]
fn absorb_saturates() {
    let mut a = CumulativePlacementStats::new();
    a.attack = usize::MAX - 1;
    let mut b = CumulativePlacementStats::new();
    b.attack = 5;
    a.absorb(b);
    assert_eq!(a.attack, usize::MAX);
}

#[test]
fn segment_constructors() {
    let b = BTBSegment::new(4, MinoType::T, Some(2));
    assert_eq!((b.attack, b.blocks, b.t_placed, b.i_placed, b.well), (4, 1, 1, 0, Some(2)));
    let b = BTBSegment::new(0, MinoType::I, None);
    assert_eq!((b.i_placed, b.t_placed, b.btb, b.frames), (1, 0, 0, 0));
    let c = ComboSegment::new(3, true, 1500, Some(900));
    assert_eq!(c.multipliers, vec![0]);
    assert_eq!((c.attack, c.blocks, c.frames, c.initial_delay, c.prev_delay), (3, 1, 0, 1500, Some(900)));
    assert!(ComboSegment::new(3, false, 1500, None).multipliers.is_empty());
}
