use action_parser::cache::{
    eviction_victims, hit_usable, is_expired, names_to_compute, should_sweep, MAX_CACHED_FILES,
    MAX_TRIMMED_FILES, TIME_TO_LIVE,
};
use action_parser::placement_stats::CumulativePlacementStats;
use action_parser::players::{find_player, merge_entries, merge_player, PlayerEntry};

fn entry(name: &str, attack: usize) -> PlayerEntry {
    let mut stats = CumulativePlacementStats::new();
    stats.attack = attack;
    PlayerEntry { name: name.to_string(), stats }
}

#[test]
fn one_over_the_ceiling_sweeps_down_to_the_floor() {
    assert!(should_sweep(MAX_CACHED_FILES + 1, MAX_CACHED_FILES, false));
    assert!(!should_sweep(MAX_CACHED_FILES + 1, MAX_CACHED_FILES, true));
    assert!(!should_sweep(MAX_CACHED_FILES, MAX_CACHED_FILES, false));
    // Modification times in reverse order: the last entries are the oldest.
    let modified: Vec<u64> = (0..(MAX_CACHED_FILES as u64 + 1)).rev().collect();
    let victims = eviction_victims(&modified, MAX_TRIMMED_FILES);
    assert_eq!(victims.len(), MAX_CACHED_FILES + 1 - MAX_TRIMMED_FILES);
    let mut v = victims.clone();
    v.sort();
    let expected: Vec<usize> = (MAX_TRIMMED_FILES..=MAX_CACHED_FILES).collect();
    assert_eq!(v, expected);
}

#[test]
fn no_victims_below_the_floor() {
    assert!(eviction_victims(&vec![5, 1, 3], 3).is_empty());
    assert_eq!(eviction_victims(&vec![5, 1, 3], 2), vec![1]);
}

#[test]
fn expiry_after_time_to_live() {
    assert!(is_expired(TIME_TO_LIVE + 11, 10, TIME_TO_LIVE));
    assert!(!is_expired(TIME_TO_LIVE + 10, 10, TIME_TO_LIVE));
    assert!(!is_expired(5, 10, TIME_TO_LIVE));
}

#[test]
fn unfiltered_hit_needs_two_players() {
    let e = vec![entry("A", 1), entry("B", 2)];
    assert!(hit_usable(&e, &vec![]));
    assert!(!hit_usable(&vec![entry("A", 1)], &vec![]));
}

#[test]
fn filtered_hit_needs_every_name() {
    let e = vec![entry("Alice", 1), entry("Bob", 2)];
    assert!(hit_usable(&e, &vec!["alice".to_string()]));
    assert!(!hit_usable(&e, &vec!["alice".to_string(), "carol".to_string()]));
}

#[test]
fn only_uncached_names_are_computed() {
    let e = vec![entry("Alice", 1)];
    let names = vec!["Alice".to_string(), "Bob".to_string()];
    assert_eq!(names_to_compute(&names, &e), vec!["Bob"]);
}

#[test]
fn merging_players_absorbs_or_adds() {
    let mut t: Vec<PlayerEntry> = Vec::new();
    let mut s = CumulativePlacementStats::new();
    s.attack = 3;
    merge_player(&mut t, "A".to_string(), s);
    let mut s = CumulativePlacementStats::new();
    s.attack = 4;
    merge_player(&mut t, "A".to_string(), s);
    assert_eq!(t.len(), 1);
    assert_eq!(t[0].stats.attack, 7);
    assert_eq!(find_player(&t, &"A".to_string()), Some(0));
    assert_eq!(find_player(&t, &"a".to_string()), None);
    merge_entries(&mut t, vec![entry("B", 1), entry("C", 2)], &vec!["c".to_string()]);
    assert_eq!(t.len(), 2);
    assert_eq!(t[1].name, "C");
}
