//! Bundles keyed by player name, and the merges that fill them.

use vstd::prelude::*;
use crate::placement_stats::{absorb_model, CumulativePlacementStats, StatsModel};
use crate::text::{contains_name, lowercase_name, views, wanted};

verus! {

/// One player's bundle.
#[derive(Debug)]
pub struct PlayerEntry {
    pub name: String,
    pub stats: CumulativePlacementStats,
}

/// The value of a list of player bundles.
pub open spec fn entries_view(v: Seq<PlayerEntry>) -> Seq<(Seq<char>, StatsModel)> {
    v.map_values(|e: PlayerEntry| (e.name@, e.stats@))
}

/// The names of a list of player bundles, in order.
pub open spec fn entry_names(t: Seq<(Seq<char>, StatsModel)>) -> Seq<Seq<char>> {
    t.map_values(|e: (Seq<char>, StatsModel)| e.0)
}

/// The first position at or after `i` that holds `name`, or -1.
pub open spec fn find_from(t: Seq<(Seq<char>, StatsModel)>, name: Seq<char>, i: int) -> int
    decreases t.len() - i,
{
    if i < 0 || i >= t.len() {
        -1
    } else if t[i].0 == name {
        i
    } else {
        find_from(t, name, i + 1)
    }
}

proof fn lemma_find_from(t: Seq<(Seq<char>, StatsModel)>, name: Seq<char>, i: int)
    ensures
        find_from(t, name, i) == -1 || (0 <= find_from(t, name, i) < t.len() && t[find_from(
            t,
            name,
            i,
        )].0 == name),
    decreases t.len() - i,
{
    if 0 <= i < t.len() && t[i].0 != name {
        lemma_find_from(t, name, i + 1);
    }
}

/// The first position that holds `name`, or -1.
pub open spec fn find_name(t: Seq<(Seq<char>, StatsModel)>, name: Seq<char>) -> int {
    find_from(t, name, 0)
}

/// `s` merged into the bundle of `name`, which is added when missing.
pub open spec fn merged(t: Seq<(Seq<char>, StatsModel)>, name: Seq<char>, s: StatsModel) -> Seq<
    (Seq<char>, StatsModel),
> {
    let i = find_name(t, name);
    if i >= 0 {
        t.update(i, (name, absorb_model(t[i].1, s)))
    } else {
        t.push((name, s))
    }
}

/// The bundles of `entries` that the filter lets through merged into `t`,
/// the last entry first.
pub open spec fn merged_entries(
    t: Seq<(Seq<char>, StatsModel)>,
    entries: Seq<(Seq<char>, StatsModel)>,
    filter: Seq<Seq<char>>,
) -> Seq<(Seq<char>, StatsModel)>
    decreases entries.len(),
{
    if entries.len() == 0 {
        t
    } else {
        let e = entries.last();
        let t2 = if wanted(filter, e.0) {
            merged(t, e.0, e.1)
        } else {
            t
        };
        merged_entries(t2, entries.drop_last(), filter)
    }
}

/// Names are not repeated.
pub open spec fn distinct_names(t: Seq<(Seq<char>, StatsModel)>) -> bool {
    forall|i: int, j: int| 0 <= i < j < t.len() ==> t[i].0 != t[j].0
}

proof fn lemma_find_from_absent(t: Seq<(Seq<char>, StatsModel)>, name: Seq<char>, i: int, k: int)
    requires
        0 <= i <= k < t.len(),
        find_from(t, name, i) == -1,
    ensures
        t[k].0 != name,
    decreases k - i,
{
    if i < k {
        lemma_find_from_absent(t, name, i + 1, k);
    }
}

/// Merging a bundle keeps the names distinct.
pub proof fn lemma_merged_distinct(t: Seq<(Seq<char>, StatsModel)>, name: Seq<char>, s: StatsModel)
    requires
        distinct_names(t),
    ensures
        distinct_names(merged(t, name, s)),
{
    lemma_find_from(t, name, 0);
    if find_name(t, name) == -1 {
        let m = merged(t, name, s);
        assert forall|i: int, j: int| 0 <= i < j < m.len() implies m[i].0 != m[j].0 by {
            if j == t.len() {
                lemma_find_from_absent(t, name, 0, i);
            }
        }
    }
}

/// Merging entries keeps the names distinct.
pub proof fn lemma_merged_entries_distinct(
    t: Seq<(Seq<char>, StatsModel)>,
    entries: Seq<(Seq<char>, StatsModel)>,
    filter: Seq<Seq<char>>,
)
    requires
        distinct_names(t),
    ensures
        distinct_names(merged_entries(t, entries, filter)),
    decreases entries.len(),
{
    if entries.len() > 0 {
        let e = entries.last();
        let t2 = if wanted(filter, e.0) {
            merged(t, e.0, e.1)
        } else {
            t
        };
        lemma_merged_distinct(t, e.0, e.1);
        lemma_merged_entries_distinct(t2, entries.drop_last(), filter);
    }
}

/// The first position of `name`, or none.
pub fn find_player(t: &Vec<PlayerEntry>, name: &String) -> (r: Option<usize>)
    ensures
        match r {
            Some(i) => i == find_name(entries_view(t@), name@) && i < t@.len(),
            None => find_name(entries_view(t@), name@) == -1,
        },
{
    let ghost tv = entries_view(t@);
    let mut i: usize = 0;
    while i < t.len()
        invariant
            i <= t@.len(),
            tv == entries_view(t@),
            find_name(tv, name@) == find_from(tv, name@, i as int),
        decreases t@.len() - i,
    {
        assert(tv[i as int].0 == t@[i as int].name@);
        if t[i].name.eq(name) {
            return Some(i);
        }
        i += 1;
    }
    None
}

/// Merges `stats` into the bundle of `name` in `t`, adding it when missing.
pub fn merge_player(t: &mut Vec<PlayerEntry>, name: String, stats: CumulativePlacementStats)
    ensures
        entries_view(final(t)@) == merged(entries_view(old(t)@), name@, stats@),
        distinct_names(entries_view(old(t)@)) ==> distinct_names(entries_view(final(t)@)),
{
    proof {
        if distinct_names(entries_view(t@)) {
            lemma_merged_distinct(entries_view(t@), name@, stats@);
        }
    }
    let ghost before = entries_view(t@);
    match find_player(t, &name) {
        Some(i) => {
            proof {
                lemma_find_from(before, name@, 0);
            }
            let ghost s = stats@;
            let ghost tv = t@;
            let mut e = t.remove(i);
            assert(e.name@ == name@);
            e.stats.absorb(stats);
            t.insert(i, e);
            assert(t@ =~= tv.update(i as int, e));
            assert(entries_view(t@) =~= before.update(
                i as int,
                (name@, absorb_model(before[i as int].1, s)),
            ));
        },
        None => {
            let ghost s = stats@;
            t.push(PlayerEntry { name, stats });
            assert(entries_view(t@) =~= before.push((name@, s)));
        },
    }
}

/// Merges every bundle of `entries` whose player the filter lets through
/// into `t`.
pub fn merge_entries(t: &mut Vec<PlayerEntry>, entries: Vec<PlayerEntry>, filter: &Vec<String>)
    ensures
        entries_view(final(t)@) == merged_entries(
            entries_view(old(t)@),
            entries_view(entries@),
            views(filter@),
        ),
        distinct_names(entries_view(old(t)@)) ==> distinct_names(entries_view(final(t)@)),
{
    proof {
        if distinct_names(entries_view(t@)) {
            lemma_merged_entries_distinct(entries_view(t@), entries_view(entries@), views(filter@));
        }
    }
    let mut rest = entries;
    while rest.len() > 0
        invariant
            merged_entries(entries_view(t@), entries_view(rest@), views(filter@))
                == merged_entries(entries_view(old(t)@), entries_view(entries@), views(filter@)),
        decreases rest@.len(),
    {
        let ghost rv = entries_view(rest@);
        match rest.pop() {
            Some(e) => {
                assert(entries_view(rest@) =~= rv.drop_last());
                let keep = if filter.len() == 0 {
                    true
                } else {
                    let lower = lowercase_name(&e.name);
                    contains_name(filter, &lower)
                };
                if keep {
                    merge_player(t, e.name, e.stats);
                }
            },
            None => {},
        }
    }
}

} // verus!
