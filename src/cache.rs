//! The cache's policy: when a cached entry can stand in for a replay, which
//! names still have to be computed, when an entry has expired, and which
//! entries an overflow sweep deletes. Reading and writing the files is left
//! to the caller.

use vstd::prelude::*;
use crate::placement_stats::StatsModel;
use crate::players::{entries_view, entry_names, PlayerEntry};
use crate::text::{contains_name, lower_of, lowercase_name, views};

verus! {

/// Seconds an entry is kept after its creation.
pub const TIME_TO_LIVE: u64 = 18000;

/// Entry count above which a sweep starts.
pub const MAX_CACHED_FILES: usize = 1000;

/// Entry count that a sweep brings the cache down to.
pub const MAX_TRIMMED_FILES: usize = 800;

/// Some cached player's lowercase name is `name`.
pub open spec fn cached_match(entry: Seq<(Seq<char>, StatsModel)>, name: Seq<char>) -> bool {
    exists|j: int| 0 <= j < entry.len() && lower_of(#[trigger] entry[j].0) == name
}

/// A cached entry stands in for the replay: with no filter it holds both
/// players; with one, it holds a player for every name of the filter.
pub open spec fn hit_usable_spec(entry: Seq<(Seq<char>, StatsModel)>, filter: Seq<Seq<char>>) -> bool {
    if filter.len() == 0 {
        entry.len() == 2
    } else {
        forall|i: int| 0 <= i < filter.len() ==> cached_match(entry, #[trigger] filter[i])
    }
}

/// Whether the cached entry can stand in for the replay.
pub fn hit_usable(entry: &Vec<PlayerEntry>, filter: &Vec<String>) -> (r: bool)
    ensures
        r == hit_usable_spec(entries_view(entry@), views(filter@)),
{
    let ghost ev = entries_view(entry@);
    if filter.len() == 0 {
        return entry.len() == 2;
    }
    let mut lowered: Vec<String> = Vec::new();
    let mut j: usize = 0;
    while j < entry.len()
        invariant
            j <= entry@.len(),
            ev == entries_view(entry@),
            lowered@.len() == j,
            forall|k: int| 0 <= k < j ==> lowered@[k]@ == lower_of(ev[k].0),
        decreases entry@.len() - j,
    {
        lowered.push(lowercase_name(&entry[j].name));
        j += 1;
    }
    let mut i: usize = 0;
    while i < filter.len()
        invariant
            i <= filter@.len(),
            ev == entries_view(entry@),
            lowered@.len() == ev.len(),
            forall|k: int| 0 <= k < ev.len() ==> lowered@[k]@ == lower_of(ev[k].0),
            forall|k: int| 0 <= k < i ==> cached_match(ev, #[trigger] views(filter@)[k]),
        decreases filter@.len() - i,
    {
        let found = contains_name(&lowered, &filter[i]);
        if !found {
            assert(!cached_match(ev, views(filter@)[i as int])) by {
                if cached_match(ev, views(filter@)[i as int]) {
                    let k = choose|k: int| 0 <= k < ev.len() && lower_of(#[trigger] ev[k].0)
                        == views(filter@)[i as int];
                    assert(views(lowered@)[k] == filter@[i as int]@);
                }
            }
            return false;
        }
        i += 1;
    }
    true
}

/// The names that the entry does not hold, in order.
pub open spec fn missing_names(names: Seq<Seq<char>>, entry: Seq<(Seq<char>, StatsModel)>) -> Seq<
    Seq<char>,
>
    decreases names.len(),
{
    if names.len() == 0 {
        Seq::empty()
    } else {
        let prev = missing_names(names.drop_last(), entry);
        if entry_names(entry).contains(names.last()) {
            prev
        } else {
            prev.push(names.last())
        }
    }
}

/// The names that the entry does not hold yet, in order.
pub fn names_to_compute(names: &Vec<String>, entry: &Vec<PlayerEntry>) -> (r: Vec<String>)
    ensures
        views(r@) == missing_names(views(names@), entries_view(entry@)),
{
    let ghost ev = entries_view(entry@);
    let mut present: Vec<String> = Vec::new();
    let mut j: usize = 0;
    while j < entry.len()
        invariant
            j <= entry@.len(),
            ev == entries_view(entry@),
            views(present@) == entry_names(ev).subrange(0, j as int),
        decreases entry@.len() - j,
    {
        let ghost before = present@;
        assert(ev[j as int].0 == entry@[j as int].name@);
        present.push(entry[j].name.clone());
        assert(views(present@) =~= views(before).push(entry@[j as int].name@));
        assert(entry_names(ev).subrange(0, j + 1) =~= entry_names(ev).subrange(0, j as int).push(
            ev[j as int].0,
        ));
        j += 1;
    }
    assert(entry_names(ev).subrange(0, j as int) =~= entry_names(ev));
    let ghost all = views(names@);
    let mut out: Vec<String> = Vec::new();
    let mut i: usize = 0;
    assert(all.subrange(0, 0) =~= Seq::<Seq<char>>::empty());
    assert(views(out@) =~= Seq::<Seq<char>>::empty());
    while i < names.len()
        invariant
            i <= names@.len(),
            all == views(names@),
            views(present@) == entry_names(ev),
            views(out@) == missing_names(all.subrange(0, i as int), ev),
        decreases names@.len() - i,
    {
        let ghost before = out@;
        assert(all.subrange(0, i + 1).drop_last() =~= all.subrange(0, i as int));
        assert(all.subrange(0, i + 1).last() == names@[i as int]@);
        if !contains_name(&present, &names[i]) {
            out.push(names[i].clone());
            assert(views(out@) =~= views(before).push(names@[i as int]@));
        }
        i += 1;
    }
    assert(all.subrange(0, i as int) =~= all);
    out
}

/// An entry created at `created` has outlived `ttl` at `now` (seconds).
pub fn is_expired(now: u64, created: u64, ttl: u64) -> (r: bool)
    ensures
        r == (now > created && now - created > ttl),
{
    now > created && now - created > ttl
}

/// A sweep starts when the cache holds more than `ceiling` entries and no
/// sweep is running.
pub fn should_sweep(count: usize, ceiling: usize, sweeping: bool) -> (r: bool)
    ensures
        r == (count > ceiling && !sweeping),
{
    count > ceiling && !sweeping
}

/// Entries to delete so that `n` of them become `floor`: none when `n` is at
/// most `floor`.
pub open spec fn excess(n: int, floor: int) -> int {
    if n > floor {
        n - floor
    } else {
        0
    }
}

/// `victims` names distinct entries, and none of them was modified after an
/// entry that stays.
pub open spec fn oldest_first(modified: Seq<u64>, victims: Seq<usize>) -> bool {
    &&& forall|i: int| 0 <= i < victims.len() ==> victims[i] < modified.len()
    &&& forall|i: int, j: int| 0 <= i < j < victims.len() ==> victims[i] != victims[j]
    &&& forall|i: int, k: int|
        #![trigger victims[i], modified[k]]
        0 <= i < victims.len() && 0 <= k < modified.len() && !victims.contains(k as usize)
            ==> modified[victims[i] as int] <= modified[k]
}

/// The entries that a sweep deletes, given each entry's modification time:
/// the oldest ones, as many as bring the count down to `floor`.
pub fn eviction_victims(modified: &Vec<u64>, floor: usize) -> (r: Vec<usize>)
    ensures
        r@.len() == excess(modified@.len() as int, floor as int),
        oldest_first(modified@, r@),
{
    let n = modified.len();
    let goal: usize = if n > floor {
        n - floor
    } else {
        0
    };
    let mut remaining: Vec<usize> = Vec::new();
    let mut k: usize = 0;
    while k < n
        invariant
            k <= n,
            n == modified@.len(),
            remaining@.len() == k,
            forall|j: int| 0 <= j < k ==> remaining@[j] == j,
        decreases n - k,
    {
        remaining.push(k);
        k += 1;
    }
    let mut victims: Vec<usize> = Vec::new();
    assert forall|m: usize| m < n implies #[trigger] victims@.contains(m) || remaining@.contains(m) by {
        assert(remaining@[m as int] == m);
    }
    while victims.len() < goal
        invariant
            n == modified@.len(),
            goal <= n,
            victims@.len() <= goal,
            forall|i: int, j: int| 0 <= i < j < remaining@.len() ==> remaining@[i] != remaining@[j],
            goal == excess(n as int, floor as int),
            victims@.len() + remaining@.len() == n,
            forall|i: int| 0 <= i < victims@.len() ==> victims@[i] < n,
            forall|i: int| 0 <= i < remaining@.len() ==> remaining@[i] < n,
            forall|i: int, j: int| 0 <= i < j < victims@.len() ==> victims@[i] != victims@[j],
            forall|i: int, j: int|
                0 <= i < victims@.len() && 0 <= j < remaining@.len() ==> victims@[i]
                    != remaining@[j],
            forall|m: usize| m < n ==> #[trigger] victims@.contains(m) || remaining@.contains(m),
            forall|i: int, j: int|
                0 <= i < victims@.len() && 0 <= j < remaining@.len() ==> modified@[victims@[i] as int]
                    <= modified@[remaining@[j] as int],
        decreases goal - victims@.len(),
    {
        let mut best: usize = 0;
        let mut j: usize = 1;
        while j < remaining.len()
            invariant
                1 <= j <= remaining@.len(),
                best < j,
                n == modified@.len(),
                forall|i: int| 0 <= i < remaining@.len() ==> remaining@[i] < n,
                forall|m: int| 0 <= m < j ==> modified@[remaining@[best as int] as int]
                    <= modified@[remaining@[m] as int],
            decreases remaining@.len() - j,
        {
            if modified[remaining[j]] < modified[remaining[best]] {
                best = j;
            }
            j += 1;
        }
        let ghost rb = remaining@;
        let ghost vb = victims@;
        let picked = remaining.remove(best);
        victims.push(picked);
        assert forall|m: usize| m < n implies #[trigger] victims@.contains(m)
            || remaining@.contains(m) by {
            if vb.contains(m) {
                let w = choose|w: int| 0 <= w < vb.len() && vb[w] == m;
                assert(victims@[w] == m);
            } else {
                assert(rb.contains(m));
                let w = choose|w: int| 0 <= w < rb.len() && rb[w] == m;
                if w == best {
                    assert(victims@[victims@.len() - 1] == m);
                } else if w < best {
                    assert(remaining@[w] == m);
                } else {
                    assert(remaining@[w - 1] == m);
                }
            }
        }
        assert forall|i: int, j: int|
            0 <= i < victims@.len() && 0 <= j < remaining@.len() implies modified@[victims@[i] as int]
                <= modified@[remaining@[j] as int] by {
            if j < best {
                assert(remaining@[j] == rb[j]);
            } else {
                assert(remaining@[j] == rb[j + 1]);
            }
        }
        assert forall|i: int, j: int|
            0 <= i < victims@.len() && 0 <= j < remaining@.len() implies victims@[i]
                != remaining@[j] by {
            if j < best {
                assert(remaining@[j] == rb[j]);
            } else {
                assert(remaining@[j] == rb[j + 1]);
            }
        }
        assert forall|i: int, j: int| 0 <= i < j < remaining@.len() implies remaining@[i]
            != remaining@[j] by {
            let i2 = if i < best { i } else { i + 1 };
            let j2 = if j < best { j } else { j + 1 };
            assert(remaining@[i] == rb[i2]);
            assert(remaining@[j] == rb[j2]);
        }
        assert forall|i: int, j: int| 0 <= i < j < victims@.len() implies victims@[i]
            != victims@[j] by {
            if j == victims@.len() - 1 {
                assert(victims@[j] == rb[best as int]);
            }
        }
    }
    assert forall|i: int, k: int|
        #![trigger victims@[i], modified@[k]]
        0 <= i < victims@.len() && 0 <= k < modified@.len() && !victims@.contains(
            k as usize,
        ) implies modified@[victims@[i] as int] <= modified@[k] by {
        let ku = k as usize;
        assert(victims@.contains(ku) || remaining@.contains(ku));
        let w = choose|w: int| 0 <= w < remaining@.len() && remaining@[w] == k as usize;
        assert(modified@[victims@[i] as int] <= modified@[remaining@[w] as int]);
    }
    victims
}

} // verus!
