//! Leaderboard selection.
//!
//! A leaderboard is built by repeatedly selecting the best remaining entry:
//! highest score first, ties broken by earliest completion time, where an
//! unset (zero) completion time sorts as worst. Among full ties the earliest
//! index wins, which makes the selection deterministic.

use vstd::prelude::*;

use crate::types::{LeaderboardEntry, PlayerProgress};

verus! {

/// Completion time adjusted so that an unset (zero) time sorts as worst.
pub open spec fn spec_adj_time(p: PlayerProgress) -> int {
    if p.completed_at == 0 {
        u64::MAX as int
    } else {
        p.completed_at as int
    }
}

/// Strict ordering of entries: higher score first, then earlier adjusted
/// completion time.
pub open spec fn spec_beats(a: PlayerProgress, b: PlayerProgress) -> bool {
    a.total_score > b.total_score || (a.total_score == b.total_score && spec_adj_time(a)
        < spec_adj_time(b))
}

/// The best unselected index among the first `n` entries: the entry that
/// strictly beats every other candidate, the earliest index among full ties.
pub open spec fn spec_best_upto(entries: Seq<PlayerProgress>, taken: Seq<u32>, n: int) -> Option<
    int,
>
    decreases n,
{
    if n <= 0 {
        None
    } else {
        let prev = spec_best_upto(entries, taken, n - 1);
        if taken.contains((n - 1) as u32) {
            prev
        } else {
            match prev {
                None => Some(n - 1),
                Some(b) => if spec_beats(entries[n - 1], entries[b]) {
                    Some(n - 1)
                } else {
                    prev
                },
            }
        }
    }
}

/// The indices selected for a leaderboard of size `k`, in rank order.
pub open spec fn spec_selection(entries: Seq<PlayerProgress>, taken: Seq<u32>, k: nat) -> Seq<u32>
    decreases k,
{
    if k == 0 {
        Seq::empty()
    } else {
        match spec_best_upto(entries, taken, entries.len() as int) {
            None => Seq::empty(),
            Some(b) => seq![b as u32] + spec_selection(
                entries,
                taken.push(b as u32),
                (k - 1) as nat,
            ),
        }
    }
}

/// The leaderboard row for the entry at `idx`, tagged with its rank.
pub open spec fn spec_entry(entries: Seq<PlayerProgress>, idx: u32, rank: int) -> LeaderboardEntry {
    LeaderboardEntry {
        rank: rank as u32,
        player: entries[idx as int].player,
        score: entries[idx as int].total_score,
        completed_at: entries[idx as int].completed_at,
        is_completed: entries[idx as int].is_completed,
    }
}

/// The leaderboard of size at most `k` over a list of progress records.
pub open spec fn spec_leaderboard(entries: Seq<PlayerProgress>, k: nat) -> Seq<LeaderboardEntry> {
    let sel = spec_selection(entries, Seq::empty(), k);
    Seq::new(sel.len(), |m: int| spec_entry(entries, sel[m], m + 1))
}

/// A selected best index is in bounds and not yet taken.
proof fn lemma_best_upto_props(entries: Seq<PlayerProgress>, taken: Seq<u32>, n: int)
    requires
        n <= entries.len(),
    ensures
        match spec_best_upto(entries, taken, n) {
            Some(b) => 0 <= b < n && !taken.contains(b as u32),
            None => true,
        },
    decreases n,
{
    if n > 0 {
        lemma_best_upto_props(entries, taken, n - 1);
    }
}

/// Finds the best unselected entry, as the selection specification names it.
fn best_index(entries: &Vec<PlayerProgress>, taken: &Vec<u32>) -> (r: Option<u32>)
    requires
        entries@.len() <= u32::MAX,
    ensures
        match r {
            Some(b) => spec_best_upto(entries@, taken@, entries@.len() as int) == Some(b as int),
            None => spec_best_upto(entries@, taken@, entries@.len() as int) is None,
        },
{
    let n = entries.len();
    let mut best: Option<u32> = None;
    let mut i: usize = 0;
    while i < n
        invariant
            n == entries@.len(),
            n <= u32::MAX,
            0 <= i <= n,
            match best {
                Some(b) => spec_best_upto(entries@, taken@, i as int) == Some(b as int) && b
                    < i,
                None => spec_best_upto(entries@, taken@, i as int) is None,
            },
        decreases n - i,
    {
        let is_taken = crate::types::contains_id(taken, i as u32);
        if !is_taken {
            match best {
                None => {
                    best = Some(i as u32);
                },
                Some(b) => {
                    let e = &entries[i];
                    let be = &entries[b as usize];
                    let e_adj: u64 = if e.completed_at == 0 {
                        u64::MAX
                    } else {
                        e.completed_at
                    };
                    let b_adj: u64 = if be.completed_at == 0 {
                        u64::MAX
                    } else {
                        be.completed_at
                    };
                    if e.total_score > be.total_score || (e.total_score == be.total_score && e_adj
                        < b_adj) {
                        best = Some(i as u32);
                    }
                },
            }
        }
        i = i + 1;
    }
    best
}

/// Builds the leaderboard of size at most `limit` by repeated selection of
/// the best remaining entry, each row tagged with its 1-based rank.
pub fn select_leaderboard(entries: &Vec<PlayerProgress>, limit: u32) -> (r: Vec<LeaderboardEntry>)
    requires
        entries@.len() <= u32::MAX,
    ensures
        r@ == spec_leaderboard(entries@, limit as nat),
{
    let mut selected: Vec<u32> = Vec::new();
    let mut result: Vec<LeaderboardEntry> = Vec::new();
    let mut done: u32 = 0;
    while done < limit
        invariant
            entries@.len() <= u32::MAX,
            0 <= done <= limit,
            selected@.len() == done,
            result@.len() == done,
            spec_selection(entries@, Seq::empty(), limit as nat) == selected@ + spec_selection(
                entries@,
                selected@,
                (limit - done) as nat,
            ),
            forall|m: int|
                0 <= m < done ==> #[trigger] result@[m] == spec_entry(entries@, selected@[m], m + 1),
        decreases limit - done,
    {
        match best_index(entries, &selected) {
            None => {
                proof {
                    assert(spec_selection(entries@, selected@, (limit - done) as nat)
                        =~= Seq::<u32>::empty());
                    assert(selected@ + Seq::<u32>::empty() =~= selected@);
                    let sel = spec_selection(entries@, Seq::empty(), limit as nat);
                    assert(result@ =~= Seq::new(sel.len(), |m: int| spec_entry(entries@, sel[m], m + 1)));
                }
                return result;
            },
            Some(b) => {
                proof {
                    lemma_best_upto_props(entries@, selected@, entries@.len() as int);
                    let rest = spec_selection(
                        entries@,
                        selected@.push(b as u32),
                        (limit - done - 1) as nat,
                    );
                    assert(spec_selection(entries@, selected@, (limit - done) as nat) == seq![
                        b as u32,
                    ] + rest);
                    assert(selected@ + (seq![b as u32] + rest) =~= selected@.push(b as u32) + rest);
                }
                let idx = b as usize;
                let e = &entries[idx];
                result.push(
                    LeaderboardEntry {
                        rank: done + 1,
                        player: e.player,
                        score: e.total_score,
                        completed_at: e.completed_at,
                        is_completed: e.is_completed,
                    },
                );
                selected.push(b);
                done = done + 1;
            },
        }
    }
    proof {
        assert(spec_selection(entries@, selected@, 0) =~= Seq::<u32>::empty());
        assert(selected@ + Seq::<u32>::empty() =~= selected@);
        let sel = spec_selection(entries@, Seq::empty(), limit as nat);
        assert(result@ =~= Seq::new(sel.len(), |m: int| spec_entry(entries@, sel[m], m + 1)));
    }
    result
}

} // verus!
