//! The merge planner: partitions slots into maximal contiguous same-room runs.
use vstd::prelude::*;
use crate::models::TimeSlot;
use crate::slots::slot_in_range;

verus! {

/// `j` is the first slot whose room is `name`.
pub open spec fn is_first_room(slots: Seq<TimeSlot>, name: Seq<char>, j: int) -> bool {
    0 <= j < slots.len() && slots[j].item_name@ == name && forall|k: int|
        0 <= k < j ==> (#[trigger] slots[k]).item_name@ != name
}

/// Position of the first slot in room `name`; rooms are ordered by it.
pub open spec fn room_rank(slots: Seq<TimeSlot>, name: Seq<char>) -> int {
    if exists|j: int| is_first_room(slots, name, j) {
        choose|j: int| is_first_room(slots, name, j)
    } else {
        slots.len() as int
    }
}

/// `a` comes no later than `b`: by room, in order of first appearance in
/// `slots`, then by start.
pub open spec fn slot_le(slots: Seq<TimeSlot>, a: TimeSlot, b: TimeSlot) -> bool {
    let ra = room_rank(slots, a.item_name@);
    let rb = room_rank(slots, b.item_name@);
    ra < rb || (ra == rb && a.start_time <= b.start_time)
}

/// The slots of a list of runs, run after run.
pub open spec fn flatten_runs(runs: Seq<Seq<TimeSlot>>) -> Seq<TimeSlot>
    decreases runs.len(),
{
    if runs.len() == 0 {
        Seq::empty()
    } else {
        flatten_runs(runs.drop_last()) + runs.last()
    }
}

/// The runs as sequences.
pub open spec fn runs_view(runs: Seq<Vec<TimeSlot>>) -> Seq<Seq<TimeSlot>> {
    runs.map_values(|g: Vec<TimeSlot>| g@)
}

/// `p` lists each of `0..n` exactly once.
pub open spec fn is_permutation(p: Seq<int>, n: int) -> bool {
    p.len() == n && (forall|i: int| 0 <= i < n ==> 0 <= #[trigger] p[i] < n) && (forall|i: int, j: int|
        0 <= i < n && 0 <= j < n && i != j ==> #[trigger] p[i] != #[trigger] p[j])
}

/// `out` holds the slots of `slots`, each exactly once, in some order.
pub open spec fn is_rearrangement(out: Seq<TimeSlot>, slots: Seq<TimeSlot>) -> bool {
    exists|p: Seq<int>|
        is_permutation(p, slots.len() as int) && out == p.map_values(|i: int| slots[i])
}

/// Within a run: one room, each slot ending where the next starts, in order
/// of start.
pub open spec fn run_linked(run: Seq<TimeSlot>) -> bool {
    forall|k: int|
        0 < k < run.len() ==> (#[trigger] run[k]).item_name@ == run[k - 1].item_name@
            && run[k - 1].end_time == run[k].start_time && run[k - 1].start_time <= run[k].start_time
}

/// Between two runs that follow each other: ordered, and not joinable (a run
/// ends where the next one of the same room begins only across a room change).
pub open spec fn runs_separated(slots: Seq<TimeSlot>, a: Seq<TimeSlot>, b: Seq<TimeSlot>) -> bool {
    slot_le(slots, a.last(), b[0]) && (a.last().item_name@ == b[0].item_name@ ==> a.last().end_time
        != b[0].start_time)
}

/// What the planner owes: non-empty linked runs, separated from their
/// successors, that together rearrange the input.
pub open spec fn is_run_plan(slots: Seq<TimeSlot>, runs: Seq<Seq<TimeSlot>>) -> bool {
    &&& forall|g: int| 0 <= g < runs.len() ==> (#[trigger] runs[g]).len() > 0
    &&& forall|g: int| 0 <= g < runs.len() ==> run_linked(#[trigger] runs[g])
    &&& forall|g: int|
        0 <= g < runs.len() - 1 ==> runs_separated(slots, #[trigger] runs[g], runs[g + 1])
    &&& is_rearrangement(flatten_runs(runs), slots)
}

proof fn lemma_room_rank(slots: Seq<TimeSlot>, name: Seq<char>, j: int)
    requires
        is_first_room(slots, name, j),
    ensures
        room_rank(slots, name) == j,
{
    let c = choose|c: int| is_first_room(slots, name, c);
    assert(is_first_room(slots, name, c));
    if c < j {
        assert(slots[c].item_name@ != name);
    } else if j < c {
        assert(slots[j].item_name@ != name);
    }
}

/// Position of the first slot in the room of `slots[i]`.
fn rank_at(slots: &Vec<TimeSlot>, i: usize) -> (r: usize)
    requires
        i < slots@.len(),
    ensures
        r <= i,
        r as int == room_rank(slots@, slots@[i as int].item_name@),
        slots@[r as int].item_name@ == slots@[i as int].item_name@,
{
    let mut j: usize = 0;
    while j < i
        invariant
            j <= i < slots@.len(),
            forall|k: int| 0 <= k < j ==> (#[trigger] slots@[k]).item_name@ != slots@[i as int].item_name@,
        decreases i - j,
    {
        if slots[j].item_name == slots[i].item_name {
            proof {
                lemma_room_rank(slots@, slots@[i as int].item_name@, j as int);
            }
            return j;
        }
        j = j + 1;
    }
    proof {
        lemma_room_rank(slots@, slots@[i as int].item_name@, i as int);
    }
    i
}

/// Ordering of slot positions by (rank, start).
spec fn key_le(slots: Seq<TimeSlot>, ranks: Seq<usize>, a: int, b: int) -> bool {
    ranks[a] < ranks[b] || (ranks[a] == ranks[b] && slots[a].start_time <= slots[b].start_time)
}

spec fn ranks_ok(slots: Seq<TimeSlot>, ranks: Seq<usize>) -> bool {
    ranks.len() == slots.len() && forall|i: int|
        0 <= i < slots.len() ==> (#[trigger] ranks[i]) as int == room_rank(slots, slots[i].item_name@)
            && ranks[i] <= i && slots[ranks[i] as int].item_name@ == slots[i].item_name@
}

spec fn perm_usize(p: Seq<usize>, n: int) -> bool {
    p.len() == n && (forall|i: int| 0 <= i < n ==> #[trigger] p[i] < n) && (forall|i: int, j: int|
        0 <= i < n && 0 <= j < n && i != j ==> #[trigger] p[i] != #[trigger] p[j])
}

/// Positions of the slots, sorted by room rank and then start.
fn sorted_order(slots: &Vec<TimeSlot>, ranks: &Vec<usize>) -> (order: Vec<usize>)
    requires
        ranks_ok(slots@, ranks@),
    ensures
        perm_usize(order@, slots@.len() as int),
        forall|a: int, b: int|
            0 <= a < b < order@.len() ==> key_le(slots@, ranks@, #[trigger] order@[a] as int, #[trigger] order@[b] as int),
{
    let n = slots.len();
    let mut order: Vec<usize> = Vec::new();
    let mut i: usize = 0;
    while i < n
        invariant
            n == slots@.len(),
            i <= n,
            order@.len() == i,
            forall|k: int| 0 <= k < i ==> #[trigger] order@[k] == k,
        decreases n - i,
    {
        order.push(i);
        i = i + 1;
    }
    let mut i: usize = 1;
    while i < n
        invariant
            n == slots@.len(),
            1 <= i,
            ranks_ok(slots@, ranks@),
            perm_usize(order@, n as int),
            forall|a: int, b: int|
                0 <= a < b < i && b < n ==> key_le(slots@, ranks@, #[trigger] order@[a] as int, #[trigger] order@[b] as int),
        decreases n - i,
    {
        let mut j: usize = i;
        while j > 0 && !(ranks[order[j - 1]] < ranks[order[j]] || (ranks[order[j - 1]] == ranks[order[j]]
            && slots[order[j - 1]].start_time <= slots[order[j]].start_time))
            invariant
                n == slots@.len(),
                1 <= i < n,
                j <= i,
                ranks_ok(slots@, ranks@),
                perm_usize(order@, n as int),
                forall|a: int, b: int|
                    0 <= a < b <= i && a != j && b != j ==> key_le(slots@, ranks@, #[trigger] order@[a] as int, #[trigger] order@[b] as int),
                forall|b: int| j < b <= i ==> key_le(slots@, ranks@, order@[j as int] as int, #[trigger] order@[b] as int),
            decreases j,
        {
            let x = order[j - 1];
            let y = order[j];
            order.set(j - 1, y);
            order.set(j, x);
            j = j - 1;
        }
        proof {
            if j > 0 {
                assert(key_le(slots@, ranks@, order@[j - 1] as int, order@[j as int] as int));
                assert forall|a: int| 0 <= a < j implies key_le(slots@, ranks@, #[trigger] order@[a] as int, order@[j as int] as int) by {
                    if a < j - 1 {
                        assert(key_le(slots@, ranks@, order@[a] as int, order@[j - 1] as int));
                    }
                }
            }
        }
        i = i + 1;
    }
    order
}


spec fn ordered_prefix(slots: Seq<TimeSlot>, order: Seq<usize>, k: int) -> Seq<TimeSlot> {
    order.subrange(0, k).map_values(|i: usize| slots[i as int])
}

proof fn lemma_flatten_push(runs: Seq<Seq<TimeSlot>>, g: Seq<TimeSlot>)
    ensures
        flatten_runs(runs.push(g)) == flatten_runs(runs) + g,
{
    assert(runs.push(g).drop_last() =~= runs);
}

/// Partitions `slots` into runs: slots of one room, sorted by start, are
/// joined while each one ends exactly where the next begins; rooms come in
/// order of their first slot. Overlapping slots of one room land in
/// separate runs.
pub fn find_mergeable_groups(slots: &Vec<TimeSlot>) -> (groups: Vec<Vec<TimeSlot>>)
    ensures
        is_run_plan(slots@, runs_view(groups@)),
        slots@.len() == 0 ==> groups@.len() == 0,
        (forall|i: int| 0 <= i < slots@.len() ==> slot_in_range(#[trigger] slots@[i])) ==> forall|g: int, j: int|
            0 <= g < groups@.len() && 0 <= j < groups@[g]@.len() ==> slot_in_range(#[trigger] groups@[g]@[j]),
{
    let n = slots.len();
    let mut groups: Vec<Vec<TimeSlot>> = Vec::new();
    if n == 0 {
        proof {
            let p = Seq::<int>::empty();
            assert(runs_view(groups@) =~= Seq::<Seq<TimeSlot>>::empty());
            assert(flatten_runs(runs_view(groups@)) =~= p.map_values(|i: int| slots@[i]));
            assert(is_permutation(p, 0));
        }
        return groups;
    }
    let mut ranks: Vec<usize> = Vec::new();
    let mut i: usize = 0;
    while i < n
        invariant
            n == slots@.len(),
            i <= n,
            ranks@.len() == i,
            forall|k: int|
                0 <= k < i ==> (#[trigger] ranks@[k]) as int == room_rank(slots@, slots@[k].item_name@)
                    && ranks@[k] <= k && slots@[ranks@[k] as int].item_name@ == slots@[k].item_name@,
        decreases n - i,
    {
        let r = rank_at(slots, i);
        ranks.push(r);
        i = i + 1;
    }
    let order = sorted_order(slots, &ranks);
    let mut cur: Vec<TimeSlot> = Vec::new();
    cur.push(slots[order[0]].duplicate());
    proof {
        assert(cur@ =~= ordered_prefix(slots@, order@, 1));
        assert(runs_view(groups@) =~= Seq::<Seq<TimeSlot>>::empty());
    }
    let mut k: usize = 1;
    while k < n
        invariant
            n == slots@.len(),
            1 <= k <= n,
            ranks_ok(slots@, ranks@),
            perm_usize(order@, n as int),
            forall|a: int, b: int|
                0 <= a < b < order@.len() ==> key_le(slots@, ranks@, #[trigger] order@[a] as int, #[trigger] order@[b] as int),
            cur@.len() > 0,
            cur@.last() == slots@[order@[k - 1] as int],
            run_linked(cur@),
            forall|g: int| 0 <= g < groups@.len() ==> (#[trigger] runs_view(groups@)[g]).len() > 0,
            forall|g: int| 0 <= g < groups@.len() ==> run_linked(#[trigger] runs_view(groups@)[g]),
            forall|g: int|
                0 <= g < groups@.len() - 1 ==> runs_separated(slots@, #[trigger] runs_view(groups@)[g], runs_view(groups@)[g + 1]),
            groups@.len() > 0 ==> runs_separated(slots@, runs_view(groups@).last(), cur@),
            flatten_runs(runs_view(groups@)) + cur@ == ordered_prefix(slots@, order@, k as int),
            (forall|i: int| 0 <= i < slots@.len() ==> slot_in_range(#[trigger] slots@[i])) ==> (forall|g: int, j: int|
                0 <= g < groups@.len() && 0 <= j < groups@[g]@.len() ==> slot_in_range(#[trigger] groups@[g]@[j]))
                && (forall|j: int| 0 <= j < cur@.len() ==> slot_in_range(#[trigger] cur@[j])),
        decreases n - k,
    {
        let prev = order[k - 1];
        let next = order[k];
        let ghost old_groups = runs_view(groups@);
        let ghost old_cur = cur@;
        proof {
            assert(key_le(slots@, ranks@, order@[k - 1] as int, order@[k as int] as int));
            assert(ordered_prefix(slots@, order@, k as int + 1) =~= ordered_prefix(slots@, order@, k as int).push(slots@[next as int]));
            if slots@[prev as int].item_name@ == slots@[next as int].item_name@ {
                assert(ranks@[prev as int] == ranks@[next as int]);
            }
            if ranks@[prev as int] == ranks@[next as int] {
                assert(slots@[prev as int].item_name@ == slots@[ranks@[prev as int] as int].item_name@);
            }
        }
        if ranks[prev] == ranks[next] && slots[prev].end_time == slots[next].start_time {
            cur.push(slots[next].duplicate());
            proof {
                assert(runs_view(groups@) == old_groups);
                assert forall|j: int| 0 < j < cur@.len() implies (#[trigger] cur@[j]).item_name@ == cur@[j - 1].item_name@
                    && cur@[j - 1].end_time == cur@[j].start_time && cur@[j - 1].start_time <= cur@[j].start_time by {
                    if j < cur@.len() - 1 {
                        assert(cur@[j] == old_cur[j]);
                        assert(cur@[j - 1] == old_cur[j - 1]);
                    }
                }
                assert(cur@ =~= old_cur.push(slots@[next as int]));
            }
        } else {
            let c = cur;
            groups.push(c);
            cur = Vec::new();
            cur.push(slots[next].duplicate());
            proof {
                assert(runs_view(groups@) =~= old_groups.push(old_cur));
                lemma_flatten_push(old_groups, old_cur);
                assert(cur@ =~= seq![slots@[next as int]]);
                assert(runs_view(groups@).last() == old_cur);
                assert forall|g: int| 0 <= g < groups@.len() - 1 implies runs_separated(slots@, #[trigger] runs_view(groups@)[g], runs_view(groups@)[g + 1]) by {
                    if g < groups@.len() - 2 {
                        assert(runs_view(groups@)[g] == old_groups[g]);
                        assert(runs_view(groups@)[g + 1] == old_groups[g + 1]);
                    } else {
                        assert(runs_view(groups@)[g] == old_groups.last());
                    }
                }
                assert forall|g: int| 0 <= g < groups@.len() implies (#[trigger] runs_view(groups@)[g]).len() > 0 && run_linked(runs_view(groups@)[g]) by {
                    if g < groups@.len() - 1 {
                        assert(runs_view(groups@)[g] == old_groups[g]);
                    }
                }
            }
        }
        k = k + 1;
    }
    let ghost old_groups = runs_view(groups@);
    let ghost old_cur = cur@;
    groups.push(cur);
    proof {
        let gv = runs_view(groups@);
        assert(gv =~= old_groups.push(old_cur));
        lemma_flatten_push(old_groups, old_cur);
        assert forall|g: int| 0 <= g < gv.len() - 1 implies runs_separated(slots@, #[trigger] gv[g], gv[g + 1]) by {
            if g < gv.len() - 2 {
                assert(gv[g] == old_groups[g]);
                assert(gv[g + 1] == old_groups[g + 1]);
            } else {
                assert(gv[g] == old_groups.last());
            }
        }
        assert forall|g: int| 0 <= g < gv.len() implies (#[trigger] gv[g]).len() > 0 && run_linked(gv[g]) by {
            if g < gv.len() - 1 {
                assert(gv[g] == old_groups[g]);
            }
        }
        let p = order@.map_values(|i: usize| i as int);
        assert(is_permutation(p, n as int));
        assert(flatten_runs(gv) =~= p.map_values(|i: int| slots@[i]));
    }
    groups
}

} // verus!
