//! The Processes a launcher leaves behind: its descendants in the system's
//! Process list that run the launcher's own executable and started no earlier
//! than it did.
use crate::model::{same_identity, ProcessIdentity};
use crate::text::{eq_ignore_ascii_case, text_eq_ignore_ascii_case};
use vstd::prelude::*;

verus! {

/// One readable entry of the system's Process list: the Process and the pid of
/// its parent.
#[derive(Debug)]
pub struct ProcessListEntry {
    pub parent_pid: u32,
    pub identity: ProcessIdentity,
}

/// Whether an entry may continue the launcher: it runs the launcher's
/// executable and did not start before the launcher.
pub open spec fn continues_launcher(launcher: ProcessIdentity, entry: ProcessListEntry) -> bool {
    &&& entry.identity.creation_time >= launcher.creation_time
    &&& eq_ignore_ascii_case(entry.identity.canonical_executable_path@, launcher.canonical_executable_path@)
}

/// Whether `pid` is the launcher's, or is reached from it through at most
/// `depth` parent links between entries that continue the launcher.
pub open spec fn reached(entries: Seq<ProcessListEntry>, launcher: ProcessIdentity, pid: u32, depth: nat) -> bool
    decreases depth,
{
    pid == launcher.pid || (depth > 0 && exists|i: int|
        #![trigger entries[i]]
        0 <= i < entries.len() && entries[i].identity.pid == pid && continues_launcher(launcher, entries[i])
            && reached(entries, launcher, entries[i].parent_pid, (depth - 1) as nat))
}

/// Whether `pid` names a descendant of the launcher that continues it.
pub open spec fn is_descendant(entries: Seq<ProcessListEntry>, launcher: ProcessIdentity, pid: u32) -> bool {
    pid != launcher.pid && exists|depth: nat| reached(entries, launcher, pid, depth)
}

/// Whether an identity is that of an entry continuing the launcher whose
/// parent is the launcher or one of the `found` Processes.
pub open spec fn found_through(
    entries: Seq<ProcessListEntry>,
    launcher: ProcessIdentity,
    found: Seq<ProcessIdentity>,
    identity: ProcessIdentity,
) -> bool {
    exists|i: int|
        #![trigger entries[i]]
        0 <= i < entries.len() && entries[i].identity == identity && continues_launcher(launcher, entries[i]) && (
        entries[i].parent_pid == launcher.pid || exists|other: int|
            #![trigger found[other]]
            0 <= other < found.len() && found[other].pid == entries[i].parent_pid)
}

/// How many entries name a pid that is not yet among `pids`.
pub open spec fn unreached_count(entries: Seq<ProcessListEntry>, pids: Seq<u32>, count: int) -> nat
    decreases count,
{
    if count <= 0 {
        0
    } else {
        unreached_count(entries, pids, count - 1) + if pids.contains(entries[count - 1].identity.pid) {
            0nat
        } else {
            1nat
        }
    }
}

proof fn unreached_count_shrinks(entries: Seq<ProcessListEntry>, before: Seq<u32>, after: Seq<u32>, count: int)
    requires
        forall|pid: u32| before.contains(pid) ==> after.contains(pid),
    ensures
        unreached_count(entries, after, count) <= unreached_count(entries, before, count),
    decreases count,
{
    if count > 0 {
        unreached_count_shrinks(entries, before, after, count - 1);
    }
}

proof fn unreached_count_drops(
    entries: Seq<ProcessListEntry>,
    before: Seq<u32>,
    after: Seq<u32>,
    count: int,
    index: int,
)
    requires
        forall|pid: u32| before.contains(pid) ==> after.contains(pid),
        0 <= index < count,
        !before.contains(entries[index].identity.pid),
        after.contains(entries[index].identity.pid),
    ensures
        unreached_count(entries, after, count) < unreached_count(entries, before, count),
    decreases count,
{
    if index < count - 1 {
        unreached_count_drops(entries, before, after, count - 1, index);
    } else {
        unreached_count_shrinks(entries, before, after, count - 1);
    }
}

proof fn reached_extends(entries: Seq<ProcessListEntry>, launcher: ProcessIdentity, index: int, depth: nat)
    requires
        0 <= index < entries.len(),
        continues_launcher(launcher, entries[index]),
        reached(entries, launcher, entries[index].parent_pid, depth),
    ensures
        reached(entries, launcher, entries[index].identity.pid, depth + 1),
{
    let pid = entries[index].identity.pid;
    assert(((depth + 1) as nat - 1) as nat == depth);
    assert(0 <= index < entries.len() && entries[index].identity.pid == pid && continues_launcher(
        launcher,
        entries[index],
    ) && reached(entries, launcher, entries[index].parent_pid, depth));
}

proof fn closed_pids_hold_reached(
    entries: Seq<ProcessListEntry>,
    launcher: ProcessIdentity,
    pids: Seq<u32>,
    pid: u32,
    depth: nat,
)
    requires
        pids.contains(launcher.pid),
        forall|i: int|
            0 <= i < entries.len() && pids.contains(#[trigger] entries[i].parent_pid) && continues_launcher(
                launcher,
                entries[i],
            ) ==> pids.contains(entries[i].identity.pid),
        reached(entries, launcher, pid, depth),
    ensures
        pids.contains(pid),
    decreases depth,
{
    if pid != launcher.pid {
        let i = choose|i: int|
            #![trigger entries[i]]
            0 <= i < entries.len() && entries[i].identity.pid == pid && continues_launcher(launcher, entries[i])
                && reached(entries, launcher, entries[i].parent_pid, (depth - 1) as nat);
        closed_pids_hold_reached(entries, launcher, pids, entries[i].parent_pid, (depth - 1) as nat);
    }
}

fn contains_pid(pids: &Vec<u32>, pid: u32) -> (res: bool)
    ensures
        res == pids@.contains(pid),
{
    let mut index: usize = 0;
    while index < pids.len()
        invariant
            index <= pids@.len(),
            forall|earlier: int| 0 <= earlier < index ==> pids@[earlier] != pid,
        decreases pids@.len() - index,
    {
        if pids[index] == pid {
            return true;
        }
        index = index + 1;
    }
    false
}

fn entry_continues_launcher(launcher: &ProcessIdentity, entry: &ProcessListEntry) -> (res: bool)
    ensures
        res == continues_launcher(*launcher, *entry),
{
    entry.identity.creation_time >= launcher.creation_time && text_eq_ignore_ascii_case(
        entry.identity.canonical_executable_path.as_str(),
        launcher.canonical_executable_path.as_str(),
    )
}

/// The identities ordered by pid, with no pid twice.
fn sorted_by_pid(items: Vec<ProcessIdentity>) -> (res: Vec<ProcessIdentity>)
    requires
        forall|j: int, k: int| 0 <= j < k < items@.len() ==> items@[j].pid != items@[k].pid,
    ensures
        res@.len() == items@.len(),
        forall|j: int, k: int| 0 <= j < k < res@.len() ==> res@[j].pid < res@[k].pid,
        forall|k: int| 0 <= k < res@.len() ==> items@.contains(#[trigger] res@[k]),
        forall|j: int| 0 <= j < items@.len() ==> res@.contains(#[trigger] items@[j]),
{
    let mut sorted: Vec<ProcessIdentity> = Vec::new();
    let ghost mut origin: Seq<int> = Seq::empty();
    let ghost mut place: Seq<int> = Seq::empty();
    let mut next: usize = 0;
    while next < items.len()
        invariant
            next <= items@.len(),
            sorted@.len() == next,
            forall|j: int, k: int| 0 <= j < k < items@.len() ==> items@[j].pid != items@[k].pid,
            forall|j: int, k: int| 0 <= j < k < sorted@.len() ==> sorted@[j].pid < sorted@[k].pid,
            origin.len() == sorted@.len(),
            forall|k: int| 0 <= k < sorted@.len() ==> 0 <= #[trigger] origin[k] < next && sorted@[k] == items@[origin[k]],
            place.len() == next,
            forall|j: int| 0 <= j < next ==> 0 <= #[trigger] place[j] < sorted@.len() && sorted@[place[j]] == items@[j],
        decreases items@.len() - next,
    {
        let item = items[next].clone();
        assert forall|k: int| 0 <= k < sorted@.len() implies sorted@[k].pid != item.pid by {
            assert(0 <= origin[k] < next);
            assert(items@[origin[k]].pid != items@[next as int].pid);
        }
        let mut position: usize = 0;
        while position < sorted.len() && sorted[position].pid < item.pid
            invariant
                position <= sorted@.len(),
                forall|k: int| 0 <= k < position ==> sorted@[k].pid < item.pid,
            decreases sorted@.len() - position,
        {
            position = position + 1;
        }
        let ghost before = sorted@;
        let ghost old_place = place;
        sorted.insert(position, item);
        proof {
            let p = position as int;
            assert(sorted@ == before.insert(p, items@[next as int]));
            assert forall|k: int| p <= k < before.len() implies before[k].pid > item.pid by {
                assert(before[p].pid >= item.pid);
                if k > p {
                    assert(before[p].pid < before[k].pid);
                }
                assert(before[k].pid != item.pid);
            }
            assert forall|j: int, k: int| 0 <= j < k < sorted@.len() implies sorted@[j].pid < sorted@[k].pid by {
                if k < p {
                    assert(sorted@[j] == before[j] && sorted@[k] == before[k]);
                } else if k == p {
                    assert(sorted@[j] == before[j]);
                } else if j < p {
                    assert(sorted@[j] == before[j] && sorted@[k] == before[k - 1]);
                } else if j == p {
                    assert(sorted@[k] == before[k - 1]);
                } else {
                    assert(sorted@[j] == before[j - 1] && sorted@[k] == before[k - 1]);
                }
            }
            origin = origin.insert(p, next as int);
            place = Seq::new((next + 1) as nat, |j: int| if j == next {
                p
            } else if old_place[j] >= p {
                old_place[j] + 1
            } else {
                old_place[j]
            });
            assert forall|k: int| 0 <= k < sorted@.len() implies 0 <= #[trigger] origin[k] < next + 1 && sorted@[k]
                == items@[origin[k]] by {
                if k < p {
                    assert(sorted@[k] == before[k]);
                } else if k > p {
                    assert(sorted@[k] == before[k - 1]);
                }
            }
        }
        next = next + 1;
    }
    proof {
        assert forall|k: int| 0 <= k < sorted@.len() implies items@.contains(#[trigger] sorted@[k]) by {
            assert(sorted@[k] == items@[origin[k]]);
        }
        assert forall|j: int| 0 <= j < items@.len() implies sorted@.contains(#[trigger] items@[j]) by {
            assert(sorted@[place[j]] == items@[j]);
        }
    }
    sorted
}

/// The descendants of a launcher that continue it, ordered by pid. `current`
/// is what the launcher's pid names now: once the launcher has exited its pid
/// may name another Process, and then nothing is claimed.
pub fn same_executable_descendants(
    launcher: &ProcessIdentity,
    current: &Option<ProcessIdentity>,
    entries: &Vec<ProcessListEntry>,
) -> (res: Vec<ProcessIdentity>)
    ensures
        !(current matches Some(now) && same_identity(*now, *launcher)) ==> res@.len() == 0,
        current matches Some(now) && same_identity(*now, *launcher) ==> {
            &&& forall|j: int, k: int| 0 <= j < k < res@.len() ==> res@[j].pid < res@[k].pid
            &&& forall|k: int| 0 <= k < res@.len() ==> is_descendant(entries@, *launcher, #[trigger] res@[k].pid)
            &&& forall|k: int| 0 <= k < res@.len() ==> found_through(entries@, *launcher, res@, #[trigger] res@[k])
            &&& forall|pid: u32|
                is_descendant(entries@, *launcher, pid) ==> exists|k: int| 0 <= k < res@.len() && res@[k].pid == pid
        },
{
    let still_running = match current {
        Some(now) => now.same_as(launcher),
        None => false,
    };
    if !still_running {
        return Vec::new();
    }
    let ghost all = entries@;
    let ghost root = *launcher;
    let mut pids: Vec<u32> = Vec::new();
    pids.push(launcher.pid);
    let mut found: Vec<ProcessIdentity> = Vec::new();
    let ghost mut sources: Seq<int> = Seq::empty();
    let ghost mut depths: Seq<nat> = seq![0nat];
    let mut continuing = true;
    while continuing
        invariant
            all == entries@,
            root == *launcher,
            pids@.len() == found@.len() + 1,
            pids@[0] == launcher.pid,
            forall|k: int| 0 <= k < found@.len() ==> pids@[k + 1] == #[trigger] found@[k].pid,
            forall|j: int, k: int| 0 <= j < k < pids@.len() ==> pids@[j] != pids@[k],
            depths.len() == pids@.len(),
            forall|k: int| 0 <= k < pids@.len() ==> reached(all, root, pids@[k], #[trigger] depths[k]),
            sources.len() == found@.len(),
            forall|k: int|
                0 <= k < found@.len() ==> {
                    let i = #[trigger] sources[k];
                    &&& 0 <= i < all.len()
                    &&& all[i].identity == found@[k]
                    &&& continues_launcher(root, all[i])
                    &&& pids@.contains(all[i].parent_pid)
                },
            !continuing ==> forall|i: int|
                0 <= i < all.len() && pids@.contains(#[trigger] all[i].parent_pid) && continues_launcher(root, all[i])
                    ==> pids@.contains(all[i].identity.pid),
        decreases unreached_count(all, pids@, all.len() as int) + if continuing {
            1nat
        } else {
            0nat
        },
    {
        let ghost start = pids@;
        let ghost start_count = unreached_count(all, start, all.len() as int);
        let mut grew = false;
        let mut index: usize = 0;
        while index < entries.len()
            invariant
                all == entries@,
                root == *launcher,
                index <= all.len(),
                start.len() >= 1,
                start_count == unreached_count(all, start, all.len() as int),
                pids@.len() == found@.len() + 1,
                pids@.len() >= start.len(),
                pids@.subrange(0, start.len() as int) == start,
                pids@[0] == launcher.pid,
                forall|k: int| 0 <= k < found@.len() ==> pids@[k + 1] == #[trigger] found@[k].pid,
                forall|j: int, k: int| 0 <= j < k < pids@.len() ==> pids@[j] != pids@[k],
                depths.len() == pids@.len(),
                forall|k: int| 0 <= k < pids@.len() ==> reached(all, root, pids@[k], #[trigger] depths[k]),
                sources.len() == found@.len(),
                forall|k: int|
                    0 <= k < found@.len() ==> {
                        let i = #[trigger] sources[k];
                        &&& 0 <= i < all.len()
                        &&& all[i].identity == found@[k]
                        &&& continues_launcher(root, all[i])
                        &&& pids@.contains(all[i].parent_pid)
                    },
                unreached_count(all, pids@, all.len() as int) <= start_count,
                grew ==> unreached_count(all, pids@, all.len() as int) < start_count,
                !grew ==> pids@ == start,
                !grew ==> forall|i: int|
                    0 <= i < index && start.contains(#[trigger] all[i].parent_pid) && continues_launcher(root, all[i])
                        ==> start.contains(all[i].identity.pid),
            decreases all.len() - index,
        {
            let entry = &entries[index];
            if contains_pid(&pids, entry.parent_pid) && !contains_pid(&pids, entry.identity.pid)
                && entry_continues_launcher(launcher, entry) {
                let ghost before = pids@;
                let ghost before_found = found@;
                let ghost parent_slot = before.index_of(all[index as int].parent_pid);
                proof {
                    assert(before[parent_slot] == all[index as int].parent_pid);
                    assert(reached(all, root, before[parent_slot], depths[parent_slot]));
                    reached_extends(all, root, index as int, depths[parent_slot]);
                }
                pids.push(entry.identity.pid);
                found.push(entry.identity.clone());
                proof {
                    depths = depths.push(depths[parent_slot] + 1);
                    sources = sources.push(index as int);
                    assert(pids@ == before.push(all[index as int].identity.pid));
                    assert(found@ == before_found.push(all[index as int].identity));
                    assert forall|pid: u32| before.contains(pid) implies pids@.contains(pid) by {
                        let k = before.index_of(pid);
                        assert(pids@[k] == pid);
                    }
                    assert forall|pid: u32| start.contains(pid) implies before.contains(pid) by {
                        let k = start.index_of(pid);
                        assert(before.subrange(0, start.len() as int)[k] == pid);
                        assert(before[k] == pid);
                    }
                    assert(pids@[before.len() as int] == all[index as int].identity.pid);
                    unreached_count_drops(all, before, pids@, all.len() as int, index as int);
                    unreached_count_shrinks(all, start, before, all.len() as int);
                    assert(pids@.subrange(0, start.len() as int) =~= start);
                    assert forall|k: int| 0 <= k < found@.len() implies pids@[k + 1] == #[trigger] found@[k].pid by {
                        if k < before_found.len() {
                            assert(found@[k] == before_found[k]);
                        }
                    }
                    assert forall|j: int, k: int| 0 <= j < k < pids@.len() implies pids@[j] != pids@[k] by {
                        if k == before.len() {
                            assert(before.contains(pids@[j]) ==> pids@[j] != all[index as int].identity.pid);
                            assert(before[j] == pids@[j]);
                        }
                    }
                    assert forall|k: int| 0 <= k < pids@.len() implies reached(all, root, pids@[k], #[trigger] depths[k]) by {
                        if k < before.len() {
                            assert(pids@[k] == before[k]);
                        }
                    }
                    assert forall|k: int| 0 <= k < found@.len() implies {
                        let i = #[trigger] sources[k];
                        &&& 0 <= i < all.len()
                        &&& all[i].identity == found@[k]
                        &&& continues_launcher(root, all[i])
                        &&& pids@.contains(all[i].parent_pid)
                    } by {
                        let i = sources[k];
                        if k < before_found.len() {
                            assert(found@[k] == before_found[k]);
                            let slot = before.index_of(all[i].parent_pid);
                            assert(pids@[slot] == all[i].parent_pid);
                        } else {
                            assert(pids@[parent_slot] == all[i].parent_pid);
                        }
                    }
                }
                grew = true;
            }
            index = index + 1;
        }
        if !grew {
            continuing = false;
        }
    }
    proof {
        assert forall|j: int, k: int| 0 <= j < k < found@.len() implies found@[j].pid != found@[k].pid by {
            assert(pids@[j + 1] != pids@[k + 1]);
        }
    }
    let ghost unsorted = found@;
    let ghost final_pids = pids@;
    let res = sorted_by_pid(found);
    proof {
        assert forall|k: int| 0 <= k < res@.len() implies is_descendant(all, root, #[trigger] res@[k].pid) by {
            let j = unsorted.index_of(res@[k]);
            assert(final_pids[j + 1] == unsorted[j].pid);
            assert(final_pids[0] != final_pids[j + 1]);
            assert(reached(all, root, final_pids[j + 1], depths[j + 1]));
        }
        assert forall|k: int| 0 <= k < res@.len() implies found_through(all, root, res@, #[trigger] res@[k]) by {
            let j = unsorted.index_of(res@[k]);
            let i = sources[j];
            assert(all[i].identity == unsorted[j]);
            let slot = final_pids.index_of(all[i].parent_pid);
            if slot > 0 {
                assert(final_pids[slot] == unsorted[slot - 1].pid);
                assert(res@.contains(unsorted[slot - 1]));
                let other = res@.index_of(unsorted[slot - 1]);
                assert(res@[other].pid == all[i].parent_pid);
            }
            assert(0 <= i < all.len() && all[i].identity == res@[k] && continues_launcher(root, all[i]));
        }
        assert forall|pid: u32| is_descendant(all, root, pid) implies exists|k: int|
            0 <= k < res@.len() && res@[k].pid == pid by {
            let depth = choose|depth: nat| reached(all, root, pid, depth);
            assert(final_pids.contains(launcher.pid)) by {
                assert(final_pids[0] == launcher.pid);
            }
            closed_pids_hold_reached(all, root, final_pids, pid, depth);
            let slot = final_pids.index_of(pid);
            assert(slot > 0);
            assert(unsorted[slot - 1].pid == pid);
            assert(res@.contains(unsorted[slot - 1]));
            let k = res@.index_of(unsorted[slot - 1]);
            assert(res@[k].pid == pid);
        }
    }
    res
}

} // verus!
