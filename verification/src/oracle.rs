use vstd::prelude::*;

use crate::matrix::{matrix_rows, vector_entries, AmountVector, RequestMatrix};
use crate::process::{
    first_demand, lemma_first_match, proc_id, proc_slots, ProcessStates, ReadyProcess,
    ResourceSlot,
};
use crate::resource::GenericResource;

verus! {

/// The current demand a process makes on resource `rid`: the demand of
/// its first slot for that resource when it is Ready, zero otherwise.
pub open spec fn demand_of(p: ProcessStates, rid: Seq<char>) -> u64 {
    if p is Ready {
        first_demand(proc_slots(p), rid)
    } else {
        0
    }
}

/// The combined demand the Ready processes of the snapshot make on
/// resource `rid`.
pub open spec fn total_ready_demand(procs: Seq<ProcessStates>, rid: Seq<char>) -> int
    decreases procs.len(),
{
    if procs.len() == 0 {
        0
    } else {
        total_ready_demand(procs.drop_last(), rid) + demand_of(procs.last(), rid)
    }
}

/// The relation the safety oracle decides: the snapshot is safe when, for
/// every resource, the combined demand of the Ready processes fits within
/// the resource's total capacity. Satisfying a process consumes its
/// demand for good — nothing is ever credited back to the pool — so some
/// serving order exists exactly when the sums fit. Non-Ready processes
/// make no claim, and an empty snapshot is trivially safe.
pub open spec fn snapshot_safe(procs: Seq<ProcessStates>, ress: Seq<GenericResource>) -> bool {
    forall|k: int|
        0 <= k < ress.len() ==> total_ready_demand(procs, (#[trigger] ress[k]).id@)
            <= ress[k].total_amount
}

/// Whether `p` can still be served after the processes of `kept` have
/// been: their combined demand plus `p`'s fits every capacity.
pub open spec fn fits_with(
    kept: Seq<ProcessStates>,
    p: ProcessStates,
    ress: Seq<GenericResource>,
) -> bool {
    forall|k: int|
        0 <= k < ress.len() ==> total_ready_demand(kept, (#[trigger] ress[k]).id@) + demand_of(
            p,
            ress[k].id@,
        ) <= ress[k].total_amount
}

/// A row of demands fits when it is componentwise at most the remaining
/// capacities.
spec fn row_fits(row: Seq<u64>, avail: Seq<u64>) -> bool {
    forall|j: int| 0 <= j < avail.len() ==> (#[trigger] row[j]) <= avail[j]
}

/// The sum of column `k` over all rows.
spec fn col_sum(rows: Seq<Seq<u64>>, k: int) -> int
    decreases rows.len(),
{
    if rows.len() == 0 {
        0
    } else {
        col_sum(rows.drop_last(), k) + rows.last()[k]
    }
}

/// A set of rows is feasible when every column sum fits within the
/// remaining capacity of that column.
spec fn feasible(rows: Seq<Seq<u64>>, avail: Seq<u64>) -> bool {
    forall|k: int| 0 <= k < avail.len() ==> col_sum(rows, k) <= (#[trigger] avail[k])
}

/// Appending a process adds exactly its demand to the combined demand.
proof fn lemma_trd_push(s: Seq<ProcessStates>, p: ProcessStates, rid: Seq<char>)
    ensures
        total_ready_demand(s.push(p), rid) == total_ready_demand(s, rid) + demand_of(p, rid),
{
    assert(s.push(p).drop_last() =~= s);
}

/// The combined demand is never negative.
proof fn lemma_trd_nonneg(s: Seq<ProcessStates>, rid: Seq<char>)
    ensures
        0 <= total_ready_demand(s, rid),
    decreases s.len(),
{
    if s.len() > 0 {
        lemma_trd_nonneg(s.drop_last(), rid);
    }
}

/// Removing a process takes exactly its demand out of the combined
/// demand.
proof fn lemma_trd_remove(s: Seq<ProcessStates>, i: int, rid: Seq<char>)
    requires
        0 <= i < s.len(),
    ensures
        total_ready_demand(s.remove(i), rid) == total_ready_demand(s, rid) - demand_of(
            s[i],
            rid,
        ),
    decreases s.len(),
{
    if i == s.len() - 1 {
        assert(s.remove(i) =~= s.drop_last());
    } else {
        assert(s.remove(i).drop_last() =~= s.drop_last().remove(i));
        assert(s.remove(i).last() == s.last());
        lemma_trd_remove(s.drop_last(), i, rid);
    }
}

/// Two snapshots whose processes make the same demands pointwise make the
/// same combined demand.
proof fn lemma_trd_pointwise(s1: Seq<ProcessStates>, s2: Seq<ProcessStates>, rid: Seq<char>)
    requires
        s1.len() == s2.len(),
        forall|i: int| 0 <= i < s1.len() ==> demand_of(#[trigger] s1[i], rid) == demand_of(
            s2[i],
            rid,
        ),
    ensures
        total_ready_demand(s1, rid) == total_ready_demand(s2, rid),
    decreases s1.len(),
{
    if s1.len() > 0 {
        lemma_trd_pointwise(s1.drop_last(), s2.drop_last(), rid);
        assert(demand_of(s1[s1.len() - 1], rid) == demand_of(s2[s2.len() - 1], rid));
    }
}

/// Removing a row takes exactly its entries out of the column sums.
proof fn lemma_col_sum_remove(rows: Seq<Seq<u64>>, i: int, k: int)
    requires
        0 <= i < rows.len(),
    ensures
        col_sum(rows.remove(i), k) == col_sum(rows, k) - rows[i][k],
    decreases rows.len(),
{
    if i == rows.len() - 1 {
        assert(rows.remove(i) =~= rows.drop_last());
    } else {
        assert(rows.remove(i).drop_last() =~= rows.drop_last().remove(i));
        assert(rows.remove(i).last() == rows.last());
        lemma_col_sum_remove(rows.drop_last(), i, k);
    }
}

/// Every entry of a column is at most the column's sum.
proof fn lemma_col_sum_bounds(rows: Seq<Seq<u64>>, i: int, k: int)
    requires
        0 <= i < rows.len(),
    ensures
        rows[i][k] <= col_sum(rows, k),
    decreases rows.len(),
{
    lemma_col_sum_nonneg(rows.drop_last(), k);
    if i == rows.len() - 1 {
    } else {
        lemma_col_sum_bounds(rows.drop_last(), i, k);
        assert(rows.drop_last()[i] == rows[i]);
    }
}

proof fn lemma_col_sum_nonneg(rows: Seq<Seq<u64>>, k: int)
    ensures
        0 <= col_sum(rows, k),
    decreases rows.len(),
{
    if rows.len() > 0 {
        lemma_col_sum_nonneg(rows.drop_last(), k);
    }
}

/// A request matrix whose entries hold the demands of the snapshot has,
/// in each column, the snapshot's combined demand on that resource.
proof fn lemma_col_sum_matches(
    rows: Seq<Seq<u64>>,
    procs: Seq<ProcessStates>,
    rid: Seq<char>,
    k: int,
)
    requires
        rows.len() == procs.len(),
        forall|i: int| 0 <= i < rows.len() ==> (#[trigger] rows[i])[k] == demand_of(procs[i], rid),
    ensures
        col_sum(rows, k) == total_ready_demand(procs, rid),
    decreases rows.len(),
{
    if rows.len() > 0 {
        lemma_col_sum_matches(rows.drop_last(), procs.drop_last(), rid, k);
        assert(rows[rows.len() - 1][k] == demand_of(procs[procs.len() - 1], rid));
    }
}

/// The current demand the slot list makes on resource `rid`.
fn demand_for(slots: &Vec<ResourceSlot>, rid: &String) -> (r: u64)
    ensures
        r == first_demand(slots@, rid@),
{
    let n = slots.len();
    let mut i: usize = 0;
    while i < n
        invariant
            i <= n,
            n == slots@.len(),
            forall|j: int| 0 <= j < i ==> (#[trigger] slots@[j]).resource_id@ != rid@,
        decreases n - i,
    {
        if slots[i].resource_id.eq(rid) {
            proof {
                lemma_first_match(slots@, rid@);
                assert(crate::process::first_match(slots@, rid@) == i);
            }
            return slots[i].current_amount;
        }
        i += 1;
    }
    proof {
        lemma_first_match(slots@, rid@);
        if crate::process::first_match(slots@, rid@) >= 0 {
            assert(slots@[crate::process::first_match(slots@, rid@)].resource_id@ == rid@);
        }
    }
    0
}

/// Whether row `i` of the matrix fits under the remaining capacities.
fn row_fits_exec(m: &RequestMatrix, i: usize, k: usize, avail: &AmountVector) -> (r: bool)
    requires
        i < matrix_rows(*m).len(),
        matrix_rows(*m)[i as int].len() == k,
        vector_entries(*avail).len() == k,
    ensures
        r == row_fits(matrix_rows(*m)[i as int], vector_entries(*avail)),
{
    let mut j: usize = 0;
    while j < k
        invariant
            j <= k,
            i < matrix_rows(*m).len(),
            matrix_rows(*m)[i as int].len() == k,
            vector_entries(*avail).len() == k,
            forall|t: int| 0 <= t < j ==> matrix_rows(*m)[i as int][t] <= vector_entries(*avail)[t],
        decreases k - j,
    {
        if m.get(i, j) > avail.get(j) {
            return false;
        }
        j += 1;
    }
    true
}

/// The first row of the matrix that fits under the remaining capacities,
/// if any.
fn find_free_row(m: &RequestMatrix, rows: usize, k: usize, avail: &AmountVector) -> (r: Option<
    usize,
>)
    requires
        rows == matrix_rows(*m).len(),
        vector_entries(*avail).len() == k,
        forall|i: int| 0 <= i < rows ==> (#[trigger] matrix_rows(*m)[i]).len() == k,
    ensures
        match r {
            Some(i) => i < rows && row_fits(matrix_rows(*m)[i as int], vector_entries(*avail)),
            None => forall|i: int|
                0 <= i < rows ==> !row_fits(#[trigger] matrix_rows(*m)[i], vector_entries(*avail)),
        },
{
    let mut i: usize = 0;
    while i < rows
        invariant
            i <= rows,
            rows == matrix_rows(*m).len(),
            vector_entries(*avail).len() == k,
            forall|t: int| 0 <= t < rows ==> (#[trigger] matrix_rows(*m)[t]).len() == k,
            forall|t: int|
                0 <= t < i ==> !row_fits(#[trigger] matrix_rows(*m)[t], vector_entries(*avail)),
        decreases rows - i,
    {
        if row_fits_exec(m, i, k, avail) {
            return Some(i);
        }
        i += 1;
    }
    None
}

/// Decides whether the allocation snapshot is safe. It builds the request
/// matrix and the capacity vector, then repeatedly looks for a row that
/// fits under what is left of the capacities, consumes that row's demands
/// for good — freed processes are never credited back — and deletes the
/// row, until either every row is gone (safe) or no row fits (unsafe).
pub fn safe_to_continue(processes: &Vec<ProcessStates>, resources: &Vec<GenericResource>) -> (r:
    bool)
    ensures
        r == snapshot_safe(processes@, resources@),
{
    let n = processes.len();
    let k = resources.len();
    if n == 0 {
        return true;
    }
    let mut resource_vector = AmountVector::zeros(k);
    let mut j: usize = 0;
    while j < k
        invariant
            j <= k,
            k == resources@.len(),
            vector_entries(resource_vector).len() == k,
            forall|t: int|
                0 <= t < j ==> vector_entries(resource_vector)[t] == (
                #[trigger] resources@[t]).total_amount,
        decreases k - j,
    {
        resource_vector.set(j, resources[j].total_amount);
        j += 1;
    }
    let mut process_requests = RequestMatrix::zeros(n, k);
    let mut i: usize = 0;
    while i < n
        invariant
            i <= n,
            n == processes@.len(),
            k == resources@.len(),
            matrix_rows(process_requests).len() == n,
            forall|a: int| 0 <= a < n ==> (#[trigger] matrix_rows(process_requests)[a]).len() == k,
            forall|a: int, b: int|
                0 <= a < i && 0 <= b < k ==> matrix_rows(process_requests)[a][b] == demand_of(
                    processes@[a],
                    resources@[b].id@,
                ),
            forall|a: int, b: int|
                i <= a < n && 0 <= b < k ==> matrix_rows(process_requests)[a][b] == 0,
        decreases n - i,
    {
        match &processes[i] {
            ProcessStates::Ready(ready_process) => {
                let ghost pstate = processes@[i as int];
                let mut b: usize = 0;
                while b < k
                    invariant
                        b <= k,
                        i < n,
                        n == processes@.len(),
                        k == resources@.len(),
                        pstate == processes@[i as int],
                        pstate is Ready,
                        proc_slots(pstate) == ready_process.resource_slot@,
                        matrix_rows(process_requests).len() == n,
                        forall|a: int|
                            0 <= a < n ==> (#[trigger] matrix_rows(process_requests)[a]).len() == k,
                        forall|a: int, t: int|
                            0 <= a < i && 0 <= t < k ==> matrix_rows(process_requests)[a][t]
                                == demand_of(processes@[a], resources@[t].id@),
                        forall|t: int|
                            0 <= t < b ==> matrix_rows(process_requests)[i as int][t] == demand_of(
                                processes@[i as int],
                                resources@[t].id@,
                            ),
                        forall|t: int|
                            b <= t < k ==> matrix_rows(process_requests)[i as int][t] == 0,
                        forall|a: int, t: int|
                            i < a < n && 0 <= t < k ==> matrix_rows(process_requests)[a][t] == 0,
                    decreases k - b,
                {
                    let d = demand_for(&ready_process.resource_slot, &resources[b].id);
                    process_requests.set(i, b, d);
                    b += 1;
                }
            },
            _ => {},
        }
        i += 1;
    }
    let ghost rows0 = matrix_rows(process_requests);
    let ghost avail0 = vector_entries(resource_vector);
    proof {
        assert forall|t: int| 0 <= t < k implies col_sum(rows0, t) == total_ready_demand(
            processes@,
            resources@[t].id@,
        ) by {
            lemma_col_sum_matches(rows0, processes@, resources@[t].id@, t);
        }
        assert(feasible(rows0, avail0) <==> snapshot_safe(processes@, resources@));
    }
    let mut requests = process_requests;
    let mut processes_to_free = n;
    loop
        invariant
            processes_to_free == matrix_rows(requests).len(),
            processes_to_free <= n,
            vector_entries(resource_vector).len() == k,
            forall|a: int|
                0 <= a < processes_to_free ==> (#[trigger] matrix_rows(requests)[a]).len() == k,
            feasible(matrix_rows(requests), vector_entries(resource_vector)) <==> feasible(
                rows0,
                avail0,
            ),
            feasible(rows0, avail0) <==> snapshot_safe(processes@, resources@),
        decreases processes_to_free,
    {
        if processes_to_free == 0 {
            return true;
        }
        match find_free_row(&requests, processes_to_free, k, &resource_vector) {
            Some(free_index) => {
                let ghost rows_before = matrix_rows(requests);
                let ghost avail_before = vector_entries(resource_vector);
                let mut c: usize = 0;
                while c < k
                    invariant
                        c <= k,
                        free_index < processes_to_free,
                        processes_to_free == matrix_rows(requests).len(),
                        matrix_rows(requests) == rows_before,
                        free_index < rows_before.len(),
                        forall|a: int|
                            0 <= a < processes_to_free ==> (#[trigger] rows_before[a]).len() == k,
                        vector_entries(resource_vector).len() == k,
                        avail_before.len() == k,
                        row_fits(rows_before[free_index as int], avail_before),
                        forall|t: int|
                            0 <= t < c ==> vector_entries(resource_vector)[t] == avail_before[t]
                                - rows_before[free_index as int][t],
                        forall|t: int|
                            c <= t < k ==> vector_entries(resource_vector)[t] == avail_before[t],
                    decreases k - c,
                {
                    let used = requests.get(free_index, c);
                    let left = resource_vector.get(c);
                    resource_vector.set(c, left - used);
                    c += 1;
                }
                requests = requests.remove_row(free_index);
                processes_to_free -= 1;
                proof {
                    let rows_after = matrix_rows(requests);
                    let avail_after = vector_entries(resource_vector);
                    assert forall|t: int| 0 <= t < k implies (col_sum(rows_after, t) <= avail_after[t])
                        == (col_sum(rows_before, t) <= avail_before[t]) by {
                        lemma_col_sum_remove(rows_before, free_index as int, t);
                    }
                    assert forall|a: int|
                        0 <= a < rows_after.len() implies (#[trigger] rows_after[a]).len() == k by {
                        if a < free_index {
                            assert(rows_after[a] == rows_before[a]);
                        } else {
                            assert(rows_after[a] == rows_before[a + 1]);
                        }
                    }
                    assert(feasible(rows_after, avail_after) <==> feasible(
                        rows_before,
                        avail_before,
                    ));
                }
            },
            None => {
                proof {
                    let rows_now = matrix_rows(requests);
                    let avail_now = vector_entries(resource_vector);
                    assert(!row_fits(rows_now[0], avail_now));
                    let bad = choose|t: int|
                        0 <= t < avail_now.len() && !(rows_now[0][t] <= avail_now[t]);
                    lemma_col_sum_bounds(rows_now, 0, bad);
                    assert(!feasible(rows_now, avail_now));
                }
                return false;
            },
        }
    }
}

/// The snapshot that remains once the processes reported by
/// `eviction_ids` are taken out, in registry order: walking front to
/// back, a Ready process is kept exactly when it can still be served
/// after everything kept so far; every non-Ready process is kept.
pub open spec fn surviving(procs: Seq<ProcessStates>, ress: Seq<GenericResource>) -> Seq<
    ProcessStates,
>
    decreases procs.len(),
{
    if procs.len() == 0 {
        Seq::empty()
    } else {
        let front = surviving(procs.drop_last(), ress);
        if procs.last() is Ready && !fits_with(front, procs.last(), ress) {
            front
        } else {
            front.push(procs.last())
        }
    }
}

/// The ids the engine proposes for eviction, in registry order: the Ready
/// processes that can no longer be served once everything kept before
/// them is.
pub open spec fn eviction_ids(procs: Seq<ProcessStates>, ress: Seq<GenericResource>) -> Seq<
    Seq<char>,
>
    decreases procs.len(),
{
    if procs.len() == 0 {
        Seq::empty()
    } else {
        let front = eviction_ids(procs.drop_last(), ress);
        if procs.last() is Ready && !fits_with(
            surviving(procs.drop_last(), ress),
            procs.last(),
            ress,
        ) {
            front.push(proc_id(procs.last()))
        } else {
            front
        }
    }
}

/// Computes the eviction set of a snapshot the way the tick loop does: it
/// grows a set of jointly servable Ready processes front to back,
/// re-running the oracle with each candidate added, and reports the id of
/// every candidate that made the trial snapshot unsafe.
pub fn eviction_set(processes: &Vec<ProcessStates>, resources: &Vec<GenericResource>) -> (evict:
    Vec<String>)
    ensures
        evict.deep_view() == eviction_ids(processes@, resources@),
{
    let mut processes_to_delete: Vec<String> = Vec::new();
    let mut safe_processes: Vec<ReadyProcess> = Vec::new();
    let n = processes.len();
    let mut i: usize = 0;
    while i < n
        invariant
            i <= n,
            n == processes@.len(),
            forall|kk: int|
                0 <= kk < resources@.len() ==> total_ready_demand(
                    safe_processes@.map_values(|q: ReadyProcess| ProcessStates::Ready(q)),
                    (#[trigger] resources@[kk]).id@,
                ) == total_ready_demand(
                    surviving(processes@.subrange(0, i as int), resources@),
                    resources@[kk].id@,
                ),
            processes_to_delete.deep_view() == eviction_ids(
                processes@.subrange(0, i as int),
                resources@,
            ),
        decreases n - i,
    {
        let ghost prefix = processes@.subrange(0, i as int);
        let ghost wrapped = safe_processes@.map_values(|q: ReadyProcess| ProcessStates::Ready(q));
        proof {
            assert(processes@.subrange(0, i + 1).drop_last() =~= prefix);
            assert(processes@.subrange(0, i + 1).last() == processes@[i as int]);
        }
        match &processes[i] {
            ProcessStates::Ready(ready_process) => {
                let mut processes_to_try: Vec<ProcessStates> = Vec::new();
                let m = safe_processes.len();
                let mut t: usize = 0;
                while t < m
                    invariant
                        t <= m,
                        m == safe_processes@.len(),
                        processes_to_try@.len() == t,
                        forall|q: int|
                            0 <= q < t ==> (#[trigger] processes_to_try@[q]) is Ready && proc_slots(
                                processes_to_try@[q],
                            ) == safe_processes@[q].resource_slot@,
                    decreases m - t,
                {
                    processes_to_try.push(ProcessStates::Ready(safe_processes[t].clone()));
                    t += 1;
                }
                let ghost trial_base = processes_to_try@;
                processes_to_try.push(ProcessStates::Ready(ready_process.clone()));
                let ghost candidate = processes_to_try@.last();
                proof {
                    assert(candidate is Ready);
                    assert(proc_slots(candidate) == proc_slots(processes@[i as int]));
                    assert forall|kk: int|
                        0 <= kk < resources@.len() implies total_ready_demand(
                        processes_to_try@,
                        (#[trigger] resources@[kk]).id@,
                    ) == total_ready_demand(surviving(prefix, resources@), resources@[kk].id@)
                        + demand_of(processes@[i as int], resources@[kk].id@) by {
                        let rid = resources@[kk].id@;
                        lemma_trd_pointwise(trial_base, wrapped, rid);
                        lemma_trd_push(trial_base, candidate, rid);
                        assert(processes_to_try@ == trial_base.push(candidate));
                        assert(demand_of(candidate, rid) == demand_of(processes@[i as int], rid));
                    }
                }
                let is_safe = safe_to_continue(&processes_to_try, resources);
                proof {
                    assert(is_safe == fits_with(
                        surviving(prefix, resources@),
                        processes@[i as int],
                        resources@,
                    ));
                }
                if is_safe {
                    let ghost wrapped_before = safe_processes@.map_values(
                        |q: ReadyProcess| ProcessStates::Ready(q),
                    );
                    safe_processes.push(ready_process.clone());
                    proof {
                        let wrapped_after = safe_processes@.map_values(
                            |q: ReadyProcess| ProcessStates::Ready(q),
                        );
                        assert(wrapped_after =~= wrapped_before.push(
                            ProcessStates::Ready(safe_processes@.last()),
                        ));
                        assert forall|kk: int|
                            0 <= kk < resources@.len() implies total_ready_demand(
                            wrapped_after,
                            (#[trigger] resources@[kk]).id@,
                        ) == total_ready_demand(
                            surviving(processes@.subrange(0, i + 1), resources@),
                            resources@[kk].id@,
                        ) by {
                            let rid = resources@[kk].id@;
                            lemma_trd_push(
                                wrapped_before,
                                ProcessStates::Ready(safe_processes@.last()),
                                rid,
                            );
                            assert(surviving(processes@.subrange(0, i + 1), resources@)
                                == surviving(prefix, resources@).push(processes@[i as int]));
                            lemma_trd_push(
                                surviving(prefix, resources@),
                                processes@[i as int],
                                rid,
                            );
                            assert(demand_of(
                                ProcessStates::Ready(safe_processes@.last()),
                                rid,
                            ) == demand_of(processes@[i as int], rid));
                        }
                    }
                } else {
                    processes_to_delete.push(ready_process.id.clone());
                    proof {
                        assert(processes_to_delete.deep_view() =~= eviction_ids(
                            processes@.subrange(0, i + 1),
                            resources@,
                        ));
                        assert(surviving(processes@.subrange(0, i + 1), resources@) == surviving(
                            prefix,
                            resources@,
                        ));
                    }
                }
            },
            _ => {
                proof {
                    let p = processes@[i as int];
                    assert(surviving(processes@.subrange(0, i + 1), resources@) == surviving(
                        prefix,
                        resources@,
                    ).push(p));
                    assert forall|kk: int|
                        0 <= kk < resources@.len() implies total_ready_demand(
                        wrapped,
                        (#[trigger] resources@[kk]).id@,
                    ) == total_ready_demand(
                        surviving(processes@.subrange(0, i + 1), resources@),
                        resources@[kk].id@,
                    ) by {
                        let rid = resources@[kk].id@;
                        lemma_trd_push(surviving(prefix, resources@), p, rid);
                        assert(demand_of(p, rid) == 0);
                    }
                }
            },
        }
        i += 1;
    }
    proof {
        assert(processes@.subrange(0, n as int) =~= processes@);
    }
    processes_to_delete
}

/// An empty snapshot is safe, whatever the resources hold.
pub proof fn lemma_safe_on_empty(ress: Seq<GenericResource>)
    ensures
        snapshot_safe(Seq::<ProcessStates>::empty(), ress),
{
}

/// A snapshot in which no process is Ready is safe, whatever the
/// resources hold.
pub proof fn lemma_safe_when_none_ready(procs: Seq<ProcessStates>, ress: Seq<GenericResource>)
    requires
        forall|i: int| 0 <= i < procs.len() ==> !((#[trigger] procs[i]) is Ready),
    ensures
        snapshot_safe(procs, ress),
{
    assert forall|k: int|
        0 <= k < ress.len() implies total_ready_demand(procs, (#[trigger] ress[k]).id@)
        <= ress[k].total_amount by {
        lemma_trd_zero_when_none_ready(procs, ress[k].id@);
    }
}

proof fn lemma_trd_zero_when_none_ready(procs: Seq<ProcessStates>, rid: Seq<char>)
    requires
        forall|i: int| 0 <= i < procs.len() ==> !((#[trigger] procs[i]) is Ready),
    ensures
        total_ready_demand(procs, rid) == 0,
    decreases procs.len(),
{
    if procs.len() > 0 {
        lemma_trd_zero_when_none_ready(procs.drop_last(), rid);
    }
}

/// Removing a Ready process from a safe snapshot never makes it unsafe.
pub proof fn lemma_safe_after_removal(
    procs: Seq<ProcessStates>,
    ress: Seq<GenericResource>,
    i: int,
)
    requires
        snapshot_safe(procs, ress),
        0 <= i < procs.len(),
        procs[i] is Ready,
    ensures
        snapshot_safe(procs.remove(i), ress),
{
    assert forall|k: int|
        0 <= k < ress.len() implies total_ready_demand(procs.remove(i), (#[trigger] ress[k]).id@)
        <= ress[k].total_amount by {
        lemma_trd_remove(procs, i, ress[k].id@);
    }
}

/// Every process of the snapshot is either kept by `surviving` or has
/// its id reported by `eviction_ids`, never both.
pub proof fn lemma_eviction_partition(procs: Seq<ProcessStates>, ress: Seq<GenericResource>)
    ensures
        surviving(procs, ress).len() + eviction_ids(procs, ress).len() == procs.len(),
    decreases procs.len(),
{
    if procs.len() > 0 {
        lemma_eviction_partition(procs.drop_last(), ress);
    }
}

/// After evicting the processes reported by `eviction_ids`, the snapshot
/// that remains is safe.
pub proof fn lemma_eviction_restores_safety(procs: Seq<ProcessStates>, ress: Seq<GenericResource>)
    ensures
        snapshot_safe(surviving(procs, ress), ress),
    decreases procs.len(),
{
    if procs.len() == 0 {
        assert forall|k: int|
            0 <= k < ress.len() implies total_ready_demand(
            surviving(procs, ress),
            (#[trigger] ress[k]).id@,
        ) <= ress[k].total_amount by {
            lemma_trd_nonneg(surviving(procs, ress), ress[k].id@);
        }
    } else {
        lemma_eviction_restores_safety(procs.drop_last(), ress);
        let front = surviving(procs.drop_last(), ress);
        let p = procs.last();
        if p is Ready && !fits_with(front, p, ress) {
        } else {
            assert forall|k: int|
                0 <= k < ress.len() implies total_ready_demand(
                front.push(p),
                (#[trigger] ress[k]).id@,
            ) <= ress[k].total_amount by {
                lemma_trd_push(front, p, ress[k].id@);
                if !(p is Ready) {
                    assert(demand_of(p, ress[k].id@) == 0);
                }
            }
        }
    }
}

} // verus!
