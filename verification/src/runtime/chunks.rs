//! Cutting a stream of events into consecutive chunks of a fixed capacity, and
//! a stream of CPU events into its runs of equal shard id.

use vstd::prelude::*;

use crate::runtime::events::CpuEvent;

verus! {

/// The smaller of two integers.
pub open spec fn min_int(a: int, b: int) -> int {
    if a <= b {
        a
    } else {
        b
    }
}

/// What is left of `s` once everything from chunk `j` on is cut off, the
/// chunks holding `len` items each.
pub open spec fn chunks_before<T>(s: Seq<T>, len: int, j: int) -> Seq<T> {
    s.subrange(0, min_int(j * len, s.len() as int))
}

/// The `j`-th chunk of `s` cut into chunks of `len` items. The last chunk that
/// holds anything may be short, and every later one is empty.
pub open spec fn chunk<T>(s: Seq<T>, len: int, j: int) -> Seq<T> {
    s.subrange(min_int(j * len, s.len() as int), min_int((j + 1) * len, s.len() as int))
}

/// The first `n` chunks of `s`, one after the other, are a prefix of `s`; they
/// are all of `s` exactly if `n` chunks can hold it.
pub proof fn lemma_chunks_before_step<T>(s: Seq<T>, len: int, j: int)
    requires
        len > 0,
        j >= 0,
    ensures
        chunks_before(s, len, j + 1) == chunks_before(s, len, j) + chunk(s, len, j),
        j * len >= 0,
        (j + 1) * len == j * len + len,
{
    assert((j + 1) * len == j * len + len) by (nonlinear_arith);
    assert(j * len >= 0) by (nonlinear_arith)
        requires
            j >= 0,
            len > 0,
    ;
    assert(chunks_before(s, len, j + 1) =~= chunks_before(s, len, j) + chunk(s, len, j));
}

/// Cuts everything from chunk `n` on off `v`.
pub(crate) fn keep_chunks<T>(v: &mut Vec<T>, len: usize, n: usize)
    requires
        len > 0,
    ensures
        final(v)@ == chunks_before(old(v)@, len as int, n as int),
{
    proof {
        assert(n * len >= 0) by (nonlinear_arith)
            requires
                n >= 0,
                len > 0,
        ;
    }
    match n.checked_mul(len) {
        Some(keep) => {
            if keep < v.len() {
                v.truncate(keep);
            } else {
                assert(v@ =~= chunks_before(v@, len as int, n as int));
            }
        },
        None => {
            let full = v.len();
            assert(v@ =~= chunks_before(v@, len as int, n as int));
        },
    }
}

/// Takes chunk `j` off the end of `v`, which holds the chunks up to `j` of
/// `whole`.
pub(crate) fn take_chunk<T>(
    v: &mut Vec<T>,
    len: usize,
    j: usize,
    Ghost(whole): Ghost<Seq<T>>,
) -> (c: Vec<T>)
    requires
        len > 0,
        old(v)@ == chunks_before(whole, len as int, j + 1),
    ensures
        final(v)@ == chunks_before(whole, len as int, j as int),
        c@ == chunk(whole, len as int, j as int),
{
    proof {
        lemma_chunks_before_step(whole, len as int, j as int);
    }
    let at: usize = match j.checked_mul(len) {
        Some(p) => if p < v.len() {
            p
        } else {
            v.len()
        },
        None => v.len(),
    };
    let c = v.split_off(at);
    proof {
        assert(v@ =~= chunks_before(whole, len as int, j as int));
        assert(c@ =~= chunk(whole, len as int, j as int));
    }
    c
}

/// Whether a run of equal shard ids starts at event `i`: at the first event,
/// and wherever the shard id differs from that of the event before.
pub open spec fn starts_run(cpu: Seq<CpuEvent>, i: int) -> bool {
    0 <= i < cpu.len() && (i == 0 || cpu[i - 1].shard != cpu[i].shard)
}

/// The positions among the first `k` events at which a run starts, ascending.
pub open spec fn run_starts(cpu: Seq<CpuEvent>, k: int) -> Seq<int>
    decreases k,
{
    if k <= 0 {
        Seq::empty()
    } else if starts_run(cpu, k - 1) {
        run_starts(cpu, k - 1).push(k - 1)
    } else {
        run_starts(cpu, k - 1)
    }
}

/// The number of runs of equal shard ids in `cpu`.
pub open spec fn num_runs(cpu: Seq<CpuEvent>) -> int {
    run_starts(cpu, cpu.len() as int).len() as int
}

/// Where run `j` of `cpu` starts.
pub open spec fn run_start(cpu: Seq<CpuEvent>, j: int) -> int {
    run_starts(cpu, cpu.len() as int)[j]
}

/// Where run `j` of `cpu` ends: where the next run starts, or at the end of
/// the stream.
pub open spec fn run_end(cpu: Seq<CpuEvent>, j: int) -> int {
    if j + 1 < num_runs(cpu) {
        run_start(cpu, j + 1)
    } else {
        cpu.len() as int
    }
}

/// The shard id that all events of run `j` share.
pub open spec fn run_shard(cpu: Seq<CpuEvent>, j: int) -> u32 {
    cpu[run_start(cpu, j)].shard
}

/// The events of run `j`.
pub open spec fn run_events(cpu: Seq<CpuEvent>, j: int) -> Seq<CpuEvent> {
    cpu.subrange(run_start(cpu, j), run_end(cpu, j))
}

/// What `run_starts` holds: exactly the starts of runs among the first `k`
/// events, in ascending order.
pub proof fn lemma_run_starts(cpu: Seq<CpuEvent>, k: int)
    requires
        0 <= k <= cpu.len(),
    ensures
        forall|j: int|
            0 <= j < run_starts(cpu, k).len() ==> 0 <= #[trigger] run_starts(cpu, k)[j] < k
                && starts_run(cpu, run_starts(cpu, k)[j]),
        forall|i: int, j: int|
            0 <= i < j < run_starts(cpu, k).len() ==> #[trigger] run_starts(cpu, k)[i]
                < #[trigger] run_starts(cpu, k)[j],
        forall|i: int|
            0 <= i < k && starts_run(cpu, i) ==> #[trigger] run_starts(cpu, k).contains(i),
        k > 0 ==> run_starts(cpu, k).len() > 0 && run_starts(cpu, k)[0] == 0,
        run_starts(cpu, k).len() <= k,
    decreases k,
{
    if k > 0 {
        lemma_run_starts(cpu, k - 1);
        let prev = run_starts(cpu, k - 1);
        let cur = run_starts(cpu, k);
        if starts_run(cpu, k - 1) {
            assert(cur == prev.push(k - 1));
            assert forall|i: int| 0 <= i < k && starts_run(cpu, i) implies cur.contains(i) by {
                if i < k - 1 {
                    assert(prev.contains(i));
                    let j = choose|j: int| 0 <= j < prev.len() && prev[j] == i;
                    assert(cur[j] == i);
                } else {
                    assert(cur[prev.len() as int] == i);
                }
            }
        } else {
            assert(cur == prev);
        }
    }
}

/// A longer prefix has the starts of a shorter one as its first entries.
pub proof fn lemma_run_starts_prefix(cpu: Seq<CpuEvent>, k: int, n: int)
    requires
        0 <= k <= n <= cpu.len(),
    ensures
        run_starts(cpu, k).len() <= run_starts(cpu, n).len(),
        forall|j: int|
            0 <= j < run_starts(cpu, k).len() ==> #[trigger] run_starts(cpu, n)[j] == run_starts(
                cpu,
                k,
            )[j],
    decreases n - k,
{
    if k < n {
        lemma_run_starts_prefix(cpu, k, n - 1);
    }
}

/// The runs tile the stream: each starts where the one before ends, none is
/// empty, all events of a run share its shard id, and two neighbours differ
/// in shard id.
pub proof fn lemma_runs_tile(cpu: Seq<CpuEvent>)
    requires
        cpu.len() > 0,
    ensures
        num_runs(cpu) >= 1,
        num_runs(cpu) <= cpu.len(),
        run_start(cpu, 0) == 0,
        run_end(cpu, num_runs(cpu) - 1) == cpu.len(),
        forall|j: int|
            0 <= j < num_runs(cpu) ==> 0 <= #[trigger] run_start(cpu, j) < run_end(cpu, j)
                <= cpu.len(),
        forall|j: int| 0 <= j < num_runs(cpu) - 1 ==> #[trigger] run_end(cpu, j) == run_start(
            cpu,
            j + 1,
        ),
        forall|j: int, i: int|
            0 <= j < num_runs(cpu) && run_start(cpu, j) <= i < run_end(cpu, j) ==> (
            #[trigger] cpu[i]).shard == #[trigger] run_shard(cpu, j),
        forall|j: int|
            0 < j < num_runs(cpu) ==> cpu[run_start(cpu, j) - 1].shard != #[trigger] run_shard(
                cpu,
                j
            ),
{
    let n = cpu.len() as int;
    let starts = run_starts(cpu, n);
    lemma_run_starts(cpu, n);
    assert forall|j: int| 0 <= j < num_runs(cpu) implies 0 <= #[trigger] run_start(cpu, j)
        < run_end(cpu, j) <= cpu.len() by {
        assert(0 <= starts[j] < n);
        if j + 1 < num_runs(cpu) {
            assert(starts[j] < starts[j + 1]);
            assert(0 <= starts[j + 1] < n);
        }
    }
    assert forall|j: int, i: int|
        0 <= j < num_runs(cpu) && run_start(cpu, j) <= i < run_end(cpu, j) implies (
    #[trigger] cpu[i]).shard == #[trigger] run_shard(cpu, j) by {
        lemma_run_constant(cpu, j, i);
    }
    assert forall|j: int| 0 < j < num_runs(cpu) implies cpu[run_start(cpu, j) - 1].shard
        != #[trigger] run_shard(cpu, j) by {
        assert(starts_run(cpu, starts[j]));
        assert(starts[0] < starts[j]);
    }
}

/// Where run `j` lies: it is not empty, it starts where the run before it
/// ends, the first run starts at the first event, and the last run ends at
/// the last.
pub proof fn lemma_run_bounds(cpu: Seq<CpuEvent>, j: int)
    requires
        cpu.len() > 0,
        0 <= j < num_runs(cpu),
    ensures
        0 <= run_start(cpu, j) < run_end(cpu, j) <= cpu.len(),
        j == 0 ==> run_start(cpu, j) == 0,
        j > 0 ==> run_start(cpu, j) == run_end(cpu, j - 1),
        j == num_runs(cpu) - 1 ==> run_end(cpu, j) == cpu.len(),
{
    lemma_runs_tile(cpu);
    if j > 0 {
        assert(run_end(cpu, j - 1) == run_start(cpu, j));
    }
}

/// Within a run, every event has the shard id of the run's first event.
pub proof fn lemma_run_constant(cpu: Seq<CpuEvent>, j: int, i: int)
    requires
        cpu.len() > 0,
        0 <= j < num_runs(cpu),
        run_start(cpu, j) <= i < run_end(cpu, j),
    ensures
        cpu[i].shard == run_shard(cpu, j),
    decreases i - run_start(cpu, j),
{
    let n = cpu.len() as int;
    let starts = run_starts(cpu, n);
    lemma_run_starts(cpu, n);
    assert(0 <= starts[j] < n);
    if j + 1 < num_runs(cpu) {
        assert(0 <= starts[j + 1] < n);
    }
    if i > run_start(cpu, j) {
        lemma_run_constant(cpu, j, i - 1);
        if starts_run(cpu, i) {
            assert(starts.contains(i));
            let m = choose|m: int| 0 <= m < starts.len() && starts[m] == i;
            if m <= j {
                if m < j {
                    assert(starts[m] < starts[j]);
                }
            } else {
                if j + 1 < m {
                    assert(starts[j + 1] < starts[m]);
                }
            }
        }
    }
}

/// Finds where the runs of equal shard ids start.
pub fn find_run_starts(cpu: &Vec<CpuEvent>) -> (starts: Vec<usize>)
    ensures
        starts@.len() == num_runs(cpu@),
        forall|j: int| 0 <= j < starts@.len() ==> #[trigger] starts@[j] as int == run_start(
            cpu@,
            j
        ),
{
    let mut starts: Vec<usize> = Vec::new();
    let n = cpu.len();
    let mut i: usize = 0;
    while i < n
        invariant
            0 <= i <= n,
            n == cpu@.len(),
            starts@.len() == run_starts(cpu@, i as int).len(),
            forall|j: int|
                0 <= j < starts@.len() ==> #[trigger] starts@[j] as int == run_starts(
                    cpu@,
                    i as int,
                )[j],
        decreases n - i,
    {
        if i == 0 || cpu[i - 1].shard != cpu[i].shard {
            starts.push(i);
        }
        i = i + 1;
    }
    starts
}

} // verus!
