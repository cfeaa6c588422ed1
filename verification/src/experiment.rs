use crate::rng::{seeded_std_rng, std_rng_below};
use rand::rngs::StdRng;
use std::collections::VecDeque;
use vstd::prelude::*;

verus! {

/// Number of tasks one experiment generates.
pub const EXPERIMENT_TASKS: usize = 1000;

/// Number of worker threads of an experiment.
pub const EXPERIMENT_WORKERS: usize = 8;

/// Pause between two generated tasks, in milliseconds.
pub const EXPERIMENT_ARRIVAL_MS: u64 = 20;

/// How long a task runs, in milliseconds.
pub const EXPERIMENT_TASK_MS: u64 = 200;

/// The simulated CPU capacity, in percent.
pub const EXPERIMENT_CPU_CAP: usize = 100;

/// Seed of the generator, so that the task mix repeats from run to run.
pub const EXPERIMENT_SEED: u64 = 42;

/// Simulated CPU share of an IO task.
pub const IO_COST: usize = 10;

/// Simulated CPU share of a CPU task.
pub const CPU_COST: usize = 35;

/// The longest `std::time::Duration`, in nanoseconds.
pub const MAX_DURATION_NS: u128 = 18446744073709551615999999999;

/// The two workload types of an experiment.
#[derive(Clone, Copy, Debug, PartialEq, Eq, Structural)]
pub enum TaskKind {
    IO,
    CPU,
}

/// A task of an experiment; `arrival_ns` counts from the start of the run.
#[derive(Clone, Copy, Debug, PartialEq, Eq, Structural)]
pub struct Task {
    pub id: usize,
    pub kind: TaskKind,
    pub arrival_ns: u64,
    pub duration_ms: u64,
    pub cpu_cost: usize,
}

/// The timing of a finished task, in nanoseconds.
#[derive(Clone, Copy, Debug, PartialEq, Eq, Structural)]
pub struct TaskResult {
    pub task_id: usize,
    pub kind: TaskKind,
    pub wait_ns: u128,
    pub turnaround_ns: u128,
}

/// The CPU share of a kind of task.
pub open spec fn kind_cost(kind: TaskKind) -> usize {
    match kind {
        TaskKind::IO => IO_COST,
        TaskKind::CPU => CPU_COST,
    }
}

/// The kind a roll in `0..100` gives: IO below `io_percent`, CPU otherwise.
pub open spec fn kind_for_roll(roll: usize, io_percent: usize) -> TaskKind {
    if roll < io_percent {
        TaskKind::IO
    } else {
        TaskKind::CPU
    }
}

/// Builds the task for `id` from the generator's roll.
pub fn task_from_roll(id: usize, roll: usize, io_percent: usize, arrival_ns: u64, duration_ms: u64) -> (t: Task)
    ensures
        t.id == id,
        t.kind == kind_for_roll(roll, io_percent),
        t.cpu_cost == kind_cost(t.kind),
        t.arrival_ns == arrival_ns,
        t.duration_ms == duration_ms,
{
    let kind = if roll < io_percent {
        TaskKind::IO
    } else {
        TaskKind::CPU
    };
    let cpu_cost = match kind {
        TaskKind::IO => IO_COST,
        TaskKind::CPU => CPU_COST,
    };
    Task { id, kind, arrival_ns, duration_ms, cpu_cost }
}

/// The task generator of an experiment: a seeded generator, the share of IO
/// tasks in percent, the id of the next task, and a record of the rolls
/// drawn so far.
pub struct TaskGenerator {
    rng: StdRng,
    io_percent: usize,
    next_id: usize,
    rolls: Ghost<Seq<usize>>,
}

impl TaskGenerator {
    /// The share of IO tasks, in percent.
    pub closed spec fn io_share(&self) -> usize {
        self.io_percent
    }

    /// The id the next task gets.
    pub closed spec fn upcoming_id(&self) -> usize {
        self.next_id
    }

    /// The rolls drawn so far, one per generated task, in order.
    pub closed spec fn drawn_rolls(&self) -> Seq<usize> {
        self.rolls@
    }

    /// A generator seeded with `EXPERIMENT_SEED` that starts at id 0.
    pub fn new(io_percent: usize) -> (g: TaskGenerator)
        ensures
            g.io_share() == io_percent,
            g.upcoming_id() == 0,
            g.drawn_rolls() == Seq::<usize>::empty(),
    {
        TaskGenerator {
            rng: seeded_std_rng(EXPERIMENT_SEED),
            io_percent,
            next_id: 0,
            rolls: Ghost(Seq::empty()),
        }
    }

    /// Draws a roll in `0..100` and builds the next task from it.
    pub fn next_task(&mut self, arrival_ns: u64, duration_ms: u64) -> (t: Task)
        requires
            old(self).upcoming_id() < usize::MAX,
        ensures
            final(self).upcoming_id() == old(self).upcoming_id() + 1,
            final(self).io_share() == old(self).io_share(),
            t.id == old(self).upcoming_id(),
            final(self).drawn_rolls().len() == old(self).drawn_rolls().len() + 1,
            final(self).drawn_rolls().drop_last() == old(self).drawn_rolls(),
            final(self).drawn_rolls().last() < 100,
            t.kind == kind_for_roll(final(self).drawn_rolls().last(), old(self).io_share()),
            t.cpu_cost == kind_cost(t.kind),
            t.arrival_ns == arrival_ns,
            t.duration_ms == duration_ms,
    {
        let roll = std_rng_below(&mut self.rng, 100);
        let t = task_from_roll(self.next_id, roll, self.io_percent, arrival_ns, duration_ms);
        self.next_id = self.next_id + 1;
        self.rolls = Ghost(self.rolls@.push(roll));
        proof {
            assert(self.rolls@.drop_last() =~= old(self).rolls@);
        }
        t
    }
}

/// With a share of 0 every task is a CPU task; with a share of 100 or more,
/// every task is an IO task.
pub proof fn lemma_extreme_shares(roll: usize, io_percent: usize)
    requires
        roll < 100,
    ensures
        io_percent == 0 ==> kind_for_roll(roll, io_percent) == TaskKind::CPU,
        io_percent >= 100 ==> kind_for_roll(roll, io_percent) == TaskKind::IO,
{
}

/// The dispatcher's state: waiting tasks in arrival order, the free workers
/// in the order they became free, the task each worker is running, and how
/// many results came back.
pub struct DispatchQueue {
    pub queue: VecDeque<Task>,
    pub free_workers: VecDeque<usize>,
    pub running: Vec<Option<usize>>,
    pub completed_count: usize,
    pub total_tasks: usize,
    pub worker_count: usize,
}

/// The numbers `0..n` in order.
pub open spec fn first_workers(n: usize) -> Seq<usize> {
    Seq::new(n as nat, |i: int| i as usize)
}

/// The free list holds exactly the workers that run no task, each once.
pub open spec fn free_list_exact(free_workers: Seq<usize>, running: Seq<Option<usize>>) -> bool {
    &&& free_workers.no_duplicates()
    &&& forall|i: int| 0 <= i < free_workers.len() ==> #[trigger] free_workers[i] < running.len()
    &&& forall|w: int| 0 <= w < running.len() ==> (free_workers.contains(w as usize) <==> #[trigger] running[w] is None)
}

/// A task can leave: a worker is free, a task waits, and the front task's
/// share keeps the CPU within the cap.
pub open spec fn dispatchable(queue: Seq<Task>, free_workers: Seq<usize>, current_cpu: usize) -> bool {
    &&& free_workers.len() > 0
    &&& queue.len() > 0
    &&& current_cpu + queue[0].cpu_cost <= EXPERIMENT_CPU_CAP
}

impl DispatchQueue {
    /// One slot per worker, no more results than tasks, and a free list that
    /// holds exactly the idle workers.
    pub open spec fn wf(&self) -> bool {
        &&& self.worker_count > 0
        &&& self.running@.len() == self.worker_count
        &&& self.completed_count <= self.total_tasks
        &&& free_list_exact(self.free_workers@, self.running@)
    }

    /// An empty queue, every worker free, no result yet.
    pub fn new(total_tasks: usize, worker_count: usize) -> (d: DispatchQueue)
        requires
            worker_count > 0,
        ensures
            d.wf(),
            d.queue@ == Seq::<Task>::empty(),
            d.free_workers@ == first_workers(worker_count),
            d.running@ == Seq::new(worker_count as nat, |w: int| None::<usize>),
            d.completed_count == 0,
            d.total_tasks == total_tasks,
            d.worker_count == worker_count,
    {
        let mut free_workers: VecDeque<usize> = VecDeque::new();
        let mut running: Vec<Option<usize>> = Vec::new();
        let mut i: usize = 0;
        while i < worker_count
            invariant
                i <= worker_count,
                free_workers@ == first_workers(i),
                running@ == Seq::new(i as nat, |w: int| None::<usize>),
            decreases worker_count - i,
        {
            free_workers.push_back(i);
            running.push(None);
            i = i + 1;
            assert(free_workers@ =~= first_workers(i));
            assert(running@ =~= Seq::new(i as nat, |w: int| None::<usize>));
        }
        proof {
            let f = free_workers@;
            assert forall|w: int| 0 <= w < running@.len() implies (f.contains(w as usize)
                <==> #[trigger] running@[w] is None) by {
                assert(f[w] == w as usize);
            }
            assert forall|a: int, b: int| 0 <= a < f.len() && 0 <= b < f.len() && a != b implies f[a]
                != f[b] by {}
        }
        DispatchQueue {
            queue: VecDeque::new(),
            free_workers,
            running,
            completed_count: 0,
            total_tasks,
            worker_count,
        }
    }

    /// Puts an arriving task at the back of the queue.
    pub fn enqueue(&mut self, task: Task)
        requires
            old(self).wf(),
        ensures
            final(self).wf(),
            final(self).queue@ == old(self).queue@.push(task),
            final(self).free_workers@ == old(self).free_workers@,
            final(self).running@ == old(self).running@,
            final(self).completed_count == old(self).completed_count,
            final(self).total_tasks == old(self).total_tasks,
            final(self).worker_count == old(self).worker_count,
    {
        self.queue.push_back(task);
    }

    /// The number of waiting tasks.
    pub fn queue_len(&self) -> (n: usize)
        ensures
            n == self.queue@.len(),
    {
        self.queue.len()
    }

    /// Whether more results are expected.
    pub fn awaits_results(&self) -> (b: bool)
        ensures
            b == (self.completed_count < self.total_tasks),
    {
        self.completed_count < self.total_tasks
    }

    /// Whether every task has come back.
    pub fn is_finished(&self) -> (b: bool)
        ensures
            b == (self.completed_count == self.total_tasks),
    {
        self.completed_count == self.total_tasks
    }

    /// Counts the result of task `task_id` and frees the worker that ran it,
    /// which goes to the back of the free list. Returns that worker; a result
    /// of a task that no worker runs is counted and frees nobody.
    pub fn record_result(&mut self, task_id: usize) -> (freed: Option<usize>)
        requires
            old(self).wf(),
            old(self).completed_count < old(self).total_tasks,
        ensures
            final(self).wf(),
            final(self).completed_count == old(self).completed_count + 1,
            freed matches Some(w) ==> {
                &&& w < old(self).worker_count
                &&& old(self).running@[w as int] == Some(task_id)
                &&& forall|v: int| 0 <= v < w ==> old(self).running@[v] != Some(task_id)
                &&& final(self).running@ == old(self).running@.update(w as int, None)
                &&& final(self).free_workers@ == old(self).free_workers@.push(w)
            },
            freed is None ==> {
                &&& forall|v: int| 0 <= v < old(self).running@.len() ==> old(self).running@[v] != Some(task_id)
                &&& final(self).running@ == old(self).running@
                &&& final(self).free_workers@ == old(self).free_workers@
            },
            final(self).queue@ == old(self).queue@,
            final(self).total_tasks == old(self).total_tasks,
            final(self).worker_count == old(self).worker_count,
    {
        self.completed_count = self.completed_count + 1;
        let found = find_runner(&self.running, task_id);
        match found {
            Some(w) => {
                let ghost before = self.free_workers@;
                proof {
                    assert(!before.contains(w)) by {
                        if before.contains(w) {
                            assert(self.running@[w as int] is None);
                        }
                    }
                }
                self.running.set(w, None);
                self.free_workers.push_back(w);
                proof {
                    let after = self.free_workers@;
                    assert forall|i: int| 0 <= i < before.len() implies before[i] != w by {
                        assert(before.contains(before[i]));
                    }
                    assert forall|a: int, b: int|
                        0 <= a < after.len() && 0 <= b < after.len() && a != b implies after[a]
                        != after[b] by {
                        if a < before.len() && b < before.len() {
                            assert(before[a] != before[b]);
                        }
                    }
                    assert forall|v: int| 0 <= v < self.running@.len() implies (after.contains(
                        v as usize,
                    ) <==> #[trigger] self.running@[v] is None) by {
                        if v == w as int {
                            assert(after[before.len() as int] == w);
                        } else {
                            assert(old(self).running@[v] == self.running@[v]);
                            if after.contains(v as usize) {
                                let k = choose|k: int| 0 <= k < after.len() && after[k] == v as usize;
                                assert(before[k] == v as usize);
                                assert(before.contains(v as usize));
                            }
                            if before.contains(v as usize) {
                                let k = choose|k: int| 0 <= k < before.len() && before[k] == v as usize;
                                assert(after[k] == v as usize);
                            }
                        }
                    }
                }
                Some(w)
            },
            None => None,
        }
    }

    /// Hands the front task to the first free worker when its CPU share keeps
    /// `current_cpu` within the cap, and records that the worker runs it;
    /// otherwise changes nothing.
    pub fn try_dispatch(&mut self, current_cpu: usize) -> (r: Option<(usize, Task)>)
        requires
            old(self).wf(),
            old(self).free_workers@.len() > 0 && old(self).queue@.len() > 0 ==> current_cpu
                + old(self).queue@[0].cpu_cost <= usize::MAX,
        ensures
            final(self).wf(),
            final(self).completed_count == old(self).completed_count,
            final(self).total_tasks == old(self).total_tasks,
            final(self).worker_count == old(self).worker_count,
            r is Some <==> dispatchable(old(self).queue@, old(self).free_workers@, current_cpu),
            r matches Some(p) ==> {
                &&& p.0 == old(self).free_workers@[0]
                &&& p.1 == old(self).queue@[0]
                &&& p.0 < old(self).worker_count
                &&& old(self).running@[p.0 as int] is None
                &&& final(self).running@ == old(self).running@.update(p.0 as int, Some(p.1.id))
                &&& final(self).free_workers@ == old(self).free_workers@.drop_first()
                &&& final(self).queue@ == old(self).queue@.drop_first()
            },
            r is None ==> {
                &&& final(self).free_workers@ == old(self).free_workers@
                &&& final(self).queue@ == old(self).queue@
                &&& final(self).running@ == old(self).running@
            },
    {
        if self.free_workers.len() == 0 || self.queue.len() == 0 {
            return None;
        }
        let cost = self.queue[0].cpu_cost;
        if current_cpu + cost > EXPERIMENT_CPU_CAP {
            return None;
        }
        let ghost before = self.free_workers@;
        let worker_index = match self.free_workers.pop_front() {
            Some(w) => w,
            None => {
                return None;
            },
        };
        let task = match self.queue.pop_front() {
            Some(t) => t,
            None => {
                return None;
            },
        };
        proof {
            assert(before[0] == worker_index);
            assert(before.contains(worker_index));
            assert(self.running@[worker_index as int] is None);
        }
        self.running.set(worker_index, Some(task.id));
        proof {
            let after = self.free_workers@;
            assert(after =~= before.drop_first());
            assert forall|a: int, b: int| 0 <= a < after.len() && 0 <= b < after.len() && a != b implies after[a]
                != after[b] by {
                assert(before[a + 1] != before[b + 1]);
            }
            assert forall|v: int| 0 <= v < self.running@.len() implies (after.contains(v as usize)
                <==> #[trigger] self.running@[v] is None) by {
                if v == worker_index as int {
                    if after.contains(v as usize) {
                        let k = choose|k: int| 0 <= k < after.len() && after[k] == v as usize;
                        assert(before[k + 1] == before[0]);
                    }
                } else {
                    if after.contains(v as usize) {
                        let k = choose|k: int| 0 <= k < after.len() && after[k] == v as usize;
                        assert(before[k + 1] == v as usize);
                    }
                    if before.contains(v as usize) {
                        let k = choose|k: int| 0 <= k < before.len() && before[k] == v as usize;
                        assert(k != 0);
                        assert(after[k - 1] == v as usize);
                    }
                }
            }
            assert forall|i: int| 0 <= i < after.len() implies #[trigger] after[i] < self.running@.len() by {
                assert(before[i + 1] == after[i]);
            }
        }
        Some((worker_index, task))
    }
}

/// The first worker that runs task `task_id`, if any.
fn find_runner(running: &Vec<Option<usize>>, task_id: usize) -> (r: Option<usize>)
    ensures
        r matches Some(w) ==> w < running@.len() && running@[w as int] == Some(task_id) && forall|
            v: int,
        | 0 <= v < w ==> running@[v] != Some(task_id),
        r is None ==> forall|v: int| 0 <= v < running@.len() ==> running@[v] != Some(task_id),
{
    let mut w: usize = 0;
    while w < running.len()
        invariant
            w <= running@.len(),
            forall|v: int| 0 <= v < w ==> running@[v] != Some(task_id),
        decreases running@.len() - w,
    {
        match running[w] {
            Some(id) => {
                if id == task_id {
                    return Some(w);
                }
            },
            None => {},
        }
        w = w + 1;
    }
    None
}

/// The free list of a well-formed dispatcher names every idle worker once
/// and no busy one, so a task is never handed to a worker that still runs
/// another.
pub proof fn lemma_free_workers_are_idle(d: &DispatchQueue, w: int)
    requires
        d.wf(),
        0 <= w < d.worker_count,
    ensures
        d.free_workers@.contains(w as usize) <==> d.running@[w] is None,
        d.free_workers@.no_duplicates(),
{
}

/// The running sums the monitor keeps while an experiment runs.
#[derive(Clone, Copy, Debug)]
pub struct MonitorTotals {
    pub samples: usize,
    pub total_cpu: usize,
    pub total_active_workers: usize,
    pub max_queue_len: usize,
}

impl MonitorTotals {
    /// No sample yet.
    pub fn new() -> (m: MonitorTotals)
        ensures
            m.samples == 0,
            m.total_cpu == 0,
            m.total_active_workers == 0,
            m.max_queue_len == 0,
    {
        MonitorTotals { samples: 0, total_cpu: 0, total_active_workers: 0, max_queue_len: 0 }
    }

    /// Whether `record` can take this sample without overflow.
    pub fn can_record(&self, cpu: usize, workers: usize) -> (b: bool)
        ensures
            b == (self.total_cpu + cpu <= usize::MAX && self.total_active_workers + workers
                <= usize::MAX && self.samples < usize::MAX),
    {
        cpu <= usize::MAX - self.total_cpu && workers <= usize::MAX - self.total_active_workers
            && self.samples < usize::MAX
    }

    /// Adds one sample of the CPU use, the busy workers and the queue length.
    pub fn record(&mut self, cpu: usize, workers: usize, q_len: usize)
        requires
            old(self).total_cpu + cpu <= usize::MAX,
            old(self).total_active_workers + workers <= usize::MAX,
            old(self).samples < usize::MAX,
        ensures
            final(self).total_cpu == old(self).total_cpu + cpu,
            final(self).total_active_workers == old(self).total_active_workers + workers,
            final(self).samples == old(self).samples + 1,
            final(self).max_queue_len == if q_len > old(self).max_queue_len {
                q_len
            } else {
                old(self).max_queue_len
            },
    {
        self.total_cpu = self.total_cpu + cpu;
        self.total_active_workers = self.total_active_workers + workers;
        if q_len > self.max_queue_len {
            self.max_queue_len = q_len;
        }
        self.samples = self.samples + 1;
    }
}

/// The totals that the final report of an experiment prints.
#[derive(Clone, Copy, Debug, PartialEq, Eq, Structural)]
pub struct ResultSummary {
    pub completed: usize,
    pub total_wait_ns: u128,
    pub total_turnaround_ns: u128,
    pub max_wait_ns: u128,
    pub cpu_tasks: usize,
    pub io_tasks: usize,
}

/// The sum of the waits.
pub open spec fn sum_wait(r: Seq<TaskResult>) -> int
    decreases r.len(),
{
    if r.len() == 0 {
        0
    } else {
        sum_wait(r.drop_last()) + r.last().wait_ns
    }
}

/// The sum of the turnaround times.
pub open spec fn sum_turnaround(r: Seq<TaskResult>) -> int
    decreases r.len(),
{
    if r.len() == 0 {
        0
    } else {
        sum_turnaround(r.drop_last()) + r.last().turnaround_ns
    }
}

/// The longest wait, 0 for no result.
pub open spec fn longest_wait(r: Seq<TaskResult>) -> int
    decreases r.len(),
{
    if r.len() == 0 {
        0
    } else {
        let m = longest_wait(r.drop_last());
        if r.last().wait_ns > m {
            r.last().wait_ns as int
        } else {
            m
        }
    }
}

/// How many results are of `kind`.
pub open spec fn count_kind(r: Seq<TaskResult>, kind: TaskKind) -> int
    decreases r.len(),
{
    if r.len() == 0 {
        0
    } else {
        count_kind(r.drop_last(), kind) + if r.last().kind == kind {
            1int
        } else {
            0int
        }
    }
}

/// Partial sums grow with the prefix.
pub proof fn lemma_sums_monotone(r: Seq<TaskResult>, n: int)
    requires
        0 <= n <= r.len(),
    ensures
        sum_wait(r.take(n)) <= sum_wait(r),
        sum_turnaround(r.take(n)) <= sum_turnaround(r),
        0 <= sum_wait(r.take(n)),
        0 <= sum_turnaround(r.take(n)),
        0 <= count_kind(r.take(n), TaskKind::CPU) <= n,
        0 <= count_kind(r.take(n), TaskKind::IO) <= n,
        0 <= longest_wait(r.take(n)) <= sum_wait(r.take(n)),
    decreases r.len(),
{
    if n < r.len() {
        assert(r.drop_last().take(n) =~= r.take(n));
        lemma_sums_monotone(r.drop_last(), n);
    } else {
        assert(r.take(n) =~= r);
        if n > 0 {
            assert(r.drop_last().take(n - 1) =~= r.drop_last());
            lemma_sums_monotone(r.drop_last(), n - 1);
        }
    }
}

/// Sums the waits and turnaround times of the results, finds the longest
/// wait and counts the results of each kind.
pub fn summarize_results(results: &Vec<TaskResult>) -> (s: ResultSummary)
    requires
        sum_wait(results@) <= MAX_DURATION_NS,
        sum_turnaround(results@) <= MAX_DURATION_NS,
    ensures
        s.completed == results@.len(),
        s.total_wait_ns == sum_wait(results@),
        s.total_turnaround_ns == sum_turnaround(results@),
        s.max_wait_ns == longest_wait(results@),
        s.cpu_tasks == count_kind(results@, TaskKind::CPU),
        s.io_tasks == count_kind(results@, TaskKind::IO),
{
    let mut total_wait: u128 = 0;
    let mut total_turnaround: u128 = 0;
    let mut max_wait: u128 = 0;
    let mut cpu_tasks: usize = 0;
    let mut io_tasks: usize = 0;
    let mut i: usize = 0;
    while i < results.len()
        invariant
            i <= results.len(),
            sum_wait(results@) <= MAX_DURATION_NS,
            sum_turnaround(results@) <= MAX_DURATION_NS,
            total_wait == sum_wait(results@.take(i as int)),
            total_turnaround == sum_turnaround(results@.take(i as int)),
            max_wait == longest_wait(results@.take(i as int)),
            cpu_tasks == count_kind(results@.take(i as int), TaskKind::CPU),
            io_tasks == count_kind(results@.take(i as int), TaskKind::IO),
        decreases results.len() - i,
    {
        let r = results[i];
        proof {
            let next = results@.take(i + 1);
            assert(next.drop_last() =~= results@.take(i as int));
            assert(next.last() == r);
            lemma_sums_monotone(results@, i + 1);
        }
        total_wait = total_wait + r.wait_ns;
        total_turnaround = total_turnaround + r.turnaround_ns;
        if r.wait_ns > max_wait {
            max_wait = r.wait_ns;
        }
        match r.kind {
            TaskKind::CPU => cpu_tasks = cpu_tasks + 1,
            TaskKind::IO => io_tasks = io_tasks + 1,
        }
        i = i + 1;
    }
    assert(results@.take(i as int) =~= results@);
    ResultSummary {
        completed: results.len(),
        total_wait_ns: total_wait,
        total_turnaround_ns: total_turnaround,
        max_wait_ns: max_wait,
        cpu_tasks,
        io_tasks,
    }
}

/// The longest wait bounds every result's wait and, on a non-empty list, is
/// the wait of one of them; on an empty list it is 0.
pub proof fn lemma_longest_wait_law(r: Seq<TaskResult>)
    ensures
        forall|i: int| 0 <= i < r.len() ==> #[trigger] r[i].wait_ns <= longest_wait(r),
        r.len() > 0 ==> exists|i: int| 0 <= i < r.len() && #[trigger] r[i].wait_ns == longest_wait(r),
        r.len() == 0 ==> longest_wait(r) == 0,
    decreases r.len(),
{
    if r.len() > 0 {
        let p = r.drop_last();
        lemma_longest_wait_law(p);
        assert forall|i: int| 0 <= i < r.len() implies #[trigger] r[i].wait_ns <= longest_wait(r) by {
            if i < p.len() {
                assert(r[i] == p[i]);
            }
        }
        if r.last().wait_ns > longest_wait(p) {
            assert(r[r.len() - 1].wait_ns == longest_wait(r));
        } else if p.len() > 0 {
            let i = choose|i: int| 0 <= i < p.len() && #[trigger] p[i].wait_ns == longest_wait(p);
            assert(r[i] == p[i]);
        } else {
            assert(r[0].wait_ns == longest_wait(r));
        }
    }
}

/// The sums and counts of a list made of two parts are the sums and counts
/// of the parts; one result contributes its own times and counts for its
/// own kind; every result is counted as IO or as CPU.
pub proof fn lemma_summary_sums_law(a: Seq<TaskResult>, b: Seq<TaskResult>, x: TaskResult)
    ensures
        sum_wait(a + b) == sum_wait(a) + sum_wait(b),
        sum_turnaround(a + b) == sum_turnaround(a) + sum_turnaround(b),
        count_kind(a + b, TaskKind::CPU) == count_kind(a, TaskKind::CPU) + count_kind(b, TaskKind::CPU),
        count_kind(a + b, TaskKind::IO) == count_kind(a, TaskKind::IO) + count_kind(b, TaskKind::IO),
        sum_wait(seq![x]) == x.wait_ns,
        sum_turnaround(seq![x]) == x.turnaround_ns,
        count_kind(seq![x], TaskKind::CPU) == if x.kind == TaskKind::CPU { 1int } else { 0int },
        count_kind(seq![x], TaskKind::IO) == if x.kind == TaskKind::IO { 1int } else { 0int },
        count_kind(a, TaskKind::CPU) + count_kind(a, TaskKind::IO) == a.len(),
    decreases b.len(),
{
    let e = Seq::<TaskResult>::empty();
    assert(seq![x].drop_last() =~= e);
    assert(sum_wait(e) == 0 && sum_turnaround(e) == 0);
    assert(count_kind(e, TaskKind::CPU) == 0 && count_kind(e, TaskKind::IO) == 0);
    assert(seq![x].last() == x);
    lemma_kinds_cover(a);
    if b.len() == 0 {
        assert(a + b =~= a);
    } else {
        lemma_summary_sums_law(a, b.drop_last(), x);
        assert((a + b).drop_last() =~= a + b.drop_last());
        assert((a + b).last() == b.last());
    }
}

/// Every result is counted as IO or as CPU.
pub proof fn lemma_kinds_cover(a: Seq<TaskResult>)
    ensures
        count_kind(a, TaskKind::CPU) + count_kind(a, TaskKind::IO) == a.len(),
    decreases a.len(),
{
    if a.len() > 0 {
        lemma_kinds_cover(a.drop_last());
    }
}

} // verus!
