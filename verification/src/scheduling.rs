use std::collections::VecDeque;
use vstd::prelude::*;

verus! {

/// Number of tasks a simulation generates.
pub const TOTAL_TASKS: usize = 1000;

/// Number of worker threads.
pub const WORKER_COUNT: usize = 8;

/// Pause between two generated tasks, in milliseconds.
pub const ARRIVAL_INTERVAL_MS: u64 = 20;

/// How long a task runs, in milliseconds.
pub const TASK_DURATION_MS: u64 = 200;

/// Pause between two monitor samples, in milliseconds.
pub const MONITOR_INTERVAL_MS: u64 = 10;

/// The simulated CPU capacity, in percent.
pub const CPU_LIMIT: usize = 100;

/// Seed of the task-type generator.
pub const RANDOM_SEED: u64 = 12345;

/// Simulated CPU share of an IO-bound task.
pub const IO_TASK_COST: usize = 10;

/// Simulated CPU share of a CPU-bound task.
pub const CPU_TASK_COST: usize = 35;

/// Multiplier of the linear congruential generator.
pub const LCG_MULTIPLIER: u64 = 6364136223846793005;

/// The two workload types of the simulation.
#[derive(Clone, Copy, Debug, PartialEq, Eq, Structural)]
pub enum TaskType {
    IO,
    CPU,
}

/// A task waiting in, or leaving, the shared queue. `arrival_ns` is the
/// arrival time in nanoseconds since the start of the run.
#[derive(Clone, Copy, Debug, PartialEq, Eq, Structural)]
pub struct Task {
    pub id: usize,
    pub arrival_ns: u64,
    pub task_type: TaskType,
    pub cpu_cost: usize,
    pub duration_ms: u64,
}

/// The scheduling strategy of the dispatcher.
#[derive(Clone, Copy, Debug, PartialEq, Eq, Structural)]
pub enum Policy {
    Fifo,
    Optimized,
}

/// The simulated CPU share of a task of type `t`.
pub open spec fn cost_of(t: TaskType) -> usize {
    match t {
        TaskType::IO => IO_TASK_COST,
        TaskType::CPU => CPU_TASK_COST,
    }
}

/// A task whose CPU share is the one of its type, as the generator makes them.
pub open spec fn task_wf(t: Task) -> bool {
    t.cpu_cost == cost_of(t.task_type)
}

/// Every task of the queue is well formed.
pub open spec fn queue_wf(q: Seq<Task>) -> bool {
    forall|i: int| 0 <= i < q.len() ==> task_wf(#[trigger] q[i])
}

/// Builds the task the generator sends for `id`, with the cost and duration
/// of its type.
pub fn new_task(id: usize, arrival_ns: u64, task_type: TaskType) -> (t: Task)
    ensures
        t.id == id,
        t.arrival_ns == arrival_ns,
        t.task_type == task_type,
        t.cpu_cost == cost_of(task_type),
        t.duration_ms == TASK_DURATION_MS,
{
    match task_type {
        TaskType::IO => Task {
            id,
            arrival_ns,
            task_type,
            cpu_cost: IO_TASK_COST,
            duration_ms: TASK_DURATION_MS,
        },
        TaskType::CPU => Task {
            id,
            arrival_ns,
            task_type,
            cpu_cost: CPU_TASK_COST,
            duration_ms: TASK_DURATION_MS,
        },
    }
}

/// One step of the generator: `seed * 6364136223846793005 + 1` modulo 2^64.
pub open spec fn lcg_step(seed: u64) -> u64 {
    ((seed as nat * LCG_MULTIPLIER as nat + 1) % 0x1_0000_0000_0000_0000nat) as u64
}

/// Advances the seed by one step of the linear congruential generator and
/// returns the new seed.
pub fn next_random(seed: &mut u64) -> (r: u64)
    ensures
        *final(seed) == lcg_step(*old(seed)),
        r == *final(seed),
{
    let m = seed.wrapping_mul(LCG_MULTIPLIER);
    let n = m.wrapping_add(1);
    proof {
        let a = *seed as nat * LCG_MULTIPLIER as nat;
        let r: nat = 0x1_0000_0000_0000_0000nat;
        assert(m as nat == a % r);
        assert((a + 1) % r == (a % r + 1) % r) by {
            vstd::arithmetic::div_mod::lemma_add_mod_noop(a as int, 1, r as int);
        }
    }
    *seed = n;
    n
}

/// The type that a generator value `random` picks: IO for the first
/// `io_percent` places of each cycle of `io_percent + cpu_percent`.
pub open spec fn type_for(random: u64, io_percent: usize, cpu_percent: usize) -> TaskType {
    if (random as usize) % ((io_percent + cpu_percent) as usize) < io_percent {
        TaskType::IO
    } else {
        TaskType::CPU
    }
}

/// Draws the next value of the generator and picks a task type from it.
pub fn choose_task_type(seed: &mut u64, io_percent: usize, cpu_percent: usize) -> (t: TaskType)
    requires
        0 < io_percent + cpu_percent <= usize::MAX,
    ensures
        *final(seed) == lcg_step(*old(seed)),
        t == type_for(*final(seed), io_percent, cpu_percent),
{
    let cycle = io_percent + cpu_percent;
    let random_number = next_random(seed) as usize;
    let position = random_number % cycle;
    if position < io_percent {
        TaskType::IO
    } else {
        TaskType::CPU
    }
}

/// `cpu` plus `cost` stays within the CPU limit.
pub open spec fn fits(cpu: usize, cost: usize) -> bool {
    cpu + cost <= CPU_LIMIT
}

/// The sums that `policy` computes on a non-empty queue do not overflow:
/// the front task's share under FIFO, a CPU task's share under the
/// optimized policy (an IO task's share is smaller).
pub open spec fn pick_sums_fit(policy: Policy, q: Seq<Task>, cpu: usize) -> bool {
    q.len() > 0 ==> match policy {
        Policy::Fifo => cpu + q[0].cpu_cost <= usize::MAX,
        Policy::Optimized => cpu + CPU_TASK_COST <= usize::MAX,
    }
}

/// The index that the FIFO policy takes from `q`: the front, if it fits.
pub open spec fn fifo_pick(q: Seq<Task>, cpu: usize) -> Option<int> {
    if q.len() > 0 && fits(cpu, q[0].cpu_cost) {
        Some(0)
    } else {
        None
    }
}

/// Some task of `q` has type `t`.
pub open spec fn has_type(q: Seq<Task>, t: TaskType) -> bool {
    exists|i: int| 0 <= i < q.len() && (#[trigger] q[i]).task_type == t
}

/// `i` is the position of the first task of type `t` in `q`.
pub open spec fn is_first_of_type(q: Seq<Task>, t: TaskType, i: int) -> bool {
    &&& 0 <= i < q.len()
    &&& q[i].task_type == t
    &&& forall|j: int| 0 <= j < i ==> (#[trigger] q[j]).task_type != t
}

/// The position of the first task of type `t` in `q`, if there is one.
pub open spec fn first_of_type(q: Seq<Task>, t: TaskType) -> Option<int> {
    if has_type(q, t) {
        Some(choose|i: int| is_first_of_type(q, t, i))
    } else {
        None
    }
}

/// The index that the optimized policy takes from `q`: the first CPU task
/// when a CPU task's share fits, else the first IO task when an IO task's
/// share fits.
pub open spec fn optimized_pick(q: Seq<Task>, cpu: usize) -> Option<int> {
    if fits(cpu, CPU_TASK_COST) && has_type(q, TaskType::CPU) {
        first_of_type(q, TaskType::CPU)
    } else if fits(cpu, IO_TASK_COST) && has_type(q, TaskType::IO) {
        first_of_type(q, TaskType::IO)
    } else {
        None
    }
}

/// The index that `policy` takes from `q`.
pub open spec fn policy_pick(policy: Policy, q: Seq<Task>, cpu: usize) -> Option<int> {
    match policy {
        Policy::Fifo => fifo_pick(q, cpu),
        Policy::Optimized => optimized_pick(q, cpu),
    }
}

/// The task at `pick`, if any.
pub open spec fn picked(q: Seq<Task>, pick: Option<int>) -> Option<Task> {
    match pick {
        Some(i) => Some(q[i]),
        None => None,
    }
}

/// `q` without the task at `pick`.
pub open spec fn without_pick(q: Seq<Task>, pick: Option<int>) -> Seq<Task> {
    match pick {
        Some(i) => q.remove(i),
        None => q,
    }
}

/// There is at most one first position of a type.
pub proof fn lemma_first_of_type(q: Seq<Task>, t: TaskType, i: int)
    requires
        is_first_of_type(q, t, i),
    ensures
        has_type(q, t),
        first_of_type(q, t) == Some(i),
{
    assert(q[i].task_type == t);
    let c = choose|c: int| is_first_of_type(q, t, c);
    assert(is_first_of_type(q, t, c));
    if c < i {
        assert(q[c].task_type != t);
    } else if i < c {
        assert(q[i].task_type != t);
    }
}

/// The position of the first task of type `t`.
fn position_of_type(queue: &VecDeque<Task>, t: TaskType) -> (r: Option<usize>)
    ensures
        match r {
            Some(i) => is_first_of_type(queue@, t, i as int) && first_of_type(queue@, t) == Some(
                i as int,
            ),
            None => !has_type(queue@, t) && first_of_type(queue@, t) == None::<int>,
        },
{
    let mut i: usize = 0;
    while i < queue.len()
        invariant
            i <= queue@.len(),
            forall|j: int| 0 <= j < i ==> (#[trigger] queue@[j]).task_type != t,
        decreases queue@.len() - i,
    {
        if queue[i].task_type == t {
            proof {
                lemma_first_of_type(queue@, t, i as int);
            }
            return Some(i);
        }
        i = i + 1;
    }
    None
}

/// Takes the front task when its CPU share fits under the limit.
pub fn pop_fifo_task(queue: &mut VecDeque<Task>, current_cpu: usize) -> (r: Option<Task>)
    requires
        pick_sums_fit(Policy::Fifo, old(queue)@, current_cpu),
    ensures
        r == picked(old(queue)@, fifo_pick(old(queue)@, current_cpu)),
        final(queue)@ == without_pick(old(queue)@, fifo_pick(old(queue)@, current_cpu)),
{
    if queue.len() > 0 {
        let cost = queue[0].cpu_cost;
        if current_cpu + cost <= CPU_LIMIT {
            let t = queue.pop_front();
            assert(old(queue)@.remove(0) =~= old(queue)@.subrange(1, old(queue)@.len() as int));
            return t;
        }
    }
    None
}

/// Takes the first CPU task if a CPU task's share fits, else the first IO
/// task if an IO task's share fits.
pub fn pop_optimized_task(queue: &mut VecDeque<Task>, current_cpu: usize) -> (r: Option<Task>)
    requires
        pick_sums_fit(Policy::Optimized, old(queue)@, current_cpu),
    ensures
        r == picked(old(queue)@, optimized_pick(old(queue)@, current_cpu)),
        final(queue)@ == without_pick(old(queue)@, optimized_pick(old(queue)@, current_cpu)),
{
    if queue.len() == 0 {
        assert(!has_type(queue@, TaskType::CPU));
        assert(!has_type(queue@, TaskType::IO));
        return None;
    }
    if current_cpu + CPU_TASK_COST <= CPU_LIMIT {
        if let Some(index) = position_of_type(queue, TaskType::CPU) {
            return queue.remove(index);
        }
    }
    if current_cpu + IO_TASK_COST <= CPU_LIMIT {
        if let Some(index) = position_of_type(queue, TaskType::IO) {
            return queue.remove(index);
        }
    }
    None
}

/// A task the FIFO policy takes fits under the CPU limit.
pub proof fn lemma_fifo_within_limit(q: Seq<Task>, cpu: usize)
    ensures
        fifo_pick(q, cpu) matches Some(i) ==> fits(cpu, q[i].cpu_cost),
{
}

/// On a queue of well-formed tasks, a task the optimized policy takes fits
/// under the CPU limit.
pub proof fn lemma_optimized_within_limit(q: Seq<Task>, cpu: usize)
    requires
        queue_wf(q),
    ensures
        optimized_pick(q, cpu) matches Some(i) ==> 0 <= i < q.len() && fits(cpu, q[i].cpu_cost),
{
    if fits(cpu, CPU_TASK_COST) && has_type(q, TaskType::CPU) {
        let i = choose|i: int| is_first_of_type(q, TaskType::CPU, i);
        let w = choose|w: int| 0 <= w < q.len() && (#[trigger] q[w]).task_type == TaskType::CPU;
        assert(is_first_of_type(q, TaskType::CPU, i)) by {
            lemma_first_exists(q, TaskType::CPU, w);
        }
        assert(task_wf(q[i]));
    } else if fits(cpu, IO_TASK_COST) && has_type(q, TaskType::IO) {
        let i = choose|i: int| is_first_of_type(q, TaskType::IO, i);
        let w = choose|w: int| 0 <= w < q.len() && (#[trigger] q[w]).task_type == TaskType::IO;
        assert(is_first_of_type(q, TaskType::IO, i)) by {
            lemma_first_exists(q, TaskType::IO, w);
        }
        assert(task_wf(q[i]));
    }
}

/// A type that occurs has a first position.
pub proof fn lemma_first_exists(q: Seq<Task>, t: TaskType, w: int)
    requires
        0 <= w < q.len(),
        q[w].task_type == t,
    ensures
        exists|i: int| is_first_of_type(q, t, i),
    decreases w,
{
    if exists|j: int| 0 <= j < w && (#[trigger] q[j]).task_type == t {
        let j = choose|j: int| 0 <= j < w && (#[trigger] q[j]).task_type == t;
        lemma_first_exists(q, t, j);
    } else {
        assert(is_first_of_type(q, t, w));
    }
}

/// Putting a taken task back at its place gives the queue as it was: a pop
/// loses no task and keeps the others in order.
pub proof fn lemma_pick_put_back(policy: Policy, q: Seq<Task>, cpu: usize)
    ensures
        policy_pick(policy, q, cpu) matches Some(i) ==> {
            &&& 0 <= i < q.len()
            &&& without_pick(q, policy_pick(policy, q, cpu)).insert(i, q[i]) =~= q
        },
        policy_pick(policy, q, cpu) is None ==> without_pick(q, policy_pick(policy, q, cpu)) == q,
{
    if let Some(i) = policy_pick(policy, q, cpu) {
        match policy {
            Policy::Fifo => {},
            Policy::Optimized => {
                let t = if fits(cpu, CPU_TASK_COST) && has_type(q, TaskType::CPU) {
                    TaskType::CPU
                } else {
                    TaskType::IO
                };
                let w = choose|w: int| 0 <= w < q.len() && (#[trigger] q[w]).task_type == t;
                lemma_first_exists(q, t, w);
            },
        }
    }
}

/// What the dispatcher tells the surrounding loop to do.
#[derive(Clone, Copy, Debug, PartialEq, Eq, Structural)]
pub enum DispatchDecision {
    /// Everything is generated, the queue is empty and no worker is busy.
    Stop,
    /// Nothing can be sent now: sleep a little and look again.
    Wait,
    /// Send `task` to worker `worker` after reserving its CPU share.
    Send { worker: usize, task: Task },
}

/// The scheduling state of the dispatcher thread: its policy, which workers
/// have a task (running or waiting in their channel), and where the
/// round-robin search for a free worker starts.
#[derive(Debug)]
pub struct Dispatcher {
    pub policy: Policy,
    pub busy: Vec<bool>,
    pub next_worker: usize,
}

/// How many places after `start`, going round the workers, `w` comes.
pub open spec fn cyclic_gap(start: int, w: int) -> int {
    if w >= start {
        w - start
    } else {
        w - start + WORKER_COUNT
    }
}

/// The worker `gap` places after `start`, going round.
pub open spec fn worker_after(start: int, gap: int) -> int {
    if start + gap < WORKER_COUNT {
        start + gap
    } else {
        start + gap - WORKER_COUNT
    }
}

/// No worker has a task.
pub open spec fn all_free(busy: Seq<bool>) -> bool {
    forall|v: int| 0 <= v < WORKER_COUNT ==> !#[trigger] busy[v]
}

/// Some worker has no task.
pub open spec fn has_free(busy: Seq<bool>) -> bool {
    exists|v: int| 0 <= v < WORKER_COUNT && !#[trigger] busy[v]
}

/// `w` is the first free worker at or after `start`, going round.
pub open spec fn is_first_free(busy: Seq<bool>, start: int, w: int) -> bool {
    &&& 0 <= w < WORKER_COUNT
    &&& !busy[w]
    &&& forall|v: int|
        0 <= v < WORKER_COUNT && cyclic_gap(start, v) < cyclic_gap(start, w) ==> #[trigger] busy[v]
}

/// The free worker that gets the next task: the first one at or after
/// `start`, going round; none when all are busy.
pub open spec fn chosen_worker(busy: Seq<bool>, start: int) -> Option<int> {
    if has_free(busy) {
        Some(choose|w: int| is_first_free(busy, start, w))
    } else {
        None
    }
}

/// There is at most one first free worker.
pub proof fn lemma_chosen_worker(busy: Seq<bool>, start: int, w: int)
    requires
        0 <= start < WORKER_COUNT,
        is_first_free(busy, start, w),
    ensures
        has_free(busy),
        chosen_worker(busy, start) == Some(w),
{
    assert(!busy[w]);
    let c = choose|c: int| is_first_free(busy, start, c);
    assert(is_first_free(busy, start, c));
    if cyclic_gap(start, c) < cyclic_gap(start, w) {
        assert(busy[c]);
    } else if cyclic_gap(start, w) < cyclic_gap(start, c) {
        assert(busy[w]);
    }
}

/// The decision of one dispatcher step, given what it observed.
pub open spec fn step_decision(
    d: Dispatcher,
    q: Seq<Task>,
    generated_done: bool,
    current_cpu: usize,
) -> DispatchDecision {
    if generated_done && q.len() == 0 && all_free(d.busy@) {
        DispatchDecision::Stop
    } else {
        match chosen_worker(d.busy@, d.next_worker as int) {
            None => DispatchDecision::Wait,
            Some(w) => match policy_pick(d.policy, q, current_cpu) {
                Some(i) => DispatchDecision::Send { worker: w as usize, task: q[i] },
                None => DispatchDecision::Wait,
            },
        }
    }
}

/// Whether a step takes a task from the queue at all: it does not stop, and
/// a worker is free.
pub open spec fn step_picks(d: Dispatcher, q: Seq<Task>, generated_done: bool) -> bool {
    !(generated_done && q.len() == 0 && all_free(d.busy@)) && has_free(d.busy@)
}

/// The queue after one dispatcher step.
pub open spec fn step_queue(
    d: Dispatcher,
    q: Seq<Task>,
    generated_done: bool,
    current_cpu: usize,
) -> Seq<Task> {
    if step_picks(d, q, generated_done) {
        without_pick(q, policy_pick(d.policy, q, current_cpu))
    } else {
        q
    }
}

impl Dispatcher {
    /// One flag per worker, and the search start is one of the workers.
    pub open spec fn wf(&self) -> bool {
        &&& self.busy@.len() == WORKER_COUNT
        &&& self.next_worker < WORKER_COUNT
    }

    /// A dispatcher with `policy`, every worker free, starting at worker 0.
    pub fn new(policy: Policy) -> (d: Dispatcher)
        ensures
            d.policy == policy,
            d.next_worker == 0,
            d.wf(),
            all_free(d.busy@),
    {
        let mut busy: Vec<bool> = Vec::new();
        let mut i: usize = 0;
        while i < WORKER_COUNT
            invariant
                i <= WORKER_COUNT,
                busy@.len() == i,
                forall|v: int| 0 <= v < i ==> !#[trigger] busy@[v],
            decreases WORKER_COUNT - i,
        {
            busy.push(false);
            i = i + 1;
        }
        Dispatcher { policy, busy, next_worker: 0 }
    }

    /// Whether no worker has a task.
    pub fn all_idle(&self) -> (b: bool)
        requires
            self.wf(),
        ensures
            b == all_free(self.busy@),
    {
        let mut v: usize = 0;
        while v < WORKER_COUNT
            invariant
                self.wf(),
                v <= WORKER_COUNT,
                forall|u: int| 0 <= u < v ==> !#[trigger] self.busy@[u],
            decreases WORKER_COUNT - v,
        {
            if self.busy[v] {
                return false;
            }
            v = v + 1;
        }
        true
    }

    /// The free worker that gets the next task, if any.
    pub fn free_worker(&self) -> (r: Option<usize>)
        requires
            self.wf(),
        ensures
            r matches Some(w) ==> is_first_free(self.busy@, self.next_worker as int, w as int)
                && chosen_worker(self.busy@, self.next_worker as int) == Some(w as int),
            r is None ==> chosen_worker(self.busy@, self.next_worker as int) == None::<int>,
    {
        let start = self.next_worker;
        let mut gap: usize = 0;
        while gap < WORKER_COUNT
            invariant
                self.wf(),
                start == self.next_worker,
                gap <= WORKER_COUNT,
                forall|g: int|
                    0 <= g < gap ==> #[trigger] self.busy@[worker_after(start as int, g)],
            decreases WORKER_COUNT - gap,
        {
            let w = if start + gap < WORKER_COUNT {
                start + gap
            } else {
                start + gap - WORKER_COUNT
            };
            if !self.busy[w] {
                proof {
                    assert forall|v: int|
                        0 <= v < WORKER_COUNT && cyclic_gap(start as int, v) < cyclic_gap(
                            start as int,
                            w as int,
                        ) implies #[trigger] self.busy@[v] by {
                        let g = cyclic_gap(start as int, v);
                        assert(worker_after(start as int, g) == v);
                    }
                    lemma_chosen_worker(self.busy@, start as int, w as int);
                }
                return Some(w);
            }
            gap = gap + 1;
        }
        proof {
            assert forall|v: int| 0 <= v < WORKER_COUNT implies #[trigger] self.busy@[v] by {
                let g = cyclic_gap(start as int, v);
                assert(worker_after(start as int, g) == v);
            }
        }
        None
    }

    /// Marks `worker` free again once it reports its task finished.
    pub fn release(&mut self, worker: usize)
        requires
            old(self).wf(),
            worker < WORKER_COUNT,
        ensures
            final(self).wf(),
            final(self).busy@ == old(self).busy@.update(worker as int, false),
            final(self).policy == old(self).policy,
            final(self).next_worker == old(self).next_worker,
    {
        self.busy.set(worker, false);
    }

    /// One turn of the dispatcher loop: stop when everything is generated,
    /// the queue is empty and no worker has a task; wait while no worker is
    /// free; else take a task by the policy and hand it to the first free
    /// worker at or after the round-robin position, which becomes busy.
    pub fn step(&mut self, queue: &mut VecDeque<Task>, generated_done: bool, current_cpu: usize) -> (r:
        DispatchDecision)
        requires
            old(self).wf(),
            step_picks(*old(self), old(queue)@, generated_done) ==> pick_sums_fit(
                old(self).policy,
                old(queue)@,
                current_cpu,
            ),
        ensures
            final(self).wf(),
            final(self).policy == old(self).policy,
            r == step_decision(*old(self), old(queue)@, generated_done, current_cpu),
            final(queue)@ == step_queue(*old(self), old(queue)@, generated_done, current_cpu),
            r matches DispatchDecision::Send { worker, task } ==> {
                &&& final(self).busy@ == old(self).busy@.update(worker as int, true)
                &&& final(self).next_worker == (worker + 1) % (WORKER_COUNT as int)
            },
            !(r is Send) ==> final(self).busy@ == old(self).busy@ && final(self).next_worker
                == old(self).next_worker,
    {
        if generated_done && queue.len() == 0 && self.all_idle() {
            return DispatchDecision::Stop;
        }
        let worker = match self.free_worker() {
            Some(w) => w,
            None => {
                return DispatchDecision::Wait;
            },
        };
        let task_option = match self.policy {
            Policy::Fifo => pop_fifo_task(queue, current_cpu),
            Policy::Optimized => pop_optimized_task(queue, current_cpu),
        };
        match task_option {
            Some(task) => {
                self.busy.set(worker, true);
                self.next_worker = (worker + 1) % WORKER_COUNT;
                DispatchDecision::Send { worker, task }
            },
            None => DispatchDecision::Wait,
        }
    }
}

/// A task the dispatcher sends goes to a worker that has no task at that
/// moment, and keeps the simulated CPU within its limit: always under FIFO,
/// and under the optimized policy when the queued tasks carry the share of
/// their type.
pub proof fn lemma_dispatch_to_free_worker_within_limit(
    d: Dispatcher,
    q: Seq<Task>,
    generated_done: bool,
    current_cpu: usize,
)
    requires
        d.wf(),
        d.policy == Policy::Optimized ==> queue_wf(q),
    ensures
        step_decision(d, q, generated_done, current_cpu) matches DispatchDecision::Send { worker, task } ==> {
            &&& worker < WORKER_COUNT
            &&& !d.busy@[worker as int]
            &&& fits(current_cpu, task.cpu_cost)
        },
{
    lemma_fifo_within_limit(q, current_cpu);
    if d.policy == Policy::Optimized {
        lemma_optimized_within_limit(q, current_cpu);
    }
    if has_free(d.busy@) {
        let v = choose|v: int| 0 <= v < WORKER_COUNT && !#[trigger] d.busy@[v];
        lemma_first_free_exists(d.busy@, d.next_worker as int, v);
    }
}

/// Where a worker is free, a first free worker exists.
pub proof fn lemma_first_free_exists(busy: Seq<bool>, start: int, v: int)
    requires
        0 <= start < WORKER_COUNT,
        0 <= v < WORKER_COUNT,
        !busy[v],
    ensures
        exists|w: int| is_first_free(busy, start, w),
    decreases cyclic_gap(start, v),
{
    if exists|u: int|
        0 <= u < WORKER_COUNT && cyclic_gap(start, u) < cyclic_gap(start, v) && !#[trigger] busy[u] {
        let u = choose|u: int|
            0 <= u < WORKER_COUNT && cyclic_gap(start, u) < cyclic_gap(start, v) && !#[trigger] busy[u];
        lemma_first_free_exists(busy, start, u);
    } else {
        assert(is_first_free(busy, start, v));
    }
}

/// When the dispatcher stops, nothing is left to run; while a worker is
/// free and the work is not done, it does not stop.
pub proof fn lemma_stop_only_when_drained(
    d: Dispatcher,
    q: Seq<Task>,
    generated_done: bool,
    current_cpu: usize,
)
    ensures
        step_decision(d, q, generated_done, current_cpu) is Stop <==> (generated_done && q.len()
            == 0 && all_free(d.busy@)),
{
}

/// `i` is the first position in `q` of a task of type `t` (written out).
pub open spec fn first_position(q: Seq<Task>, t: TaskType, i: int) -> bool {
    0 <= i < q.len() && q[i].task_type == t && forall|j: int| 0 <= j < i ==> q[j].task_type != t
}

/// What the optimized policy takes, in plain terms: when a CPU task's share
/// fits and a CPU task waits, the first CPU task; otherwise, when an IO
/// task's share fits and an IO task waits, the first IO task; otherwise
/// nothing. The pop gives that task and leaves the queue without it.
pub proof fn lemma_optimized_pick_law(q: Seq<Task>, cpu: usize)
    ensures
        forall|i: int|
            #![trigger first_position(q, TaskType::CPU, i)]
            first_position(q, TaskType::CPU, i) && cpu + CPU_TASK_COST <= CPU_LIMIT ==> {
                &&& optimized_pick(q, cpu) == Some(i)
                &&& picked(q, optimized_pick(q, cpu)) == Some(q[i])
                &&& without_pick(q, optimized_pick(q, cpu)) == q.remove(i)
            },
        forall|i: int|
            #![trigger first_position(q, TaskType::IO, i)]
            first_position(q, TaskType::IO, i) && cpu + IO_TASK_COST <= CPU_LIMIT && !(cpu
                + CPU_TASK_COST <= CPU_LIMIT && exists|k: int|
                0 <= k < q.len() && q[k].task_type == TaskType::CPU) ==> {
                &&& optimized_pick(q, cpu) == Some(i)
                &&& picked(q, optimized_pick(q, cpu)) == Some(q[i])
                &&& without_pick(q, optimized_pick(q, cpu)) == q.remove(i)
            },
        !(cpu + CPU_TASK_COST <= CPU_LIMIT && exists|k: int|
            0 <= k < q.len() && q[k].task_type == TaskType::CPU) && !(cpu + IO_TASK_COST <= CPU_LIMIT
            && exists|k: int| 0 <= k < q.len() && q[k].task_type == TaskType::IO) ==> {
            &&& optimized_pick(q, cpu) == None::<int>
            &&& picked(q, optimized_pick(q, cpu)) == None::<Task>
            &&& without_pick(q, optimized_pick(q, cpu)) == q
        },
{
    assert forall|i: int|
        #![trigger first_position(q, TaskType::CPU, i)]
        first_position(q, TaskType::CPU, i) && cpu + CPU_TASK_COST <= CPU_LIMIT implies {
            &&& optimized_pick(q, cpu) == Some(i)
            &&& picked(q, optimized_pick(q, cpu)) == Some(q[i])
            &&& without_pick(q, optimized_pick(q, cpu)) == q.remove(i)
        } by {
        lemma_first_of_type(q, TaskType::CPU, i);
    }
    assert forall|i: int|
        #![trigger first_position(q, TaskType::IO, i)]
        first_position(q, TaskType::IO, i) && cpu + IO_TASK_COST <= CPU_LIMIT && !(cpu
            + CPU_TASK_COST <= CPU_LIMIT && exists|k: int|
            0 <= k < q.len() && q[k].task_type == TaskType::CPU) implies {
            &&& optimized_pick(q, cpu) == Some(i)
            &&& picked(q, optimized_pick(q, cpu)) == Some(q[i])
            &&& without_pick(q, optimized_pick(q, cpu)) == q.remove(i)
        } by {
        lemma_first_of_type(q, TaskType::IO, i);
        if has_type(q, TaskType::CPU) {
            let k = choose|k: int| 0 <= k < q.len() && (#[trigger] q[k]).task_type == TaskType::CPU;
            assert(q[k].task_type == TaskType::CPU);
        }
    }
}

/// What the FIFO policy takes, in plain terms: the front task when its
/// share fits, and nothing otherwise; the pop leaves the rest in order.
pub proof fn lemma_fifo_pick_law(q: Seq<Task>, cpu: usize)
    ensures
        q.len() > 0 && cpu + q[0].cpu_cost <= CPU_LIMIT ==> {
            &&& picked(q, fifo_pick(q, cpu)) == Some(q[0])
            &&& without_pick(q, fifo_pick(q, cpu)) == q.subrange(1, q.len() as int)
        },
        !(q.len() > 0 && cpu + q[0].cpu_cost <= CPU_LIMIT) ==> {
            &&& picked(q, fifo_pick(q, cpu)) == None::<Task>
            &&& without_pick(q, fifo_pick(q, cpu)) == q
        },
{
    if q.len() > 0 {
        assert(q.remove(0) =~= q.subrange(1, q.len() as int));
    }
}

/// A dispatcher step with a free worker and a waiting task applies its own
/// policy: under the optimized policy, when a CPU task's share fits, it
/// sends the first CPU task of the queue and takes it out; when no CPU task
/// is taken but an IO task's share fits, the first IO task; under FIFO, the
/// front task when it fits. The task goes to a worker that was free.
pub proof fn lemma_step_applies_policy(d: Dispatcher, q: Seq<Task>, generated_done: bool, cpu: usize)
    requires
        d.wf(),
        q.len() > 0,
        exists|v: int| 0 <= v < WORKER_COUNT && !d.busy@[v],
    ensures
        d.policy == Policy::Optimized ==> forall|i: int|
            #![trigger first_position(q, TaskType::CPU, i)]
            first_position(q, TaskType::CPU, i) && cpu + CPU_TASK_COST <= CPU_LIMIT ==> {
                &&& step_decision(d, q, generated_done, cpu) matches DispatchDecision::Send {
                    worker,
                    task,
                } && task == q[i] && !d.busy@[worker as int] && worker < WORKER_COUNT
                &&& step_queue(d, q, generated_done, cpu) == q.remove(i)
            },
        d.policy == Policy::Optimized ==> forall|i: int|
            #![trigger first_position(q, TaskType::IO, i)]
            first_position(q, TaskType::IO, i) && cpu + IO_TASK_COST <= CPU_LIMIT && !(cpu
                + CPU_TASK_COST <= CPU_LIMIT && exists|k: int|
                0 <= k < q.len() && q[k].task_type == TaskType::CPU) ==> {
                &&& step_decision(d, q, generated_done, cpu) matches DispatchDecision::Send {
                    worker,
                    task,
                } && task == q[i] && !d.busy@[worker as int] && worker < WORKER_COUNT
                &&& step_queue(d, q, generated_done, cpu) == q.remove(i)
            },
        d.policy == Policy::Fifo && cpu + q[0].cpu_cost <= CPU_LIMIT ==> {
            &&& step_decision(d, q, generated_done, cpu) matches DispatchDecision::Send {
                worker,
                task,
            } && task == q[0] && !d.busy@[worker as int] && worker < WORKER_COUNT
            &&& step_queue(d, q, generated_done, cpu) == q.subrange(1, q.len() as int)
        },
{
    let v = choose|v: int| 0 <= v < WORKER_COUNT && !d.busy@[v];
    assert(has_free(d.busy@));
    lemma_first_free_exists(d.busy@, d.next_worker as int, v);
    let w = choose|w: int| is_first_free(d.busy@, d.next_worker as int, w);
    lemma_chosen_worker(d.busy@, d.next_worker as int, w);
    lemma_optimized_pick_law(q, cpu);
    lemma_fifo_pick_law(q, cpu);
    assert(step_picks(d, q, generated_done));
}

/// The generator's step is the linear congruential step written out, and a
/// task type is IO exactly when the drawn number lands in the IO part of
/// the cycle; with no CPU share every type is IO, with no IO share every
/// type is CPU.
pub proof fn lemma_generator_law(seed: u64, random: u64, io_percent: usize, cpu_percent: usize)
    requires
        0 < io_percent + cpu_percent <= usize::MAX,
    ensures
        lcg_step(seed) as int == (seed as int * 6364136223846793005 + 1) % 0x1_0000_0000_0000_0000,
        type_for(random, io_percent, cpu_percent) == TaskType::IO <==> (random as usize) as int % (
        io_percent + cpu_percent) < io_percent,
        cpu_percent == 0 ==> type_for(random, io_percent, cpu_percent) == TaskType::IO,
        io_percent == 0 ==> type_for(random, io_percent, cpu_percent) == TaskType::CPU,
{
    let c = (io_percent + cpu_percent) as int;
    let r = (random as usize) as int;
    assert(0 <= r % c < c) by {
        vstd::arithmetic::div_mod::lemma_mod_bound(r, c);
    }
}

} // verus!
