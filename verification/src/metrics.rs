use crate::scheduling::TaskType;
use vstd::prelude::*;

verus! {

/// The performance data collected while a simulation runs.
#[derive(Debug)]
pub struct Metrics {
    pub total_wait_time_ms: u128,
    pub total_turnaround_time_ms: u128,
    pub max_wait_time_ms: u128,
    pub completed_tasks: usize,
    pub completed_io: usize,
    pub completed_cpu: usize,
    pub total_cpu_samples: usize,
    pub sample_count: usize,
    pub max_cpu_seen: usize,
    pub max_active_workers: usize,
    pub max_queue_len: usize,
}

/// All counters at zero.
pub open spec fn metrics_zero(m: Metrics) -> bool {
    &&& m.total_wait_time_ms == 0
    &&& m.total_turnaround_time_ms == 0
    &&& m.max_wait_time_ms == 0
    &&& m.completed_tasks == 0
    &&& m.completed_io == 0
    &&& m.completed_cpu == 0
    &&& m.total_cpu_samples == 0
    &&& m.sample_count == 0
    &&& m.max_cpu_seen == 0
    &&& m.max_active_workers == 0
    &&& m.max_queue_len == 0
}

/// The larger of two numbers.
pub open spec fn max_of(a: int, b: int) -> int {
    if a >= b {
        a
    } else {
        b
    }
}

/// A finished task's wait and turnaround times can be added without overflow.
pub open spec fn completion_fits(m: Metrics, wait_time_ms: u128, turnaround_time_ms: u128, task_type: TaskType) -> bool {
    &&& m.completed_tasks < usize::MAX
    &&& m.total_wait_time_ms + wait_time_ms <= u128::MAX
    &&& m.total_turnaround_time_ms + turnaround_time_ms <= u128::MAX
    &&& match task_type {
        TaskType::IO => m.completed_io < usize::MAX,
        TaskType::CPU => m.completed_cpu < usize::MAX,
    }
}

/// A monitor sample can be added without overflow.
pub open spec fn sample_fits(m: Metrics, cpu_now: usize) -> bool {
    &&& m.total_cpu_samples + cpu_now <= usize::MAX
    &&& m.sample_count < usize::MAX
}

/// The metrics after a finished task with these times and this type.
pub open spec fn after_completion(m: Metrics, wait_time_ms: u128, turnaround_time_ms: u128, task_type: TaskType) -> Metrics {
    Metrics {
        completed_tasks: (m.completed_tasks + 1) as usize,
        total_wait_time_ms: (m.total_wait_time_ms + wait_time_ms) as u128,
        total_turnaround_time_ms: (m.total_turnaround_time_ms + turnaround_time_ms) as u128,
        max_wait_time_ms: max_of(m.max_wait_time_ms as int, wait_time_ms as int) as u128,
        completed_io: if task_type == TaskType::IO { (m.completed_io + 1) as usize } else { m.completed_io },
        completed_cpu: if task_type == TaskType::CPU { (m.completed_cpu + 1) as usize } else { m.completed_cpu },
        ..m
    }
}

/// The metrics after one monitor sample.
pub open spec fn after_sample(m: Metrics, cpu_now: usize, workers_now: usize, queue_len: usize) -> Metrics {
    Metrics {
        total_cpu_samples: (m.total_cpu_samples + cpu_now) as usize,
        sample_count: (m.sample_count + 1) as usize,
        max_cpu_seen: max_of(m.max_cpu_seen as int, cpu_now as int) as usize,
        max_active_workers: max_of(m.max_active_workers as int, workers_now as int) as usize,
        max_queue_len: max_of(m.max_queue_len as int, queue_len as int) as usize,
        ..m
    }
}

/// The completed tasks split into IO and CPU tasks.
pub open spec fn counts_balance(m: Metrics) -> bool {
    m.completed_tasks == m.completed_io + m.completed_cpu
}

impl Default for Metrics {
    fn default() -> (m: Metrics)
        ensures
            metrics_zero(m),
    {
        Metrics {
            total_wait_time_ms: 0,
            total_turnaround_time_ms: 0,
            max_wait_time_ms: 0,
            completed_tasks: 0,
            completed_io: 0,
            completed_cpu: 0,
            total_cpu_samples: 0,
            sample_count: 0,
            max_cpu_seen: 0,
            max_active_workers: 0,
            max_queue_len: 0,
        }
    }
}

impl Metrics {
    /// Whether `record_completion` can take these values without overflow.
    pub fn can_record_completion(&self, wait_time_ms: u128, turnaround_time_ms: u128, task_type: TaskType) -> (b: bool)
        ensures
            b == completion_fits(*self, wait_time_ms, turnaround_time_ms, task_type),
    {
        let per_type = match task_type {
            TaskType::IO => self.completed_io < usize::MAX,
            TaskType::CPU => self.completed_cpu < usize::MAX,
        };
        self.completed_tasks < usize::MAX && wait_time_ms <= u128::MAX - self.total_wait_time_ms
            && turnaround_time_ms <= u128::MAX - self.total_turnaround_time_ms && per_type
    }

    /// Accounts for a task that a worker finished.
    pub fn record_completion(&mut self, wait_time_ms: u128, turnaround_time_ms: u128, task_type: TaskType)
        requires
            completion_fits(*old(self), wait_time_ms, turnaround_time_ms, task_type),
        ensures
            *final(self) == after_completion(*old(self), wait_time_ms, turnaround_time_ms, task_type),
    {
        self.completed_tasks = self.completed_tasks + 1;
        self.total_wait_time_ms = self.total_wait_time_ms + wait_time_ms;
        self.total_turnaround_time_ms = self.total_turnaround_time_ms + turnaround_time_ms;
        if wait_time_ms > self.max_wait_time_ms {
            self.max_wait_time_ms = wait_time_ms;
        }
        match task_type {
            TaskType::IO => self.completed_io = self.completed_io + 1,
            TaskType::CPU => self.completed_cpu = self.completed_cpu + 1,
        }
    }

    /// Whether `record_sample` can take this CPU reading without overflow.
    pub fn can_record_sample(&self, cpu_now: usize) -> (b: bool)
        ensures
            b == sample_fits(*self, cpu_now),
    {
        cpu_now <= usize::MAX - self.total_cpu_samples && self.sample_count < usize::MAX
    }

    /// Accounts for one monitor sample of the CPU use, the busy workers and
    /// the queue length.
    pub fn record_sample(&mut self, cpu_now: usize, workers_now: usize, queue_len: usize)
        requires
            sample_fits(*old(self), cpu_now),
        ensures
            *final(self) == after_sample(*old(self), cpu_now, workers_now, queue_len),
    {
        self.total_cpu_samples = self.total_cpu_samples + cpu_now;
        self.sample_count = self.sample_count + 1;
        if cpu_now > self.max_cpu_seen {
            self.max_cpu_seen = cpu_now;
        }
        if workers_now > self.max_active_workers {
            self.max_active_workers = workers_now;
        }
        if queue_len > self.max_queue_len {
            self.max_queue_len = queue_len;
        }
    }
}

/// Every finished task is counted as IO or as CPU: the fresh metrics balance,
/// and a completion or a sample keeps the balance.
pub proof fn lemma_counts_balance(m: Metrics, wait_time_ms: u128, turnaround_time_ms: u128, task_type: TaskType, cpu_now: usize, workers_now: usize, queue_len: usize)
    requires
        completion_fits(m, wait_time_ms, turnaround_time_ms, task_type),
    ensures
        metrics_zero(m) ==> counts_balance(m),
        counts_balance(m) ==> counts_balance(after_completion(m, wait_time_ms, turnaround_time_ms, task_type)),
        counts_balance(m) ==> counts_balance(after_sample(m, cpu_now, workers_now, queue_len)),
{
}

/// The largest wait seen bounds every recorded wait: after a completion it
/// is at least that task's wait and at least the earlier maximum.
pub proof fn lemma_max_wait_grows(m: Metrics, wait_time_ms: u128, turnaround_time_ms: u128, task_type: TaskType)
    ensures
        after_completion(m, wait_time_ms, turnaround_time_ms, task_type).max_wait_time_ms >= wait_time_ms,
        after_completion(m, wait_time_ms, turnaround_time_ms, task_type).max_wait_time_ms >= m.max_wait_time_ms,
{
}

/// A sample adds its CPU reading to the total and counts once; each maximum
/// becomes the larger of the old maximum and the new reading (so it bounds
/// both and is one of them); the completion figures stay.
pub proof fn lemma_sample_law(m: Metrics, cpu_now: usize, workers_now: usize, queue_len: usize)
    requires
        sample_fits(m, cpu_now),
    ensures
        ({
            let a = after_sample(m, cpu_now, workers_now, queue_len);
            &&& a.total_cpu_samples == m.total_cpu_samples + cpu_now
            &&& a.sample_count == m.sample_count + 1
            &&& a.max_cpu_seen >= m.max_cpu_seen && a.max_cpu_seen >= cpu_now
            &&& (a.max_cpu_seen == m.max_cpu_seen || a.max_cpu_seen == cpu_now)
            &&& a.max_active_workers >= m.max_active_workers && a.max_active_workers >= workers_now
            &&& (a.max_active_workers == m.max_active_workers || a.max_active_workers == workers_now)
            &&& a.max_queue_len >= m.max_queue_len && a.max_queue_len >= queue_len
            &&& (a.max_queue_len == m.max_queue_len || a.max_queue_len == queue_len)
            &&& a.completed_tasks == m.completed_tasks
            &&& a.completed_io == m.completed_io
            &&& a.completed_cpu == m.completed_cpu
            &&& a.total_wait_time_ms == m.total_wait_time_ms
            &&& a.total_turnaround_time_ms == m.total_turnaround_time_ms
            &&& a.max_wait_time_ms == m.max_wait_time_ms
        }),
{
}

/// A completion counts once, in its own type only, adds its times to the
/// totals, and makes the largest wait the larger of the old one and its
/// wait; the sample figures stay.
pub proof fn lemma_completion_law(m: Metrics, wait_time_ms: u128, turnaround_time_ms: u128, task_type: TaskType)
    requires
        completion_fits(m, wait_time_ms, turnaround_time_ms, task_type),
    ensures
        ({
            let a = after_completion(m, wait_time_ms, turnaround_time_ms, task_type);
            &&& a.completed_tasks == m.completed_tasks + 1
            &&& a.completed_io + a.completed_cpu == m.completed_io + m.completed_cpu + 1
            &&& task_type == TaskType::IO ==> a.completed_io == m.completed_io + 1 && a.completed_cpu == m.completed_cpu
            &&& task_type == TaskType::CPU ==> a.completed_cpu == m.completed_cpu + 1 && a.completed_io == m.completed_io
            &&& a.total_wait_time_ms == m.total_wait_time_ms + wait_time_ms
            &&& a.total_turnaround_time_ms == m.total_turnaround_time_ms + turnaround_time_ms
            &&& a.max_wait_time_ms >= m.max_wait_time_ms && a.max_wait_time_ms >= wait_time_ms
            &&& (a.max_wait_time_ms == m.max_wait_time_ms || a.max_wait_time_ms == wait_time_ms)
            &&& a.total_cpu_samples == m.total_cpu_samples
            &&& a.sample_count == m.sample_count
            &&& a.max_cpu_seen == m.max_cpu_seen
            &&& a.max_active_workers == m.max_active_workers
            &&& a.max_queue_len == m.max_queue_len
        }),
{
}

} // verus!
