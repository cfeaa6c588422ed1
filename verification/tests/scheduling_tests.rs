use std::collections::VecDeque;
use sysprog::metrics::Metrics;
use sysprog::scheduling::{
    choose_task_type, new_task, next_random, pop_fifo_task, pop_optimized_task, DispatchDecision,
    Dispatcher, Policy, Task, TaskType, CPU_TASK_COST, IO_TASK_COST, RANDOM_SEED, TASK_DURATION_MS,
    WORKER_COUNT,
};

fn io(id: usize) -> Task {
    new_task(id, 0, TaskType::IO)
}

fn cpu(id: usize) -> Task {
    new_task(id, 0, TaskType::CPU)
}

#[test]
fn generator_sequence_is_the_lcg() {
    let mut seed = RANDOM_SEED;
    assert_eq!(next_random(&mut seed), 578673459679314182);
    assert_eq!(seed, 578673459679314182);
    assert_eq!(next_random(&mut seed), 9383619854758504463);
    let mut zero = 0u64;
    assert_eq!(next_random(&mut zero), 1);
}

#[test]
fn task_types_follow_the_seed() {
    let mut seed = RANDOM_SEED;
    let kinds: Vec<TaskType> = (0..6).map(|_| choose_task_type(&mut seed, 70, 30)).collect();
    assert_eq!(
        kinds,
        vec![TaskType::CPU, TaskType::IO, TaskType::IO, TaskType::CPU, TaskType::IO, TaskType::IO]
    );
    let mut s = RANDOM_SEED;
    assert_eq!(choose_task_type(&mut s, 0, 30), TaskType::CPU);
    let mut s = RANDOM_SEED;
    assert_eq!(choose_task_type(&mut s, 70, 0), TaskType::IO);
}

#[test]
fn new_task_costs_by_type() {
    let t = new_task(7, 99, TaskType::CPU);
    assert_eq!(t.id, 7);
    assert_eq!(t.arrival_ns, 99);
    assert_eq!(t.cpu_cost, CPU_TASK_COST);
    assert_eq!(t.duration_ms, TASK_DURATION_MS);
    assert_eq!(new_task(1, 0, TaskType::IO).cpu_cost, IO_TASK_COST);
}

#[test]
fn fifo_takes_the_front_only_when_it_fits() {
    let mut q: VecDeque<Task> = VecDeque::from(vec![io(0), cpu(1)]);
    assert_eq!(pop_fifo_task(&mut q, 95), None);
    assert_eq!(q.len(), 2);
    assert_eq!(pop_fifo_task(&mut q, 90), Some(io(0)));
    assert_eq!(pop_fifo_task(&mut q, 70), None);
    assert_eq!(pop_fifo_task(&mut q, 65), Some(cpu(1)));
    assert_eq!(pop_fifo_task(&mut q, 0), None);
}

#[test]
fn optimized_prefers_cpu_tasks_that_fit() {
    let mut q: VecDeque<Task> = VecDeque::from(vec![io(0), io(1), cpu(2), cpu(3)]);
    assert_eq!(pop_optimized_task(&mut q, 50), Some(cpu(2)));
    assert_eq!(q, VecDeque::from(vec![io(0), io(1), cpu(3)]));
    assert_eq!(pop_optimized_task(&mut q, 70), Some(io(0)));
    assert_eq!(pop_optimized_task(&mut q, 95), None);
    assert_eq!(q, VecDeque::from(vec![io(1), cpu(3)]));
    let mut only_io: VecDeque<Task> = VecDeque::from(vec![io(5)]);
    assert_eq!(pop_optimized_task(&mut only_io, 0), Some(io(5)));
    assert_eq!(pop_optimized_task(&mut only_io, 0), None);
}

#[test]
fn dispatcher_sends_only_to_free_workers() {
    let mut d = Dispatcher::new(Policy::Fifo);
    let mut q: VecDeque<Task> = VecDeque::new();
    assert!(d.all_idle());
    assert_eq!(d.step(&mut q, true, 0), DispatchDecision::Stop);
    assert_eq!(d.step(&mut q, false, 0), DispatchDecision::Wait);
    for id in 0..WORKER_COUNT {
        q.push_back(io(id));
        assert_eq!(d.step(&mut q, false, 0), DispatchDecision::Send { worker: id, task: io(id) });
    }
    assert!(d.busy.iter().all(|b| *b));
    assert_eq!(d.free_worker(), None);
    q.push_back(io(100));
    assert_eq!(d.step(&mut q, true, 0), DispatchDecision::Wait);
    assert_eq!(q.len(), 1);
    d.release(3);
    assert_eq!(d.free_worker(), Some(3));
    assert_eq!(d.step(&mut q, true, 0), DispatchDecision::Send { worker: 3, task: io(100) });
    assert_eq!(d.next_worker, 4);
    d.release(1);
    d.release(6);
    q.push_back(io(101));
    assert_eq!(d.step(&mut q, false, 0), DispatchDecision::Send { worker: 6, task: io(101) });
    q.push_back(io(102));
    assert_eq!(d.step(&mut q, false, 0), DispatchDecision::Send { worker: 1, task: io(102) });
    assert_eq!(d.step(&mut q, true, 0), DispatchDecision::Wait);
    for w in 0..WORKER_COUNT {
        d.release(w);
    }
    assert_eq!(d.step(&mut q, true, 0), DispatchDecision::Stop);
}

#[test]
fn metrics_accumulate() {
    let mut m = Metrics::default();
    assert_eq!(m.completed_tasks, 0);
    m.record_completion(5, 205, TaskType::IO);
    m.record_completion(9, 209, TaskType::CPU);
    m.record_completion(3, 203, TaskType::IO);
    assert_eq!(m.completed_tasks, 3);
    assert_eq!(m.completed_io, 2);
    assert_eq!(m.completed_cpu, 1);
    assert_eq!(m.total_wait_time_ms, 17);
    assert_eq!(m.total_turnaround_time_ms, 617);
    assert_eq!(m.max_wait_time_ms, 9);
    m.record_sample(45, 2, 10);
    m.record_sample(80, 7, 4);
    assert_eq!(m.total_cpu_samples, 125);
    assert_eq!(m.sample_count, 2);
    assert_eq!(m.max_cpu_seen, 80);
    assert_eq!(m.max_active_workers, 7);
    assert_eq!(m.max_queue_len, 10);
    assert!(m.can_record_sample(1));
    assert!(!m.can_record_sample(usize::MAX));
    assert!(m.can_record_completion(1, 1, TaskType::CPU));
    assert!(!m.can_record_completion(u128::MAX, 0, TaskType::CPU));
}
