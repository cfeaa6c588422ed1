use sysprog::experiment::{
    summarize_results, task_from_roll, DispatchQueue, MonitorTotals, TaskGenerator, TaskKind,
    TaskResult, CPU_COST, IO_COST,
};

#[test]
fn roll_decides_kind_and_cost() {
    let t = task_from_roll(3, 69, 70, 11, 200);
    assert_eq!(t.kind, TaskKind::IO);
    assert_eq!(t.cpu_cost, IO_COST);
    assert_eq!((t.id, t.arrival_ns, t.duration_ms), (3, 11, 200));
    let t = task_from_roll(4, 70, 70, 0, 200);
    assert_eq!(t.kind, TaskKind::CPU);
    assert_eq!(t.cpu_cost, CPU_COST);
}

#[test]
fn generator_numbers_tasks_and_respects_extreme_shares() {
    let mut all_io = TaskGenerator::new(100);
    let mut all_cpu = TaskGenerator::new(0);
    for id in 0..50 {
        let a = all_io.next_task(0, 200);
        let b = all_cpu.next_task(0, 200);
        assert_eq!(a.id, id);
        assert_eq!(a.kind, TaskKind::IO);
        assert_eq!(b.kind, TaskKind::CPU);
        assert_eq!(b.cpu_cost, CPU_COST);
    }
}

#[test]
fn generator_repeats_with_the_fixed_seed() {
    let mut g1 = TaskGenerator::new(70);
    let mut g2 = TaskGenerator::new(70);
    let k1: Vec<TaskKind> = (0..100).map(|_| g1.next_task(0, 200).kind).collect();
    let k2: Vec<TaskKind> = (0..100).map(|_| g2.next_task(0, 200).kind).collect();
    assert_eq!(k1, k2);
    assert!(k1.contains(&TaskKind::IO) && k1.contains(&TaskKind::CPU));
}

#[test]
fn dispatch_queue_respects_the_cap_and_frees_workers() {
    let mut d = DispatchQueue::new(3, 2);
    assert_eq!(d.free_workers, vec![0, 1]);
    assert_eq!(d.running, vec![None, None]);
    assert_eq!(d.try_dispatch(0), None);
    d.enqueue(task_from_roll(0, 99, 70, 0, 200));
    d.enqueue(task_from_roll(1, 0, 70, 0, 200));
    assert_eq!(d.queue_len(), 2);
    assert_eq!(d.try_dispatch(70), None);
    assert_eq!(d.queue_len(), 2);
    assert_eq!(d.free_workers, vec![0, 1]);
    let (w, t) = d.try_dispatch(65).unwrap();
    assert_eq!((w, t.id), (0, 0));
    let (w, t) = d.try_dispatch(100 - IO_COST).unwrap();
    assert_eq!((w, t.id), (1, 1));
    assert_eq!(d.running, vec![Some(0), Some(1)]);
    d.enqueue(task_from_roll(2, 0, 70, 0, 200));
    assert_eq!(d.try_dispatch(0), None);
    assert!(d.awaits_results());
    assert_eq!(d.record_result(1), Some(1));
    assert_eq!(d.free_workers, vec![1]);
    let (w, t) = d.try_dispatch(0).unwrap();
    assert_eq!((w, t.id), (1, 2));
    assert_eq!(d.record_result(2), Some(1));
    assert_eq!(d.running, vec![Some(0), None]);
    assert_eq!(d.free_workers, vec![1]);
    assert_eq!(d.record_result(0), Some(0));
    assert_eq!(d.free_workers, vec![1, 0]);
    assert!(d.is_finished());
    assert!(!d.awaits_results());
    assert_eq!(d.completed_count, 3);
}

#[test]
fn unknown_result_frees_nobody() {
    let mut d = DispatchQueue::new(2, 2);
    assert_eq!(d.record_result(7), None);
    assert_eq!(d.free_workers, vec![0, 1]);
    assert_eq!(d.completed_count, 1);
}

#[test]
fn monitor_totals_accumulate() {
    let mut m = MonitorTotals::new();
    m.record(45, 3, 7);
    m.record(20, 1, 2);
    assert_eq!((m.samples, m.total_cpu, m.total_active_workers, m.max_queue_len), (2, 65, 4, 7));
    assert!(m.can_record(1, 1));
    assert!(!m.can_record(usize::MAX, 0));
}

#[test]
fn results_summary() {
    let results = vec![
        TaskResult { task_id: 0, kind: TaskKind::IO, wait_ns: 10, turnaround_ns: 210 },
        TaskResult { task_id: 1, kind: TaskKind::CPU, wait_ns: 40, turnaround_ns: 240 },
        TaskResult { task_id: 2, kind: TaskKind::IO, wait_ns: 25, turnaround_ns: 225 },
    ];
    let s = summarize_results(&results);
    assert_eq!(s.completed, 3);
    assert_eq!(s.total_wait_ns, 75);
    assert_eq!(s.total_turnaround_ns, 675);
    assert_eq!(s.max_wait_ns, 40);
    assert_eq!((s.cpu_tasks, s.io_tasks), (1, 2));
    let empty = summarize_results(&Vec::new());
    assert_eq!((empty.completed, empty.max_wait_ns, empty.total_wait_ns), (0, 0, 0));
}
