use servicio_rust::analysis::{analyzer, SystemInfo};
use servicio_rust::order::usage_order;
use servicio_rust::process::{log_entry, Process};
use std::cmp::Ordering;

fn process(pid: u32, cpu: u64, mem: u64) -> Process {
    Process {
        pid,
        name: format!("proc{}", pid),
        cmd_line: format!("/usr/bin/containerd-shim -namespace moby -id c{} -address /run", pid),
        vsz: 1000 + pid as u64,
        rss: 500 + pid as u64,
        memory_usage: mem,
        cpu_usage: cpu,
    }
}

fn info(processes: Vec<Process>) -> SystemInfo {
    SystemInfo { total_ram: 16000, free_ram: 4000, used_ram: 12000, processes }
}

fn pids(ps: &[Process]) -> Vec<u32> {
    ps.iter().map(|p| p.pid).collect()
}

#[test]
fn usage_order_is_stable_sort_by_cpu_then_memory() {
    let keys = vec![(5, 1), (1, 9), (5, 0), (1, 9), (0, 7), (5, 1)];
    assert_eq!(usage_order(&keys), vec![4, 1, 3, 2, 0, 5]);
}

#[test]
fn usage_order_of_nothing_is_empty() {
    assert_eq!(usage_order(&Vec::new()), Vec::<usize>::new());
}

#[test]
fn cmp_orders_by_cpu_then_memory() {
    let a = process(1, 10, 50);
    let b = process(2, 20, 1);
    let c = process(3, 10, 60);
    let d = process(4, 10, 50);
    assert_eq!(a.cmp(&b), Ordering::Less);
    assert_eq!(b.cmp(&a), Ordering::Greater);
    assert_eq!(a.cmp(&c), Ordering::Less);
    assert_eq!(c.cmp(&a), Ordering::Greater);
    assert_eq!(a.cmp(&d), Ordering::Equal);
    assert_eq!(a.partial_cmp(&b), Some(Ordering::Less));
    assert_eq!(a.partial_cmp(&d), Some(Ordering::Equal));
}

#[test]
fn analyzer_splits_and_stops_ten_processes() {
    // cpu keys deliberately out of order
    let cpus = [90, 10, 80, 20, 70, 30, 60, 40, 50, 0];
    let ps: Vec<Process> = cpus.iter().enumerate().map(|(i, c)| process(i as u32, *c, 5)).collect();
    let a = analyzer(&info(ps));
    assert_eq!(a.order, vec![9, 1, 3, 5, 7, 8, 6, 4, 2, 0]);
    assert_eq!(pids(&a.lowest), vec![9, 1, 3, 5, 7]);
    assert_eq!(pids(&a.highest), vec![8, 6, 4, 2, 0]);
    // low half: all but the first three; high half: all but the last two
    let stopped: Vec<u32> = a.stopped.iter().map(|l| l.pid).collect();
    assert_eq!(stopped, vec![5, 7, 8, 6, 4]);
    assert_eq!(a.stopped[0].container_id, "c5");
    assert_eq!(a.stopped[0].name, "proc5");
    assert_eq!(a.stopped[0].vsz, 1005);
    assert_eq!(a.stopped[0].rss, 505);
    assert_eq!(a.stopped[0].cpu_usage, 30);
    assert_eq!(a.stopped[0].memory_usage, 5);
}

#[test]
fn analyzer_with_no_processes_stops_nothing() {
    let a = analyzer(&info(Vec::new()));
    assert!(a.order.is_empty() && a.lowest.is_empty() && a.highest.is_empty() && a.stopped.is_empty());
}

#[test]
fn analyzer_with_one_process_keeps_it() {
    let a = analyzer(&info(vec![process(7, 1, 1)]));
    assert!(a.lowest.is_empty());
    assert_eq!(pids(&a.highest), vec![7]);
    assert!(a.stopped.is_empty());
}

#[test]
fn analyzer_with_five_processes_stops_one_high() {
    let ps: Vec<Process> = (0..5).map(|i| process(i, i as u64, 0)).collect();
    let a = analyzer(&info(ps));
    assert_eq!(pids(&a.lowest), vec![0, 1]);
    assert_eq!(pids(&a.highest), vec![2, 3, 4]);
    let stopped: Vec<u32> = a.stopped.iter().map(|l| l.pid).collect();
    assert_eq!(stopped, vec![2]);
}

#[test]
fn analyzer_ties_keep_reading_order() {
    let ps: Vec<Process> = (0..8).map(|i| process(i, 3, 3)).collect();
    let a = analyzer(&info(ps));
    assert_eq!(a.order, (0..8).collect::<Vec<usize>>());
    let stopped: Vec<u32> = a.stopped.iter().map(|l| l.pid).collect();
    assert_eq!(stopped, vec![3, 4, 5]);
}

#[test]
fn analyzer_stop_count_law_on_many_sizes() {
    for n in 0u32..40 {
        let ps: Vec<Process> = (0..n).map(|i| process(i, ((i * 7) % 11) as u64, (i % 3) as u64)).collect();
        let a = analyzer(&info(ps));
        let n = n as usize;
        let h = n / 2;
        let expected = h.saturating_sub(3) + (n - h).saturating_sub(2);
        assert_eq!(a.stopped.len(), expected);
        assert_eq!(a.lowest.len() + a.highest.len(), n);
        // every process lands exactly once
        let mut seen: Vec<usize> = a.order.clone();
        seen.sort();
        assert_eq!(seen, (0..n).collect::<Vec<usize>>());
        // low half below high half
        for l in &a.lowest {
            for hp in &a.highest {
                assert!((l.cpu_usage, l.memory_usage) <= (hp.cpu_usage, hp.memory_usage));
            }
        }
    }
}

#[test]
fn analyzer_keeps_lowest_three_and_highest_two() {
    let ps: Vec<Process> = (0..14).map(|i| process(i, (13 - i) as u64, 0)).collect();
    let a = analyzer(&info(ps));
    let kept_low: Vec<u32> = pids(&a.lowest[..3]);
    let kept_high: Vec<u32> = pids(&a.highest[a.highest.len() - 2..]);
    assert_eq!(kept_low, vec![13, 12, 11]);
    assert_eq!(kept_high, vec![1, 0]);
    for l in &a.stopped {
        assert!(!kept_low.contains(&l.pid) && !kept_high.contains(&l.pid));
    }
}

#[test]
fn analyzer_gives_one_outcome() {
    let ps = || (0..9).map(|i| process(i, (i % 4) as u64, (i % 2) as u64)).collect::<Vec<Process>>();
    let a1 = analyzer(&info(ps()));
    let a2 = analyzer(&info(ps()));
    assert_eq!(a1.order, a2.order);
    assert_eq!(pids(&a1.lowest), pids(&a2.lowest));
    assert_eq!(a1.stopped.len(), a2.stopped.len());
}

#[test]
fn log_entry_copies_fields_and_reads_container_id() {
    let p = process(42, 3, 4);
    let l = log_entry(&p);
    assert_eq!(l.pid, 42);
    assert_eq!(l.container_id, "c42");
    assert_eq!(l.name, "proc42");
    assert_eq!((l.vsz, l.rss, l.cpu_usage, l.memory_usage), (1042, 542, 3, 4));
}

#[test]
fn listing_order_does_not_change_what_is_stopped() {
    let cpus = [12u64, 3, 40, 7, 25, 18, 1, 33, 9, 50, 4];
    let ps1: Vec<Process> = cpus.iter().enumerate().map(|(i, c)| process(i as u32, *c, 0)).collect();
    let mut ps2: Vec<Process> = ps1.iter().rev().cloned().collect();
    ps2.swap(0, 5);
    let a1 = analyzer(&info(ps1));
    let a2 = analyzer(&info(ps2));
    assert_eq!(pids(&a1.lowest), pids(&a2.lowest));
    assert_eq!(pids(&a1.highest), pids(&a2.highest));
    let s1: Vec<String> = a1.stopped.iter().map(|l| l.container_id.clone()).collect();
    let s2: Vec<String> = a2.stopped.iter().map(|l| l.container_id.clone()).collect();
    assert_eq!(s1, s2);
}
