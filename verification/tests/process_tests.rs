use rtop::metrics::{
    is_cpu_sensor_label, processes_due, rank_processes, sleep_after_round, ProcessInfo, PROCESS_LIMIT, PROCESS_REFRESH_NANOS,
};

fn p(pid: u32, name: &str, memory_bytes: u64) -> ProcessInfo {
    ProcessInfo { pid, name: name.to_string(), memory_bytes }
}

fn sorted_by_std(list: &[ProcessInfo]) -> Vec<(u32, String, u64)> {
    let mut v: Vec<ProcessInfo> = list.to_vec();
    v.sort_by(|a, b| b.memory_bytes.cmp(&a.memory_bytes).then_with(|| a.name.cmp(&b.name)));
    v.truncate(128);
    v.into_iter().map(|p| (p.pid, p.name, p.memory_bytes)).collect()
}

fn flat(list: Vec<ProcessInfo>) -> Vec<(u32, String, u64)> {
    list.into_iter().map(|p| (p.pid, p.name, p.memory_bytes)).collect()
}

#[test]
fn ranked_by_memory_then_name() {
    let list = vec![p(1, "b", 10), p(2, "a", 10), p(3, "z", 30), p(4, "c", 5)];
    let ranked = flat(rank_processes(&list));
    assert_eq!(
        ranked,
        vec![(3, "z".to_string(), 30), (2, "a".to_string(), 10), (1, "b".to_string(), 10), (4, "c".to_string(), 5)]
    );
}

#[test]
fn equal_processes_keep_their_order() {
    let list = vec![p(9, "same", 7), p(3, "same", 7), p(5, "same", 7)];
    let ranked: Vec<u32> = rank_processes(&list).into_iter().map(|p| p.pid).collect();
    assert_eq!(ranked, vec![9, 3, 5]);
}

#[test]
fn at_most_128_are_kept() {
    let list: Vec<ProcessInfo> = (0..300u32).map(|i| p(i, &format!("p{}", i % 17), (i as u64 * 7919) % 1000)).collect();
    let ranked = rank_processes(&list);
    assert_eq!(ranked.len(), PROCESS_LIMIT);
    assert_eq!(flat(ranked), sorted_by_std(&list));
}

#[test]
fn ranking_matches_a_stable_sort() {
    let names = ["bash", "Bash", "zsh", "é", "e", "", "ab", "a"];
    let list: Vec<ProcessInfo> = (0..60u32).map(|i| p(i, names[(i as usize * 5) % names.len()], (i as u64 % 4) * 100)).collect();
    assert_eq!(flat(rank_processes(&list)), sorted_by_std(&list));
    assert!(rank_processes(&Vec::new()).is_empty());
}

#[test]
fn cpu_sensor_labels() {
    assert!(is_cpu_sensor_label("CPU"));
    assert!(is_cpu_sensor_label("coretemp Package id 0"));
    assert!(is_cpu_sensor_label("k10temp Tctl cpu"));
    assert!(!is_cpu_sensor_label("nvme Composite"));
    assert!(!is_cpu_sensor_label("acpitz"));
    assert!(!is_cpu_sensor_label(""));
    assert!(!is_cpu_sensor_label("pack age"));
}

#[test]
fn sampler_timing_decisions() {
    assert!(processes_due(None));
    assert!(!processes_due(Some(0)));
    assert!(!processes_due(Some(PROCESS_REFRESH_NANOS - 1)));
    assert!(processes_due(Some(PROCESS_REFRESH_NANOS)));
    assert_eq!(sleep_after_round(200_000_000, 30_000_000), 170_000_000);
    assert_eq!(sleep_after_round(200_000_000, 200_000_000), 0);
    assert_eq!(sleep_after_round(200_000_000, 250_000_000), 0);
}
