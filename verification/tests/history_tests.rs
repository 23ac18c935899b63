use std::collections::VecDeque;

use rtop::app::{push_bounded, App, HISTORY_LEN};
use rtop::metrics::Metrics;

fn sample(cpu: u32, memory: u32) -> Metrics<u32> {
    Metrics {
        cpu,
        cores: vec![cpu],
        cpu_temp_c: None,
        memory,
        used_memory: 1,
        total_memory: 2,
        processes: Vec::new(),
    }
}

#[test]
fn push_below_capacity_appends() {
    let mut h: VecDeque<u32> = VecDeque::new();
    push_bounded(&mut h, 1);
    push_bounded(&mut h, 2);
    assert_eq!(h, VecDeque::from(vec![1, 2]));
}

#[test]
fn push_at_capacity_drops_oldest() {
    let mut h: VecDeque<usize> = (0..HISTORY_LEN).collect();
    push_bounded(&mut h, 999);
    assert_eq!(h.len(), HISTORY_LEN);
    assert_eq!(h.front(), Some(&1));
    assert_eq!(h.back(), Some(&999));
}

#[test]
fn history_keeps_the_last_420_samples() {
    let mut h: VecDeque<usize> = VecDeque::new();
    for v in 0..1000 {
        push_bounded(&mut h, v);
        assert!(h.len() <= HISTORY_LEN);
    }
    let expected: VecDeque<usize> = (1000 - HISTORY_LEN..1000).collect();
    assert_eq!(h, expected);
}

#[test]
fn new_app_records_the_first_sample() {
    let app = App::new(sample(40, 70));
    assert_eq!(app.cpu_history, VecDeque::from(vec![40]));
    assert_eq!(app.memory_history, VecDeque::from(vec![70]));
    assert_eq!(app.current.cpu, 40);
    assert_eq!(app.current.memory, 70);
}

#[test]
fn app_push_updates_histories_and_current() {
    let mut app = App::new(sample(1, 2));
    app.push(sample(3, 4));
    assert_eq!(app.cpu_history, VecDeque::from(vec![1, 3]));
    assert_eq!(app.memory_history, VecDeque::from(vec![2, 4]));
    assert_eq!(app.current.cpu, 3);
    for i in 0..500u32 {
        app.push(sample(i, i + 1));
    }
    assert_eq!(app.cpu_history.len(), HISTORY_LEN);
    assert_eq!(app.cpu_history.back(), Some(&499));
    assert_eq!(app.memory_history.front(), Some(&81));
}

#[test]
fn histories_hold_floats_too() {
    let m = Metrics {
        cpu: 12.5f32,
        cores: vec![10.0, 15.0],
        cpu_temp_c: Some(48.0),
        memory: 33.0,
        used_memory: 3,
        total_memory: 9,
        processes: Vec::new(),
    };
    let app = App::new(m);
    assert_eq!(app.cpu_history[0], 12.5);
}
