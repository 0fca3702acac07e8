use system_monitor::schedule::{refresh_plan, FAST_REFRESH_NANOS, SLOW_REFRESH_NANOS};
use std::collections::VecDeque;
use system_monitor::history::{
    push_bounded, record_samples, resize_counters, resize_histories, sync_gpu_tracking,
    HISTORY_SIZE,
};
use system_monitor::sections::{click_process, PressedKeys, Sections};

fn no_keys() -> PressedKeys {
    PressedKeys {
        f: false, num1: false, c: false, p: false, d: false, m: false, g: false, n: false,
        b: false, h: false, e: false, q: false,
    }
}

#[test]
fn history_keeps_the_latest_samples() {
    let mut h: VecDeque<u32> = VecDeque::new();
    for x in 0..(HISTORY_SIZE as u32 + 5) {
        push_bounded(&mut h, x, HISTORY_SIZE);
        assert!(h.len() <= HISTORY_SIZE);
        assert_eq!(*h.back().unwrap(), x);
    }
    assert_eq!(h.len(), HISTORY_SIZE);
    assert_eq!(*h.front().unwrap(), 5);
    let mut small: VecDeque<u32> = VecDeque::from(vec![1, 2, 3]);
    push_bounded(&mut small, 4, 3);
    assert_eq!(small, VecDeque::from(vec![2, 3, 4]));
}

#[test]
fn histories_follow_the_gpu_count() {
    let mut hs: Vec<VecDeque<u32>> = vec![VecDeque::from(vec![1]), VecDeque::from(vec![2])];
    let mut times: Vec<u64> = vec![10, 20];
    sync_gpu_tracking(&mut hs, &mut times, 2);
    assert_eq!(hs.len(), 2);
    assert_eq!(times, vec![10, 20]);
    sync_gpu_tracking(&mut hs, &mut times, 3);
    assert_eq!(hs, vec![VecDeque::from(vec![1]), VecDeque::from(vec![2]), VecDeque::new()]);
    assert_eq!(times, vec![10, 20, 0]);
    sync_gpu_tracking(&mut hs, &mut times, 1);
    assert_eq!(hs, vec![VecDeque::from(vec![1])]);
    assert_eq!(times, vec![10]);
    resize_histories(&mut hs, 0);
    assert!(hs.is_empty());
    let mut c: Vec<u64> = vec![5];
    resize_counters(&mut c, 3);
    assert_eq!(c, vec![5, 0, 0]);
}

#[test]
fn samples_go_to_their_histories() {
    let mut hs: Vec<VecDeque<u32>> = vec![VecDeque::from(vec![1, 2]), VecDeque::new(), VecDeque::new()];
    record_samples(&mut hs, &vec![3, 9], 2);
    assert_eq!(hs, vec![VecDeque::from(vec![2, 3]), VecDeque::from(vec![9]), VecDeque::new()]);
}

#[test]
fn sections_start_expanded() {
    let s = Sections::new();
    assert!(s.show_cpu && s.show_cpu_cores && s.show_processes && s.show_disks);
    assert!(s.show_memory && s.show_gpu && s.show_npu && s.show_battery);
    assert!(!s.show_fps && !s.show_help);
}

#[test]
fn shortcuts_toggle_and_bulk_keys() {
    let start = Sections::new();
    let mut s = start;
    s.apply_shortcuts(&no_keys());
    assert_eq!(s, start);
    let keys = PressedKeys { f: true, c: true, g: true, h: true, ..no_keys() };
    s.apply_shortcuts(&keys);
    assert!(s.show_fps && !s.show_cpu_cores && !s.show_gpu && s.show_help && s.show_cpu);
    s.apply_shortcuts(&keys);
    assert_eq!(s, start);
    s.apply_shortcuts(&PressedKeys { q: true, ..no_keys() });
    assert!(!s.show_cpu && !s.show_cpu_cores && !s.show_processes && !s.show_disks);
    assert!(!s.show_memory && !s.show_gpu && !s.show_npu && !s.show_battery);
    assert!(!s.show_fps && !s.show_help);
    s.apply_shortcuts(&PressedKeys { e: true, f: true, ..no_keys() });
    assert!(s.show_cpu && s.show_battery && s.show_fps);
    // E then Q in one frame: Q wins.
    s.apply_shortcuts(&PressedKeys { e: true, q: true, ..no_keys() });
    assert!(!s.show_cpu && !s.show_npu);
    s.set_all(true);
    assert!(s.show_disks && s.show_memory);
}

#[test]
fn clicking_a_process_row() {
    assert_eq!(click_process(None, 42), Some(42));
    assert_eq!(click_process(Some(42), 42), None);
    assert_eq!(click_process(Some(7), 42), Some(42));
    assert_eq!(click_process(click_process(None, 42), 42), None);
}

#[test]
fn refresh_schedule() {
    let p = refresh_plan(499_999_999, 1_999_999_999);
    assert!(!p.fast && !p.slow);
    let p = refresh_plan(FAST_REFRESH_NANOS, 10);
    assert!(p.fast && !p.slow);
    let p = refresh_plan(0, SLOW_REFRESH_NANOS);
    assert!(!p.fast && p.slow);
    assert_eq!(SLOW_REFRESH_NANOS, 4 * FAST_REFRESH_NANOS);
}

#[test]
fn gpu_histories_bounded_after_refreshes() {
    let mut hs: Vec<VecDeque<u32>> = Vec::new();
    let mut times: Vec<u64> = Vec::new();
    for round in 0..10u32 {
        let gpus = (round % 3 + 1) as usize;
        let samples: Vec<u32> = (0..gpus as u32).map(|g| round * 10 + g).collect();
        sync_gpu_tracking(&mut hs, &mut times, gpus);
        record_samples(&mut hs, &samples, 4);
        assert_eq!(hs.len(), gpus);
        assert_eq!(times.len(), gpus);
        for (h, s) in hs.iter().zip(samples.iter()) {
            assert!(h.len() <= 4);
            assert_eq!(h.back(), Some(s));
        }
    }
}
