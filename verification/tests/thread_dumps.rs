//! Thread dump parsing: shape discrimination, field decoding, the state
//! census, and the CPU delta cache.

use jvm_monitor::model::MetricsCache;
use jvm_monitor::threads::{parse_threads, update_thread_cache, ThreadCache};

const DUMP: &str = "2024-01-01 12:00:00\nFull thread dump:\n\n\"main\" #1 prio=5 os_prio=0 cpu=250.00ms elapsed=12.50s allocated=66851K defined_classes=665 tid=0x00007f7088028ab0 nid=0x4b25 waiting on condition  [0x00007f708f242000]\n   java.lang.Thread.State: RUNNABLE\n\n\"GC Thread#0\" os_prio=0 cpu=1.51ms elapsed=12.49s tid=0x00007f708805d800 nid=0x4b2a runnable\n\n";

#[test]
fn application_and_jvm_thread_shapes() {
    let mut metrics = MetricsCache::new();
    let mut cache = ThreadCache::new();
    let r = parse_threads(&mut metrics, &mut cache, DUMP, 100);
    assert_eq!(r.application_threads.len(), 1);
    assert_eq!(r.jvm_threads.len(), 1);

    let app = &r.application_threads[0];
    assert_eq!(app.name, "main");
    assert_eq!(app.id, 1);
    assert!(!app.daemon);
    assert_eq!(app.prio, 5);
    assert_eq!(app.os_thread_prio, 0);
    // First observation of the name: the CPU delta is zero.
    assert_eq!(app.cpu_nanos, 0);
    assert_eq!(app.elapsed_nanos, 12_500_000_000);
    assert_eq!(app.allocated, "66851K");
    assert_eq!(app.defined_classes, 665);
    assert_eq!(app.thread_id, "0x00007f7088028ab0");
    assert_eq!(app.os_thread_id, "0x4b25");
    assert_eq!(app.status, "RUNNABLE");
    assert_eq!(app.last_known_java_stack_pointer, "0x00007f708f242000");

    let jvm = &r.jvm_threads[0];
    assert_eq!(jvm.name, "GC Thread#0");
    assert_eq!(jvm.os_thread_prio, 0);
    assert_eq!(jvm.cpu_nanos, 0);
    assert_eq!(jvm.elapsed_nanos, 12_490_000_000);
    assert_eq!(jvm.thread_id, "0x00007f708805d800");
    assert_eq!(jvm.os_thread_id, "0x4b2a");
    assert_eq!(jvm.status, "runnable");
}

#[test]
fn census_counts_each_shape_separately() {
    let mut metrics = MetricsCache::new();
    let mut cache = ThreadCache::new();
    let r = parse_threads(&mut metrics, &mut cache, DUMP, 100);
    assert_eq!(r.thread_count_application.name, "ThreadCountApplication");
    assert_eq!(r.thread_count_application.values.len(), 1);
    let a = &r.thread_count_application.values[0];
    assert_eq!(a.time, 100);
    assert_eq!(a.runnable_count, 1);
    assert_eq!(a.new_count, 0);
    assert_eq!(a.waiting_count, 0);
    assert_eq!(a.timed_waiting_count, 0);
    assert_eq!(a.blocked_count, 0);

    assert_eq!(r.thread_count_jvm.name, "ThreadCountJvm");
    let j = &r.thread_count_jvm.values[0];
    assert_eq!(j.time, 100);
    assert_eq!(j.runnable_count, 1);
    assert_eq!(j.new_count, 0);
    assert_eq!(j.waiting_count, 0);
    // JVM threads have no separate timed-waiting bucket.
    assert_eq!(j.timed_waiting_count, 0);
    assert_eq!(j.blocked_count, 0);
}

#[test]
fn a_hash_token_marks_the_application_shape() {
    let app_block = "\"w\" #7 prio=5 os_prio=0 cpu=1.00ms elapsed=1.00s tid=0x1 nid=0x2  [0x3]\n   java.lang.Thread.State: TIMED_WAITING (sleeping)\n\n";
    let jvm_block = "\"w2\" os_prio=0 cpu=1.00ms elapsed=1.00s tid=0x1 nid=0x2 waiting on condition\n\n";
    let mut metrics = MetricsCache::new();
    let mut cache = ThreadCache::new();
    let r = parse_threads(&mut metrics, &mut cache, app_block, 1);
    assert_eq!(r.application_threads.len(), 1);
    assert_eq!(r.jvm_threads.len(), 0);
    assert_eq!(r.application_threads[0].id, 7);
    assert_eq!(r.application_threads[0].status, "TIMED_WAITING (sleeping)");
    assert_eq!(r.thread_count_application.values[0].timed_waiting_count, 1);
    assert_eq!(r.thread_count_jvm.values[0].timed_waiting_count, 0);

    let mut metrics2 = MetricsCache::new();
    let mut cache2 = ThreadCache::new();
    let r2 = parse_threads(&mut metrics2, &mut cache2, jvm_block, 1);
    assert_eq!(r2.application_threads.len(), 0);
    assert_eq!(r2.jvm_threads.len(), 1);
    assert_eq!(r2.thread_count_jvm.values[0].waiting_count, 1);
    assert_eq!(r2.thread_count_application.values[0].waiting_count, 0);
}

#[test]
fn daemon_flag_and_quoted_names() {
    let block = "\"poll \"fast\" worker\" #9 daemon prio=9 os_prio=0 cpu=0.10ms elapsed=0.20s tid=0x1 nid=0x2  [0x0]\n   java.lang.Thread.State: WAITING (parking)\n\n";
    let mut metrics = MetricsCache::new();
    let mut cache = ThreadCache::new();
    let r = parse_threads(&mut metrics, &mut cache, block, 1);
    assert_eq!(r.application_threads.len(), 1);
    let t = &r.application_threads[0];
    // The name runs from the first quote to the last quote of the header,
    // so internal quotes stay part of the name.
    assert_eq!(t.name, "poll \"fast\" worker");
    assert!(t.daemon);
    assert_eq!(t.prio, 9);
    assert_eq!(t.status, "WAITING (parking)");
}

#[test]
fn cpu_delta_cache_reports_absolute_differences() {
    let mut cache = ThreadCache::new();
    // Cumulative observations 10.0ms, 15.0ms, 12.0ms for one name.
    let d1 = update_thread_cache(&mut cache, 10_000_000, String::from("worker"), false);
    let d2 = update_thread_cache(&mut cache, 15_000_000, String::from("worker"), false);
    let d3 = update_thread_cache(&mut cache, 12_000_000, String::from("worker"), false);
    assert_eq!(d1, 0);
    assert_eq!(d2, 5_000_000);
    assert_eq!(d3, 3_000_000);
}

#[test]
fn cpu_delta_cache_is_keyed_by_name() {
    let mut cache = ThreadCache::new();
    assert_eq!(update_thread_cache(&mut cache, 100, String::from("a"), false), 0);
    assert_eq!(update_thread_cache(&mut cache, 100, String::from("b"), true), 0);
    assert_eq!(update_thread_cache(&mut cache, 150, String::from("a"), false), 50);
    assert_eq!(cache.entries.len(), 2);
    assert_eq!(cache.entries[1].name, "b");
    assert!(cache.entries[1].jvm_thread);
}

#[test]
fn deltas_span_polls_through_the_cache() {
    let first = "\"main\" #1 prio=5 os_prio=0 cpu=250.00ms elapsed=1.00s tid=0x1 nid=0x2  [0x0]\n   java.lang.Thread.State: RUNNABLE\n\n";
    let second = "\"main\" #1 prio=5 os_prio=0 cpu=260.00ms elapsed=2.00s tid=0x1 nid=0x2  [0x0]\n   java.lang.Thread.State: RUNNABLE\n\n";
    let mut metrics = MetricsCache::new();
    let mut cache = ThreadCache::new();
    let r1 = parse_threads(&mut metrics, &mut cache, first, 1);
    assert_eq!(r1.application_threads[0].cpu_nanos, 0);
    let r2 = parse_threads(&mut metrics, &mut cache, second, 2);
    assert_eq!(r2.application_threads[0].cpu_nanos, 10_000_000);
    // The census series kept its first entry and gained one.
    assert_eq!(r2.thread_count_application.values.len(), 2);
    assert_eq!(r2.thread_count_application.values[0].time, 1);
    assert_eq!(r2.thread_count_application.values[1].time, 2);
}

#[test]
fn blocks_without_quoted_header_are_skipped() {
    let mut metrics = MetricsCache::new();
    let mut cache = ThreadCache::new();
    let r = parse_threads(&mut metrics, &mut cache, "no threads here\n\njust text", 1);
    assert_eq!(r.application_threads.len(), 0);
    assert_eq!(r.jvm_threads.len(), 0);
    assert_eq!(r.thread_count_application.values.len(), 1);
    assert_eq!(r.thread_count_application.values[0].runnable_count, 0);
}
