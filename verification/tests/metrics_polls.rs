//! Heap summary parsing per collector family, the native-memory merge,
//! append-only series growth, and reset.

use jvm_monitor::metrics::{merge_native_memory, parse_heap_figures, parse_name_reserved_committed,
    HeapFigures, PollError};
use jvm_monitor::model::{reset, MetricsCache, NamedMetric, TotalMemoryMetricValue};

const PARALLEL_HEAP: &str = " PSYoungGen      total 2560K, used 100K [0x00000000ffd00000, 0x0000000100000000)\n  eden space 2048K, 4% used\n ParOldGen       total 7168K, used 200K [0x00000000ff600000, 0x00000000ffd00000)\n  object space 7168K, 2% used\n Metaspace       used 6366K, committed 6528K, reserved 1114112K\n  class space    used 636K, committed 704K, reserved 1048576K\n";

const NMT_OUTPUT: &str = "12345:\n\nNative Memory Tracking:\n\nTotal: reserved=1861506022, committed=102342374\n\n-                 Java Heap (reserved=536870912, committed=34603008)\n                            (mmap: reserved=536870912, committed=34603008)\n\n-                     Class (reserved=1082459961, committed=7219129)\n\n-                    Thread (reserved=23662400, committed=23662400)\n\n-                 Metaspace (reserved=1090519040, committed=14680064)\n\n-                      Code (reserved=253796382, committed=11248670)\n\n-        Native Memory Tracking (reserved=3624840, committed=3624840)\n\n";

#[test]
fn parallel_gc_heap_used_sums_young_and_old() {
    let f = parse_heap_figures(PARALLEL_HEAP).expect("no error marker");
    assert_eq!(f.heap_used, Some(307_200));
    assert_eq!(f.metaspace_used, Some(6366 * 1024));
    assert_eq!(f.metaspace_committed, Some(6528 * 1024));
    assert_eq!(f.metaspace_reserved, Some(1_114_112 * 1024));
    assert_eq!(f.class_space_used, Some(636 * 1024));
    assert_eq!(f.class_space_committed, Some(704 * 1024));
    assert_eq!(f.class_space_reserved, Some(1_048_576 * 1024));
}

#[test]
fn serial_gc_heap_used_sums_generations() {
    let text = " def new generation   total 4416K, used 300K [0x0, 0x1)\n tenured generation   total 9600K, used 400K [0x1, 0x2)\n";
    let f = parse_heap_figures(text).expect("no error marker");
    assert_eq!(f.heap_used, Some(700 * 1024));
}

#[test]
fn z_gc_heap_used_is_direct() {
    let text = " ZHeap           used 50M, capacity 512M, max capacity 512M\n";
    let f = parse_heap_figures(text).expect("no error marker");
    assert_eq!(f.heap_used, Some(50 * 1024 * 1024));
}

#[test]
fn shenandoah_heap_used_comes_from_following_line() {
    let text = "Shenandoah Heap\n 512K max, 256K committed, 100K used\n";
    let f = parse_heap_figures(text).expect("no error marker");
    assert_eq!(f.heap_used, Some(100 * 1024));
}

#[test]
fn heap_figures_target_not_found() {
    let text = "12345:\ncom.sun.tools.attach.AttachNotSupportedException: java.io.IOException: No such process\n";
    assert_eq!(parse_heap_figures(text), Err(PollError::TargetNotFound));
}

#[test]
fn merge_appends_one_entry_per_category() {
    let mut cache = MetricsCache::new();
    let figures = parse_heap_figures(PARALLEL_HEAP).expect("no error marker");
    let m = merge_native_memory(&mut cache, NMT_OUTPUT, figures, 100).expect("merge succeeds");
    assert_eq!(m.total_memory.name, "Total");
    assert_eq!(m.total_memory.values.len(), 1);
    assert_eq!(m.total_memory.values[0].time, 100);
    assert_eq!(m.total_memory.values[0].reserved, Some(1_861_506_022));
    assert_eq!(m.total_memory.values[0].committed, Some(102_342_374));
    assert_eq!(m.heap.values.len(), 1);
    assert_eq!(m.heap.values[0].reserved, Some(536_870_912));
    assert_eq!(m.heap.values[0].committed, Some(34_603_008));
    assert_eq!(m.heap.values[0].used, Some(307_200));
    assert_eq!(m.class.values.len(), 1);
    assert_eq!(m.class.values[0].reserved, Some(1_048_576 * 1024));
    assert_eq!(m.class.values[0].committed, Some(704 * 1024));
    assert_eq!(m.class.values[0].used, Some(636 * 1024));
    assert_eq!(m.class.values[0].class_count, 0);
    assert_eq!(m.metaspace.values.len(), 1);
    assert_eq!(m.metaspace.values[0].used, Some(6366 * 1024));
    assert_eq!(m.thread.values.len(), 1);
    assert_eq!(m.thread.values[0].reserved, Some(23_662_400));
    assert_eq!(m.thread.values[0].thread_count, 0);
    let names: Vec<&str> = m.other.iter().map(|g| g.name.as_str()).collect();
    assert_eq!(names, vec!["Code", "Native Memory Tracking"]);
    assert_eq!(m.other[0].values.len(), 1);
    assert_eq!(m.other[0].values[0].reserved, Some(253_796_382));
}

#[test]
fn series_grow_by_one_per_poll_with_nondecreasing_times() {
    let mut cache = MetricsCache::new();
    let figures = parse_heap_figures(PARALLEL_HEAP).expect("no error marker");
    merge_native_memory(&mut cache, NMT_OUTPUT, figures, 100).expect("first poll");
    let m = merge_native_memory(&mut cache, NMT_OUTPUT, figures, 200).expect("second poll");
    assert_eq!(m.total_memory.values.len(), 2);
    assert_eq!(m.class.values.len(), 2);
    assert_eq!(m.heap.values.len(), 2);
    assert_eq!(m.metaspace.values.len(), 2);
    assert_eq!(m.thread.values.len(), 2);
    assert_eq!(m.total_memory.values[0].time, 100);
    assert_eq!(m.total_memory.values[1].time, 200);
    for g in &m.other {
        assert_eq!(g.values.len(), 2);
        assert!(g.values[0].time <= g.values[1].time);
    }
}

#[test]
fn reset_clears_every_series_and_the_region_map() {
    let mut cache = MetricsCache::new();
    let figures = parse_heap_figures(PARALLEL_HEAP).expect("no error marker");
    merge_native_memory(&mut cache, NMT_OUTPUT, figures, 100).expect("poll");
    reset(&mut cache);
    let m = merge_native_memory(&mut cache, NMT_OUTPUT, figures, 200).expect("poll after reset");
    assert_eq!(m.total_memory.values.len(), 1);
    assert_eq!(m.heap.values.len(), 1);
    assert_eq!(m.other.len(), 2);
    assert_eq!(m.other[0].values.len(), 1);
}

#[test]
fn merge_errors_leave_the_cache_untouched() {
    let mut cache = MetricsCache::new();
    let figures = HeapFigures::empty();
    let not_found = "java.io.IOException: No such process\n";
    assert_eq!(
        merge_native_memory(&mut cache, not_found, figures, 1).err(),
        Some(PollError::TargetNotFound)
    );
    let disabled = "12345:\nNative memory tracking is not enabled\n";
    assert_eq!(
        merge_native_memory(&mut cache, disabled, figures, 2).err(),
        Some(PollError::NmtDisabled)
    );
    let good = "Total: reserved=10, committed=5\n\n";
    let m = merge_native_memory(&mut cache, good, figures, 3).expect("merge succeeds");
    assert_eq!(m.total_memory.values.len(), 1);
    assert_eq!(m.total_memory.values[0].time, 3);
}

#[test]
fn record_group_without_trailing_blank_line_is_dropped() {
    let mut cache = MetricsCache::new();
    let figures = HeapFigures::empty();
    let text = "Total: reserved=10, committed=5";
    let m = merge_native_memory(&mut cache, text, figures, 1).expect("merge succeeds");
    assert_eq!(m.total_memory.values.len(), 0);
}

#[test]
fn region_name_joins_tokens_before_reserved() {
    let (name, reserved, committed) = parse_name_reserved_committed(vec![
        "",
        "Native",
        "Memory",
        "Tracking",
        "reserved=100",
        "committed=50",
    ]);
    assert_eq!(name.as_deref(), Some("Native Memory Tracking"));
    assert_eq!(reserved, Some(100));
    assert_eq!(committed, Some(50));
}

#[test]
fn named_metric_starts_empty() {
    let m: NamedMetric<TotalMemoryMetricValue> = NamedMetric::new(String::from("Total"));
    assert_eq!(m.name, "Total");
    assert!(m.values.is_empty());
}

#[test]
fn poll_error_messages() {
    assert_eq!(PollError::TargetNotFound.message(), "No such process");
    assert!(PollError::NmtDisabled.message().contains("-XX:NativeMemoryTracking=summary"));
}
