//! The VM information parser: block structure, both heap label families,
//! idempotence, and missing-block tolerance.

use jvm_monitor::vm_info::parse_vm_information;

const SAMPLE: &str = "#\n# JRE version:\n\nVM Arguments:\njvm_args: -Xmx512m -XX:NativeMemoryTracking=summary\njava_command: app.jar --serve\njava_class_path (initial): app.jar\n\nGC Precious Log:\n CPUs: 8 total, 8 available\n Memory: 15893M\n Heap Min Capacity: 8M\n Heap Initial Capacity: 248M\n Heap Max Capacity: 3974M\n\nEnd.\n";

#[test]
fn arguments_and_resources_blocks() {
    let info = parse_vm_information(SAMPLE);
    let args = info.vm_arguments.expect("arguments block present");
    assert_eq!(args.jvm_args.as_deref(), Some("-Xmx512m -XX:NativeMemoryTracking=summary"));
    assert_eq!(args.java_command.as_deref(), Some("app.jar --serve"));
    let res = info.vm_resources.expect("resources block present");
    assert_eq!(res.cpus.as_deref(), Some("8 total, 8 available"));
    assert_eq!(res.memory.as_deref(), Some("15893M"));
    assert_eq!(res.heap_size_min.as_deref(), Some("8M"));
    assert_eq!(res.heap_size_init.as_deref(), Some("248M"));
    assert_eq!(res.heap_size_max.as_deref(), Some("3974M"));
}

#[test]
fn parse_twice_yields_identical_snapshots() {
    let a = parse_vm_information(SAMPLE);
    let b = parse_vm_information(SAMPLE);
    assert_eq!(a, b);
}

#[test]
fn region_based_capacity_labels() {
    let text = "GC Precious Log:\n CPUs: 4 total, 4 available\n Min Capacity: 8M\n Initial Capacity: 256M\n Max Capacity: 4096M\n\n";
    let info = parse_vm_information(text);
    let res = info.vm_resources.expect("resources block present");
    assert_eq!(res.heap_size_min.as_deref(), Some("8M"));
    assert_eq!(res.heap_size_init.as_deref(), Some("256M"));
    assert_eq!(res.heap_size_max.as_deref(), Some("4096M"));
    assert!(info.vm_arguments.is_none());
}

#[test]
fn missing_gc_block_leaves_resources_empty() {
    let text = "VM Arguments:\njvm_args: -Xms16m\n\nSome other block:\nwith lines\n";
    let info = parse_vm_information(text);
    assert!(info.vm_resources.is_none());
    let args = info.vm_arguments.expect("arguments block present");
    assert_eq!(args.jvm_args.as_deref(), Some("-Xms16m"));
    assert_eq!(args.java_command, None);
}

#[test]
fn empty_input_yields_empty_snapshot() {
    let info = parse_vm_information("");
    assert!(info.vm_arguments.is_none());
    assert!(info.vm_resources.is_none());
}
