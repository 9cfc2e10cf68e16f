//! The process directory lookup: line shapes, path joining, and the
//! self-filtering of the monitoring tool's own launcher.

use jvm_monitor::processes::parse_jvm_processes;

#[test]
fn directory_lines_and_paths() {
    let text = "12345 com.example.Main /opt/app/main.jar --port 80\n67890 org.example.Worker\nshort\n";
    let r = parse_jvm_processes(text);
    assert_eq!(r.processes.len(), 2);
    assert_eq!(r.processes[0].id, "12345");
    assert_eq!(r.processes[0].name, "com.example.Main");
    assert_eq!(r.processes[0].path.as_deref(), Some("/opt/app/main.jar --port 80"));
    assert_eq!(r.processes[1].id, "67890");
    assert_eq!(r.processes[1].name, "org.example.Worker");
    assert_eq!(r.processes[1].path, None);
}

#[test]
fn own_launcher_line_is_excluded() {
    // The middle line matches the two-token minimum but names the tool's
    // own diagnostic-launcher class and is filtered out.
    let text = "111 com.example.A\n222 jdk.jcmd/sun.tools.jcmd.JCmd\n333 com.example.B\n";
    let r = parse_jvm_processes(text);
    assert_eq!(r.processes.len(), 2);
    assert_eq!(r.processes[0].id, "111");
    assert_eq!(r.processes[1].id, "333");
}

#[test]
fn lines_with_fewer_than_two_tokens_are_skipped() {
    let r = parse_jvm_processes("lonely\n\nword\n");
    assert_eq!(r.processes.len(), 0);
}

#[test]
fn order_is_preserved() {
    let text = "3 c\n1 a\n2 b\n";
    let r = parse_jvm_processes(text);
    let ids: Vec<&str> = r.processes.iter().map(|p| p.id.as_str()).collect();
    assert_eq!(ids, vec!["3", "1", "2"]);
}
