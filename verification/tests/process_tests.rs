use servicio_rust::process::Process;

fn with_cmd(cmd: &str) -> Process {
    Process {
        pid: 1,
        name: "p".to_string(),
        cmd_line: cmd.to_string(),
        vsz: 0,
        rss: 0,
        memory_usage: 0,
        cpu_usage: 0,
    }
}

#[test]
fn container_id_follows_id_flag() {
    let p = with_cmd("/usr/bin/containerd-shim-runc-v2 -namespace moby -id 3f2a9c -address /run/containerd.sock");
    assert_eq!(p.get_container_id(), "3f2a9c");
}

#[test]
fn container_id_without_flag_is_na() {
    assert_eq!(with_cmd("python3 app.py").get_container_id(), "N/A");
    assert_eq!(with_cmd("").get_container_id(), "N/A");
    assert_eq!(with_cmd("   \t  ").get_container_id(), "N/A");
}

#[test]
fn container_id_flag_at_end_is_na() {
    assert_eq!(with_cmd("shim -namespace moby -id").get_container_id(), "N/A");
}

#[test]
fn container_id_takes_first_flag() {
    assert_eq!(with_cmd("x -id first -id second").get_container_id(), "first");
    assert_eq!(with_cmd("-id -id value").get_container_id(), "-id");
}

#[test]
fn container_id_splits_on_any_whitespace() {
    assert_eq!(with_cmd("  shim\t-id\n\nabc  ").get_container_id(), "abc");
    assert_eq!(with_cmd("shim\u{3000}-id\u{a0}xyz\u{2003}tail").get_container_id(), "xyz");
}

#[test]
fn container_id_flag_must_be_whole_word() {
    assert_eq!(with_cmd("shim --id abc -idx def").get_container_id(), "N/A");
    assert_eq!(with_cmd("shim -id=abc").get_container_id(), "N/A");
}

#[test]
fn container_id_keeps_non_ascii() {
    assert_eq!(with_cmd("run -id ñandú-9").get_container_id(), "ñandú-9");
}

#[test]
fn clone_keeps_every_field() {
    let p = with_cmd("a -id b");
    let q = p.clone();
    assert_eq!((q.pid, q.name.as_str(), q.cmd_line.as_str()), (1, "p", "a -id b"));
}
