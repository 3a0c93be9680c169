use cubostratusc::state::cgroups::parse_cgroups;
use cubostratusc::state::thread::parse_thread;
use cubostratusc::state::ThreadState;

const STATUS: &str = "Name:\tbash\nUmask:\t0022\nState:\tS (sleeping)\nTgid:\t1234\nNgid:\t0\nPid:\t1235\nPPid:\t1\nTracerPid:\t0\nUid:\t1000\t1000\t1000\t1000\nGid:\t100\t100\t100\t100\nFDSize:\t256\n";

#[test]
fn status_file_fields() {
    let t = parse_thread(STATUS.as_bytes()).unwrap();
    assert_eq!(t.comm, "bash");
    assert_eq!(t.state, ThreadState::Sleeping);
    assert_eq!((t.pid, t.tid, t.ppid, t.uid, t.gid), (1234, 1235, 1, 1000, 100));
    assert!(t.cgroups.is_none());
}

#[test]
fn status_file_without_umask() {
    let s = STATUS.replace("Umask:\t0022\n", "").replace("S (sleeping)", "Z (zombie)");
    let t = parse_thread(s.as_bytes()).unwrap();
    assert_eq!(t.state, ThreadState::Zombie);
    assert_eq!(t.pid, 1234);
}

#[test]
fn status_file_rejects_bad_input() {
    assert!(parse_thread(b"").is_none());
    assert!(parse_thread(STATUS.replace("S (sleeping)", "Q (queued)").as_bytes()).is_none());
    assert!(parse_thread(STATUS.replace("Uid:\t1000", "Uid:\t99999999999").as_bytes()).is_none());
    assert!(parse_thread(STATUS.replace("Tgid:\t1234", "Tgid:\tx").as_bytes()).is_none());
}

#[test]
fn cgroup_lines() {
    let g = parse_cgroups(b"7:cpu,cpuacct:/user.slice\n1:name=systemd:/init.scope\n");
    assert_eq!(g.len(), 2);
    assert_eq!(g[0].id, 7);
    assert_eq!(g[0].controllers, vec!["cpu".to_string(), "cpuacct".to_string()]);
    assert_eq!(g[0].path, "/user.slice");
    assert_eq!(g[1].id, 1);
    assert_eq!(g[1].controllers, vec!["name=systemd".to_string()]);
    assert_eq!(g[1].path, "/init.scope");
}

#[test]
fn cgroup_scan_stops_at_bad_line() {
    let g = parse_cgroups(b"3:memory:/a\n300:cpu:/b\n4:pids:/c\n");
    assert_eq!(g.len(), 1);
    assert_eq!(g[0].path, "/a");
    assert!(parse_cgroups(b"").is_empty());
    assert!(parse_cgroups(b"5:cpu:/no-newline").is_empty());
}
