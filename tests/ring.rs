use cubostratusc::collector::{
    get_buffer_readsize, open_failure_outcome, OpenFailure, RingBufferCollector, Step, LARGE_WINDOW,
    RING_BUF_SIZE,
};
use cubostratusc::error::Error;
use cubostratusc::syscall::Syscall;
use cubostratusc::value::Value;

fn header(ts: u64, tid: u64, len: u32, id: u16) -> Vec<u8> {
    let mut b = Vec::new();
    b.extend_from_slice(&ts.to_le_bytes());
    b.extend_from_slice(&tid.to_le_bytes());
    b.extend_from_slice(&len.to_le_bytes());
    b.extend_from_slice(&id.to_le_bytes());
    b
}

/// An `open` exit event: fd, path, flags and mode.
fn open_exit_event(ts: u64, fd: i64, path: &[u8], len: u32) -> Vec<u8> {
    let mut b = header(ts, 42, len, 3);
    let mut name = path.to_vec();
    name.push(0);
    for l in [8u16, name.len() as u16, 4, 4] {
        b.extend_from_slice(&l.to_le_bytes());
    }
    b.extend_from_slice(&fd.to_le_bytes());
    b.extend_from_slice(&name);
    b.extend_from_slice(&0x241u32.to_le_bytes());
    b.extend_from_slice(&0o644u32.to_le_bytes());
    b
}

/// A `close` enter event carrying `fd`: 22 + 2 + 8 bytes.
fn close_enter_event(fd: i64) -> Vec<u8> {
    let mut b = header(1_000_000_000, 1, 32, 4);
    b.extend_from_slice(&8u16.to_le_bytes());
    b.extend_from_slice(&fd.to_le_bytes());
    b
}

fn place(data: &mut Vec<u8>, at: usize, bytes: &[u8]) {
    if data.len() < at + bytes.len() {
        data.resize(at + bytes.len(), 0);
    }
    data[at..at + bytes.len()].copy_from_slice(bytes);
}

fn param<'a>(s: &'a Syscall, name: &str) -> &'a Value {
    s.param(&name.to_string()).unwrap()
}

fn fd_of(s: &Syscall) -> i64 {
    match param(s, "fd") {
        Value::Int64(v) => *v,
        v => panic!("unexpected {:?}", v),
    }
}

/// Runs one drain step the way a device-backed collector does.
fn drain_once(c: &mut RingBufferCollector, heads: &Vec<u32>, data: &[Vec<u8>]) -> (Option<Syscall>, Option<bool>) {
    match c.next_step(heads) {
        Step::Event(cpu) => (c.take_event(cpu, &data[cpu]), None),
        Step::Refresh { wait } => {
            c.refresh(heads);
            (None, Some(wait))
        }
    }
}

#[test]
fn empty_ring_backs_off_then_resets() {
    let mut c = RingBufferCollector::new();
    c.add_device(3, 0);
    c.add_device(4, 0);
    let heads = vec![0u32, 0];
    let data = vec![Vec::new(), Vec::new()];
    let mut waits = Vec::new();
    for _ in 0..5 {
        let (ev, wait) = drain_once(&mut c, &heads, &data);
        assert!(ev.is_none());
        waits.push(wait.unwrap());
    }
    assert_eq!(waits, vec![true, true, true, true, false]);
    assert_eq!(c.consecutive_waits(), 0);
    assert_eq!(c.tail(0), 0);
    assert_eq!(c.tail(1), 0);
}

#[test]
fn busy_ring_never_waits() {
    let mut c = RingBufferCollector::new();
    c.add_device(3, 0);
    let heads = vec![LARGE_WINDOW + 1];
    assert!(!c.check_next_wait(&heads));
    assert_eq!(c.consecutive_waits(), 0);
    let quiet = vec![LARGE_WINDOW];
    assert!(c.check_next_wait(&quiet));
}

#[test]
fn single_open_event_on_cpu0() {
    let ev = open_exit_event(1_700_000_000_000_000_000, 7, b"/tmp", 47);
    let data = vec![ev];
    let heads = vec![47u32];
    let mut c = RingBufferCollector::new();
    c.add_device(3, 0);
    let (none, wait) = drain_once(&mut c, &heads, &data);
    assert!(none.is_none());
    assert_eq!(wait, Some(true));
    assert_eq!(c.remaining(0), 47);
    let (got, _) = drain_once(&mut c, &heads, &data);
    let s = got.unwrap();
    assert_eq!(s.ts, 1_700_000_000);
    assert_eq!(s.timestamp().unwrap(), "2023-11-14T22:13:20Z");
    assert_eq!(s.name, "open");
    let names: Vec<&str> = s.params.iter().map(|(n, _)| n.as_str()).collect();
    assert_eq!(names, vec!["fd", "name", "flags", "mode"]);
    assert_eq!(*param(&s, "fd"), Value::Int64(7));
    assert_eq!(*param(&s, "name"), Value::String("/tmp".to_string()));
    assert_eq!(*param(&s, "flags"), Value::UInt32(577));
    assert_eq!(*param(&s, "mode"), Value::UInt32(420));
    assert_eq!(c.remaining(0), 0);
    let (none, _) = drain_once(&mut c, &heads, &data);
    assert!(none.is_none());
    assert_eq!(c.tail(0), 47);
}

#[test]
fn unknown_id_is_dropped_and_consumed() {
    let ev = header(5, 6, 22, 65535);
    let data = vec![ev];
    let heads = vec![22u32];
    let mut c = RingBufferCollector::new();
    c.add_device(3, 0);
    drain_once(&mut c, &heads, &data);
    assert_eq!(c.remaining(0), 22);
    let (got, wait) = drain_once(&mut c, &heads, &data);
    assert!(got.is_none());
    assert!(wait.is_none());
    assert_eq!(c.remaining(0), 0);
    drain_once(&mut c, &heads, &data);
    assert_eq!(c.tail(0), 22);
}

#[test]
fn event_straddling_ring_end_decodes() {
    let ring = RING_BUF_SIZE as usize;
    let start = ring - 10;
    let ev = open_exit_event(1_700_000_000_000_000_000, 7, b"/tmp", 51);
    let mut bytes = vec![0u8; 2 * ring];
    place(&mut bytes, start, &ev);
    let data = vec![bytes];
    let head = (ev.len() - 10) as u32;
    let heads = vec![head];
    let mut c = RingBufferCollector::new();
    c.add_device(3, start as u32);
    drain_once(&mut c, &heads, &data);
    assert_eq!(c.remaining(0), 51);
    let (got, _) = drain_once(&mut c, &heads, &data);
    let s = got.unwrap();
    assert_eq!(s.name, "open");
    assert_eq!(*param(&s, "name"), Value::String("/tmp".to_string()));
    assert_eq!(*param(&s, "mode"), Value::UInt32(420));
    drain_once(&mut c, &heads, &data);
    assert_eq!(c.tail(0), head);
}

#[test]
fn multi_cpu_order_is_per_cpu_and_low_first() {
    let mut d0 = close_enter_event(10);
    d0.extend(close_enter_event(11));
    let mut d1 = close_enter_event(20);
    d1.extend(close_enter_event(21));
    let data = vec![d0, d1];
    let heads = vec![64u32, 64];
    let mut c = RingBufferCollector::new();
    c.add_device(3, 0);
    c.add_device(4, 0);
    drain_once(&mut c, &heads, &data);
    let mut fds = Vec::new();
    for _ in 0..4 {
        let (got, wait) = drain_once(&mut c, &heads, &data);
        assert!(wait.is_none());
        fds.push(fd_of(&got.unwrap()));
    }
    assert_eq!(fds, vec![10, 11, 20, 21]);
    let (got, wait) = drain_once(&mut c, &heads, &data);
    assert!(got.is_none());
    assert!(wait.is_some());
    assert_eq!(c.tail(0), 64);
    assert_eq!(c.tail(1), 64);
}

#[test]
fn each_event_returned_once_per_window() {
    let mut d = Vec::new();
    for fd in 0..5i64 {
        d.extend(close_enter_event(fd));
    }
    let total = d.len() as u32;
    let data = vec![d];
    let heads = vec![total];
    let mut c = RingBufferCollector::new();
    c.add_device(3, 0);
    drain_once(&mut c, &heads, &data);
    let mut seen = Vec::new();
    let mut sum = 0u32;
    while c.remaining(0) > 0 {
        let before = c.remaining(0);
        let (got, _) = drain_once(&mut c, &heads, &data);
        sum += before - c.remaining(0);
        seen.push(fd_of(&got.unwrap()));
    }
    assert_eq!(seen, vec![0, 1, 2, 3, 4]);
    assert_eq!(sum, total);
}

#[test]
fn malformed_length_drops_rest_of_window() {
    let data = vec![header(1, 1, 0, 4)];
    let heads = vec![40u32];
    let mut c = RingBufferCollector::new();
    c.add_device(3, 0);
    drain_once(&mut c, &heads, &data);
    let (got, _) = drain_once(&mut c, &heads, &data);
    assert!(got.is_none());
    assert_eq!(c.remaining(0), 0);
    drain_once(&mut c, &heads, &data);
    assert_eq!(c.tail(0), 40);
}

#[test]
fn tail_wraps_modulo_ring_size() {
    let ring = RING_BUF_SIZE;
    let mut c = RingBufferCollector::new();
    c.add_device(3, ring - 4);
    let heads = vec![6u32];
    c.refresh(&heads);
    assert_eq!(c.remaining(0), 10);
    c.refresh(&heads);
    assert_eq!(c.tail(0), 6);
    assert!(c.tail(0) < ring);
}

#[test]
fn readsize_is_forward_distance() {
    assert_eq!(get_buffer_readsize(0, 0), 0);
    assert_eq!(get_buffer_readsize(10, 30), 20);
    assert_eq!(get_buffer_readsize(RING_BUF_SIZE - 5, 3), 8);
}

#[test]
fn busy_device_stops_start_and_releases_fds() {
    let mut c = RingBufferCollector::new();
    c.add_device(5, 0);
    c.add_device(6, 0);
    let r = open_failure_outcome(OpenFailure::Busy);
    assert!(matches!(r, Err(Error::TooManyCollectors)));
    assert_eq!(c.release_all(), vec![5, 6]);
    assert_eq!(c.num_devices(), 0);
    assert!(c.release_all().is_empty());
}

#[test]
fn open_failures_are_classified() {
    assert!(open_failure_outcome(OpenFailure::NoDevice).is_ok());
    assert!(matches!(open_failure_outcome(OpenFailure::Other), Err(Error::DeviceError)));
}
