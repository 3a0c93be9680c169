use cubostratusc::bytes::{find_nul, read_u16, read_u32, read_u64};
use cubostratusc::config::{resolve_config_path, ETC_CONFIG_PATH, VAR_LIB_CONFIG_PATH};
use cubostratusc::error::Error;
use cubostratusc::state::{ThreadInfo, ThreadRegistry, ThreadState};
use cubostratusc::syscall::syscall_table::{SyscallTable, Syscalls};
use cubostratusc::syscall::{decode_event, Category, Flags, ParamFormat, ParamType, Syscall, SyscallHdr, SyscallParam};
use cubostratusc::value::Value;

fn param(kind: ParamType) -> SyscallParam {
    SyscallParam { name: "p", kind, fmt: ParamFormat::Dec }
}

#[test]
fn little_endian_reads() {
    let b = [0x01u8, 0x02, 0x03, 0x04, 0x05, 0x06, 0x07, 0x08];
    assert_eq!(read_u16(&b, 0), 0x0201);
    assert_eq!(read_u32(&b, 4), 0x0807_0605);
    assert_eq!(read_u64(&b, 0), 0x0807_0605_0403_0201);
    assert_eq!(find_nul(b"ab\0cd", 0), 2);
    assert_eq!(find_nul(b"abcd", 1), 4);
}

#[test]
fn header_read_and_bounds() {
    let mut b = Vec::new();
    b.extend_from_slice(&9u64.to_le_bytes());
    b.extend_from_slice(&42u64.to_le_bytes());
    b.extend_from_slice(&47u32.to_le_bytes());
    b.extend_from_slice(&3u16.to_le_bytes());
    let h = SyscallHdr::read(&b, 0).unwrap();
    assert_eq!((h.ts, h.tid, h.len, h.id), (9, 42, 47, 3));
    assert!(SyscallHdr::read(&b, 1).is_none());
}

#[test]
fn numeric_params_decode_by_width() {
    let b = (-2i64).to_le_bytes();
    assert_eq!(param(ParamType::Int8).parse(&b, 0), Value::Int8(-2));
    assert_eq!(param(ParamType::Int16).parse(&b, 0), Value::Int16(-2));
    assert_eq!(param(ParamType::Int32).parse(&b, 0), Value::Int32(-2));
    assert_eq!(param(ParamType::Int64).parse(&b, 0), Value::Int64(-2));
    assert_eq!(param(ParamType::Fd).parse(&b, 0), Value::Int64(-2));
    assert_eq!(param(ParamType::Pid).parse(&b, 0), Value::Int64(-2));
    assert_eq!(param(ParamType::ErrNo).parse(&b, 0), Value::Int64(-2));
    assert_eq!(param(ParamType::UInt8).parse(&b, 0), Value::UInt8(0xfe));
    assert_eq!(param(ParamType::UInt16).parse(&b, 0), Value::UInt16(0xfffe));
    assert_eq!(param(ParamType::SyscallId).parse(&b, 0), Value::UInt16(0xfffe));
    assert_eq!(param(ParamType::Uid).parse(&b, 0), Value::UInt32(0xffff_fffe));
    assert_eq!(param(ParamType::Gid).parse(&b, 0), Value::UInt32(0xffff_fffe));
    assert_eq!(param(ParamType::UInt64).parse(&b, 0), Value::UInt64(u64::MAX - 1));
}

#[test]
fn short_or_unsupported_params_are_null() {
    let b = [1u8, 2, 3];
    assert_eq!(param(ParamType::UInt32).parse(&b, 0), Value::Null);
    assert_eq!(param(ParamType::Int64).parse(&b, 2), Value::Null);
    assert_eq!(param(ParamType::UInt8).parse(&b, 3), Value::Null);
    assert_eq!(param(ParamType::SockAddr).parse(&b, 0), Value::Null);
    assert_eq!(param(ParamType::Double).parse(&b, 0), Value::Null);
}

#[test]
fn string_params_stop_at_nul_or_end() {
    assert_eq!(param(ParamType::FsPath).parse(b"/etc\0x", 0), Value::String("/etc".to_string()));
    assert_eq!(param(ParamType::CharBuffer).parse(b"xyz", 1), Value::String("yz".to_string()));
    assert_eq!(param(ParamType::ByteBuffer).parse(b"ab", 5), Value::String(String::new()));
    assert_eq!(
        param(ParamType::CharBuffer).parse(&[b'a', 0xff, 0], 0),
        Value::String("a\u{fffd}".to_string())
    );
}

#[test]
fn table_lookup() {
    let t = SyscallTable::default();
    let m = t.get_syscall_meta(3).unwrap();
    assert_eq!(m.name, "open");
    assert_eq!(m.nparams, 4);
    assert_eq!(t.get_syscall_meta(Syscalls::CloseExit.id() as usize).unwrap().params[0].name, "res");
    assert!(t.get_syscall_meta(15).is_none());
    assert!(t.get_syscall_meta(65535).is_none());
    assert_eq!(Syscalls::GenericEnter.id(), 0);
    assert_eq!(Syscalls::NewSelectExit.id(), 85);
}

/// The bytes of a value of `kind` and the value that decoding them gives.
fn sample(kind: ParamType, i: usize) -> (Vec<u8>, Value) {
    let n = i as i64 + 3;
    match kind {
        ParamType::Fd | ParamType::Pid | ParamType::ErrNo | ParamType::Int64 => (n.to_le_bytes().to_vec(), Value::Int64(n)),
        ParamType::UInt64 => ((n as u64).to_le_bytes().to_vec(), Value::UInt64(n as u64)),
        ParamType::UInt32 | ParamType::Flags32 => ((n as u32).to_le_bytes().to_vec(), Value::UInt32(n as u32)),
        ParamType::UInt16 | ParamType::SyscallId => ((n as u16).to_le_bytes().to_vec(), Value::UInt16(n as u16)),
        ParamType::FsPath | ParamType::CharBuffer | ParamType::ByteBuffer => {
            let s = format!("s{}", i);
            let mut b = s.clone().into_bytes();
            b.push(0);
            (b, Value::String(s))
        },
        k => panic!("no sample for {:?}", k),
    }
}

#[test]
fn every_table_entry_round_trips() {
    let t = SyscallTable::default();
    let mut id = 0usize;
    while let Some(m) = t.get_syscall_meta(id) {
        let mut lens = Vec::new();
        let mut payload = Vec::new();
        let mut expected = Vec::new();
        for (i, p) in m.params.iter().enumerate() {
            let (b, v) = sample(p.kind, i);
            lens.extend_from_slice(&(b.len() as u16).to_le_bytes());
            payload.extend(b);
            expected.push((p.name.to_string(), v));
        }
        let len = (22 + lens.len() + payload.len()) as u32;
        let mut ev = Vec::new();
        ev.extend_from_slice(&3_000_000_000u64.to_le_bytes());
        ev.extend_from_slice(&1u64.to_le_bytes());
        ev.extend_from_slice(&len.to_le_bytes());
        ev.extend_from_slice(&(id as u16).to_le_bytes());
        ev.extend(lens);
        ev.extend(payload);
        let s = decode_event(&t, &ev, 0).unwrap();
        assert_eq!(s.name, m.name);
        assert_eq!(s.ts, 3);
        assert_eq!(s.params, expected);
        id += 1;
    }
    assert_eq!(id, 15);
}

#[test]
fn truncated_length_array_is_no_event() {
    let t = SyscallTable::default();
    let mut ev = Vec::new();
    ev.extend_from_slice(&0u64.to_le_bytes());
    ev.extend_from_slice(&0u64.to_le_bytes());
    ev.extend_from_slice(&30u32.to_le_bytes());
    ev.extend_from_slice(&3u16.to_le_bytes());
    ev.extend_from_slice(&[8, 0, 5, 0]);
    assert!(decode_event(&t, &ev, 0).is_none());
    assert!(decode_event(&t, &ev[..20], 0).is_none());
}

#[test]
fn error_messages() {
    assert_eq!(Error::RingBufferMapping.to_string(), "Unable to map ring buffer device");
    assert_eq!(Error::TooManyCollectors.to_string(), "Too many collectors attached to device");
    assert_eq!(
        Error::DeviceError.to_string(),
        "Insufficient privileges to open device or device not loaded"
    );
    assert_eq!(Error::UnknownConfigPathError.to_string(), "Unable to resolve configuration file path");
    assert_eq!(
        Error::ConfigParseError("missing field `topic`".to_string()).to_string(),
        "Invalid configuration descriptor. Reason: missing field `topic`"
    );
}

#[test]
fn config_path_resolution_order() {
    let env = Some("/tmp/c.toml".to_string());
    assert_eq!(resolve_config_path(true, true, env.clone(), true).unwrap(), ETC_CONFIG_PATH);
    assert_eq!(resolve_config_path(false, true, env.clone(), true).unwrap(), VAR_LIB_CONFIG_PATH);
    assert_eq!(resolve_config_path(false, false, env.clone(), true).unwrap(), "/tmp/c.toml");
    assert!(matches!(resolve_config_path(false, false, None, false), Err(Error::UnknownConfigPathError)));
}

#[test]
fn missing_env_config_file_is_unknown_path() {
    let env = Some("/nonexistent/c.toml".to_string());
    assert!(matches!(resolve_config_path(false, false, env.clone(), false), Err(Error::UnknownConfigPathError)));
    assert_eq!(resolve_config_path(false, true, env, false).unwrap(), VAR_LIB_CONFIG_PATH);
}

#[test]
fn table_entries_carry_category_flags_and_formats() {
    let t = SyscallTable::default();
    let open = t.get_syscall_meta(3).unwrap();
    assert_eq!(open.category, Category::File);
    assert_eq!(open.flags, vec![Flags::CreatesFd, Flags::ModifiesState]);
    let fmts: Vec<ParamFormat> = open.params.iter().map(|p| p.fmt).collect();
    assert_eq!(fmts, vec![ParamFormat::Dec, ParamFormat::Na, ParamFormat::Hex, ParamFormat::Hex]);
    let brk = t.get_syscall_meta(11).unwrap();
    assert_eq!(brk.category, Category::Memory);
    assert_eq!(brk.flags, vec![Flags::OldVersion]);
    assert_eq!(brk.params[0].kind, ParamType::UInt64);
}

#[test]
fn decoded_event_time_is_always_rendered() {
    let s = Syscall { ts: 18_446_744_073, name: String::new(), params: Vec::new() };
    assert_eq!(s.timestamp().unwrap(), "2554-07-21T23:34:33Z");
}

#[test]
fn registry_starts_empty_and_records() {
    let mut r = ThreadRegistry::new();
    assert!(r.threads.is_empty());
    assert_eq!(r.proc_root(), "/proc");
    let info = ThreadInfo {
        comm: "sh".to_string(),
        state: ThreadState::Sleeping,
        pid: 7,
        tid: 7,
        ppid: 1,
        uid: 0,
        gid: 0,
        cgroups: None,
    };
    r.record(7, info.clone());
    r.record(7, ThreadInfo { comm: "bash".to_string(), ..info });
    assert_eq!(r.threads.len(), 1);
    assert_eq!(r.threads[&7].comm, "bash");
}

#[test]
fn repeated_parameter_name_last_wins() {
    let s = Syscall {
        ts: 0,
        name: "x".to_string(),
        params: vec![
            ("a".to_string(), Value::Int8(1)),
            ("b".to_string(), Value::Null),
            ("a".to_string(), Value::Int8(2)),
        ],
    };
    assert_eq!(s.param(&"a".to_string()), Some(&Value::Int8(2)));
    assert_eq!(s.param(&"b".to_string()), Some(&Value::Null));
    assert_eq!(s.param(&"c".to_string()), None);
}

#[test]
fn timestamp_renders_whole_seconds_utc() {
    let s = Syscall { ts: 0, name: String::new(), params: Vec::new() };
    assert_eq!(s.timestamp().unwrap(), "1970-01-01T00:00:00Z");
    let s = Syscall { ts: i64::MAX, name: String::new(), params: Vec::new() };
    assert!(s.timestamp().is_none());
}
