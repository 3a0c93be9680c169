//! The `/proc/<pid>/status` format: the leading fields that name a process
//! and give its state, ids and credentials.
use vstd::prelude::*;
use vstd::string::StringSliceAdditionalSpecFns;
use crate::state::parsers::{
    line_end, line_ending, number_at, parse_number, past_newline, scan_line, skip_line_ending, skip_past_newline,
    tag, tag_at, Class,
};
use crate::state::{ThreadInfo, ThreadState};
use crate::syscall::{lossy_string, utf8_lossy};

verus! {

pub const NAME_TAG: &'static str = "Name:\t";
pub const UMASK_TAG: &'static str = "Umask:\t";
pub const STATE_TAG: &'static str = "State:\t";
pub const TGID_TAG: &'static str = "Tgid:\t";
pub const PID_TAG: &'static str = "Pid:\t";
pub const PPID_TAG: &'static str = "PPid:\t";
pub const UID_TAG: &'static str = "Uid:\t";
pub const GID_TAG: &'static str = "Gid:\t";

pub const RUNNING: &'static str = "R (running)";
pub const SLEEPING: &'static str = "S (sleeping)";
pub const DISK_SLEEP: &'static str = "D (disk sleep)";
pub const STOPPED: &'static str = "T (stopped)";
pub const TRACING_STOP: &'static str = "t (tracing stop)";
pub const DEAD: &'static str = "X (dead)";
pub const ZOMBIE: &'static str = "Z (zombie)";

pub const U32_MAX: u64 = 0xffff_ffff;
pub const U64_MAX: u64 = 0xffff_ffff_ffff_ffff;

/// A tagged decimal field at `i` that ends its line: its value and where
/// the next line starts.
pub open spec fn field_at(b: Seq<u8>, i: int, t: Seq<u8>, max: nat) -> Option<(nat, int)> {
    if !tag_at(b, i, t) {
        None
    } else {
        match number_at(b, i + t.len(), Class::Digit, 10, max) {
            None => None,
            Some((v, e)) => match line_ending(b, e) {
                None => None,
                Some(f) => Some((v, f)),
            },
        }
    }
}

/// A tagged decimal field at `i` followed by anything up to the end of its
/// line.
pub open spec fn lead_field_at(b: Seq<u8>, i: int, t: Seq<u8>, max: nat) -> Option<(nat, int)> {
    if !tag_at(b, i, t) {
        None
    } else {
        match number_at(b, i + t.len(), Class::Digit, 10, max) {
            None => None,
            Some((v, e)) => match past_newline(b, e) {
                None => None,
                Some(f) => Some((v, f)),
            },
        }
    }
}

/// Where the optional umask line at `i` ends; `i` itself where there is
/// none.
pub open spec fn after_umask(b: Seq<u8>, i: int) -> int {
    if !tag_at(b, i, UMASK_TAG.spec_bytes()) {
        i
    } else {
        match number_at(b, i + UMASK_TAG.spec_bytes().len(), Class::AlphaNum, 8, U32_MAX as nat) {
            None => i,
            Some((_, e)) => match line_ending(b, e) {
                None => i,
                Some(f) => f,
            },
        }
    }
}

/// The state spelled at `i`, and where it ends.
pub open spec fn state_at(b: Seq<u8>, i: int) -> Option<(ThreadState, int)> {
    if tag_at(b, i, RUNNING.spec_bytes()) {
        Some((ThreadState::Running, i + RUNNING.spec_bytes().len()))
    } else if tag_at(b, i, SLEEPING.spec_bytes()) {
        Some((ThreadState::Sleeping, i + SLEEPING.spec_bytes().len()))
    } else if tag_at(b, i, DISK_SLEEP.spec_bytes()) {
        Some((ThreadState::Waiting, i + DISK_SLEEP.spec_bytes().len()))
    } else if tag_at(b, i, STOPPED.spec_bytes()) {
        Some((ThreadState::Stopped, i + STOPPED.spec_bytes().len()))
    } else if tag_at(b, i, TRACING_STOP.spec_bytes()) {
        Some((ThreadState::TraceStopped, i + TRACING_STOP.spec_bytes().len()))
    } else if tag_at(b, i, DEAD.spec_bytes()) {
        Some((ThreadState::Dead, i + DEAD.spec_bytes().len()))
    } else if tag_at(b, i, ZOMBIE.spec_bytes()) {
        Some((ThreadState::Zombie, i + ZOMBIE.spec_bytes().len()))
    } else {
        None
    }
}

/// What a status file tells of a process.
pub struct StatusView {
    pub comm: Seq<char>,
    pub state: ThreadState,
    pub pid: nat,
    pub tid: nat,
    pub ppid: nat,
    pub uid: nat,
    pub gid: nat,
}

/// The status file `b`, read from its start: the name line, an optional
/// umask line, the state line, the thread-group id, one skipped line, the
/// pid and parent pid, one skipped line, then the real user and group ids.
pub open spec fn status_spec(b: Seq<u8>) -> Option<StatusView> {
    let nt = NAME_TAG.spec_bytes();
    let st = STATE_TAG.spec_bytes();
    if !tag_at(b, 0, nt) {
        None
    } else {
        let c = nt.len() as int;
        let ce = line_end(b, c);
        match line_ending(b, ce) {
            None => None,
            Some(i2) => {
                let i3 = after_umask(b, i2);
                if !tag_at(b, i3, st) {
                    None
                } else {
                    match state_at(b, i3 + st.len()) {
                        None => None,
                        Some((state, e)) => match line_ending(b, e) {
                            None => None,
                            Some(i4) => match field_at(b, i4, TGID_TAG.spec_bytes(), U64_MAX as nat) {
                                None => None,
                                Some((pid, i5)) => match past_newline(b, i5) {
                                    None => None,
                                    Some(i6) => match field_at(b, i6, PID_TAG.spec_bytes(), U64_MAX as nat) {
                                        None => None,
                                        Some((tid, i7)) => match field_at(b, i7, PPID_TAG.spec_bytes(), U64_MAX as nat) {
                                            None => None,
                                            Some((ppid, i8)) => match past_newline(b, i8) {
                                                None => None,
                                                Some(i9) => match lead_field_at(b, i9, UID_TAG.spec_bytes(), U32_MAX as nat) {
                                                    None => None,
                                                    Some((uid, i10)) => match lead_field_at(b, i10, GID_TAG.spec_bytes(), U32_MAX as nat) {
                                                        None => None,
                                                        Some((gid, _)) => Some(StatusView {
                                                            comm: utf8_lossy(b.subrange(c, ce)),
                                                            state,
                                                            pid,
                                                            tid,
                                                            ppid,
                                                            uid,
                                                            gid,
                                                        }),
                                                    },
                                                },
                                            },
                                        },
                                    },
                                },
                            },
                        },
                    }
                }
            },
        }
    }
}

fn field(b: &[u8], i: usize, t: &str, max: u64) -> (r: Option<(u64, usize)>)
    requires
        i <= b@.len(),
    ensures
        r is None <==> field_at(b@, i as int, t.spec_bytes(), max as nat) is None,
        r matches Some((v, f)) ==> field_at(b@, i as int, t.spec_bytes(), max as nat) == Some((v as nat, f as int))
            && f <= b@.len(),
{
    if !tag(b, i, t) {
        return None;
    }
    let (v, e) = match parse_number(b, i + t.as_bytes().len(), Class::Digit, 10, max) {
        Some(x) => x,
        None => return None,
    };
    match skip_line_ending(b, e) {
        Some(f) => Some((v, f)),
        None => None,
    }
}

fn lead_field(b: &[u8], i: usize, t: &str, max: u64) -> (r: Option<(u64, usize)>)
    requires
        i <= b@.len(),
    ensures
        r is None <==> lead_field_at(b@, i as int, t.spec_bytes(), max as nat) is None,
        r matches Some((v, f)) ==> lead_field_at(b@, i as int, t.spec_bytes(), max as nat) == Some((v as nat, f as int))
            && f <= b@.len(),
{
    if !tag(b, i, t) {
        return None;
    }
    let (v, e) = match parse_number(b, i + t.as_bytes().len(), Class::Digit, 10, max) {
        Some(x) => x,
        None => return None,
    };
    match skip_past_newline(b, e) {
        Some(f) => Some((v, f)),
        None => None,
    }
}

fn skip_umask(b: &[u8], i: usize) -> (r: usize)
    requires
        i <= b@.len(),
    ensures
        r as int == after_umask(b@, i as int),
        r <= b@.len(),
{
    if !tag(b, i, UMASK_TAG) {
        return i;
    }
    match parse_number(b, i + UMASK_TAG.as_bytes().len(), Class::AlphaNum, 8, U32_MAX) {
        None => i,
        Some((_, e)) => match skip_line_ending(b, e) {
            None => i,
            Some(f) => f,
        },
    }
}

fn parse_state(b: &[u8], i: usize) -> (r: Option<(ThreadState, usize)>)
    ensures
        r is None <==> state_at(b@, i as int) is None,
        r matches Some((s, e)) ==> state_at(b@, i as int) == Some((s, e as int)),
{
    if tag(b, i, RUNNING) {
        Some((ThreadState::Running, i + RUNNING.as_bytes().len()))
    } else if tag(b, i, SLEEPING) {
        Some((ThreadState::Sleeping, i + SLEEPING.as_bytes().len()))
    } else if tag(b, i, DISK_SLEEP) {
        Some((ThreadState::Waiting, i + DISK_SLEEP.as_bytes().len()))
    } else if tag(b, i, STOPPED) {
        Some((ThreadState::Stopped, i + STOPPED.as_bytes().len()))
    } else if tag(b, i, TRACING_STOP) {
        Some((ThreadState::TraceStopped, i + TRACING_STOP.as_bytes().len()))
    } else if tag(b, i, DEAD) {
        Some((ThreadState::Dead, i + DEAD.as_bytes().len()))
    } else if tag(b, i, ZOMBIE) {
        Some((ThreadState::Zombie, i + ZOMBIE.as_bytes().len()))
    } else {
        None
    }
}

/// Parses the status file `b` of a process; its cgroups are left unknown.
#[verifier::rlimit(50)]
pub fn parse_thread(b: &[u8]) -> (r: Option<ThreadInfo>)
    ensures
        r is Some <==> status_spec(b@) is Some,
        r matches Some(t) ==> ({
            let s = status_spec(b@).unwrap();
            &&& t.comm@ == s.comm
            &&& t.state == s.state
            &&& t.pid as nat == s.pid
            &&& t.tid as nat == s.tid
            &&& t.ppid as nat == s.ppid
            &&& t.uid as nat == s.uid
            &&& t.gid as nat == s.gid
            &&& t.cgroups is None
        }),
{
    if !tag(b, 0, NAME_TAG) {
        return None;
    }
    let c = NAME_TAG.as_bytes().len();
    let ce = scan_line(b, c);
    let i2 = match skip_line_ending(b, ce) {
        Some(x) => x,
        None => return None,
    };
    let i3 = skip_umask(b, i2);
    if !tag(b, i3, STATE_TAG) {
        return None;
    }
    let (state, e) = match parse_state(b, i3 + STATE_TAG.as_bytes().len()) {
        Some(x) => x,
        None => return None,
    };
    let i4 = match skip_line_ending(b, e) {
        Some(x) => x,
        None => return None,
    };
    let (pid, i5) = match field(b, i4, TGID_TAG, U64_MAX) {
        Some(x) => x,
        None => return None,
    };
    let i6 = match skip_past_newline(b, i5) {
        Some(x) => x,
        None => return None,
    };
    let (tid, i7) = match field(b, i6, PID_TAG, U64_MAX) {
        Some(x) => x,
        None => return None,
    };
    let (ppid, i8) = match field(b, i7, PPID_TAG, U64_MAX) {
        Some(x) => x,
        None => return None,
    };
    let i9 = match skip_past_newline(b, i8) {
        Some(x) => x,
        None => return None,
    };
    let (uid, i10) = match lead_field(b, i9, UID_TAG, U32_MAX) {
        Some(x) => x,
        None => return None,
    };
    let (gid, _) = match lead_field(b, i10, GID_TAG, U32_MAX) {
        Some(x) => x,
        None => return None,
    };
    let comm = lossy_string(vstd::slice::slice_subrange(b, c, ce));
    Some(ThreadInfo { comm, state, pid, tid, ppid, uid: uid as u32, gid: gid as u32, cgroups: None })
}

} // verus!
