//! Process and thread context read from the `/proc` file system.
use vstd::prelude::*;
use vstd::string::StringExecFns;
use std::collections::HashMap;

pub mod cgroups;
pub mod parsers;
pub mod thread;

verus! {

/// The scheduling state of a thread.
#[derive(Clone, Copy, Debug, PartialEq, Eq, Structural)]
pub enum ThreadState {
    Running,
    Sleeping,
    Waiting,
    Stopped,
    TraceStopped,
    Dead,
    Zombie,
}

/// A control group that a process belongs to.
#[derive(Debug, Clone)]
pub struct CGroup {
    /// the unique identifier of the cgroup hierarchy
    pub id: u8,
    /// vector of cgroup subsystems
    pub controllers: Vec<String>,
    /// pathname of the control group
    pub path: String,
}

/// What `/proc/<pid>/status` and `/proc/<pid>/cgroup` tell of a process.
#[derive(Debug, Clone)]
pub struct ThreadInfo {
    /// filename of the executable
    pub comm: String,
    /// current state of the process
    pub state: ThreadState,
    /// process id (i.e., thread group id)
    pub pid: u64,
    /// thread id
    pub tid: u64,
    /// process id of the parent process
    pub ppid: u64,
    /// real user id
    pub uid: u32,
    /// real group id
    pub gid: u32,
    /// cgroups bounded to this thread
    pub cgroups: Option<Vec<CGroup>>,
}

/// The processes known from the last scan, by process id.
pub struct ThreadRegistry {
    pub threads: HashMap<u64, ThreadInfo>,
    proc_root: String,
}

impl ThreadRegistry {
    /// The processes recorded, by process id.
    pub closed spec fn known(&self) -> Map<u64, ThreadInfo> {
        self.threads@
    }

    /// The directory that is scanned.
    pub closed spec fn root(&self) -> Seq<char> {
        self.proc_root@
    }

    /// An empty registry over `/proc`.
    pub fn new() -> (r: ThreadRegistry)
        ensures
            r.known() == Map::<u64, ThreadInfo>::empty(),
            r.root() == "/proc"@,
    {
        ThreadRegistry { threads: HashMap::new(), proc_root: String::from_str("/proc") }
    }

    /// The directory that is scanned.
    pub fn proc_root(&self) -> (r: &String)
        ensures
            r@ == self.root(),
    {
        &self.proc_root
    }

    /// Records what a scan found of process `pid`, replacing what an
    /// earlier scan found.
    pub fn record(&mut self, pid: u64, info: ThreadInfo)
        ensures
            final(self).known() == old(self).known().insert(pid, info),
            final(self).root() == old(self).root(),
    {
        self.threads.insert(pid, info);
    }
}

} // verus!
