//! The catalogue of syscall variants known to the decoder.
use vstd::prelude::*;
use super::{Category, Flags, ParamFormat, ParamType, SyscallMeta, SyscallParam};

verus! {

/// The synthetic identifiers of the syscall variants that the driver emits:
/// each syscall has an entry and an exit variant.
#[derive(Clone, Copy, Debug, PartialEq, Eq, Structural)]
pub enum Syscalls {
    GenericEnter,
    GenericExit,
    OpenEnter,
    OpenExit,
    CloseEnter,
    CloseExit,
    ReadEnter,
    ReadExit,
    WriteEnter,
    WriteExit,
    Brk1Enter,
    Brk1Exit,
    Execve8Enter,
    Execve8Exit,
    Clone11Enter,
    Clone11Exit,
    ProcExitEnter,
    ProcExitExit,
    SocketEnter,
    SocketExit,
    BindEnter,
    BindExit,
    ConnectEnter,
    ConnectExit,
    ListenEnter,
    ListenExit,
    AcceptEnter,
    AcceptExit,
    SendEnter,
    SendExit,
    SendToEnter,
    SendToExit,
    RecvEnter,
    RecvExit,
    RecvFromEnter,
    RecvFromExit,
    ShutdownEnter,
    ShutdownExit,
    GetSockNameEnter,
    GetSockNameExit,
    GetPeerNameEnter,
    GetPeerNameExit,
    SocketPairEnter,
    SocketPairExit,
    SetSockOptEnter,
    SetSockOptExit,
    GetSockOptEnter,
    GetSockOptExit,
    SendMsgEnter,
    SendMsgExit,
    SendMMsgEnter,
    SendMMsgExit,
    RecvMsgEnter,
    RecvMsgExit,
    RecvMMsgEnter,
    RecvMMsgExit,
    Accept4Enter,
    Accept4Exit,
    CreatEnter,
    CreatExit,
    PipeEnter,
    PipeExit,
    EventFdEnter,
    EventFdExit,
    FutexEnter,
    FutexExit,
    StatEnter,
    StatExit,
    LstatEnter,
    LstatExit,
    FstatEnter,
    FstatExit,
    Stat64Enter,
    Stat64Exit,
    Lstat64Enter,
    Lstat64Exit,
    Fstat64Enter,
    Fstat64Exit,
    EpollWaitEnter,
    EpollWaitExit,
    PollEnter,
    PollExit,
    SelectEnter,
    SelectExit,
    NewSelectEnter,
    NewSelectExit,
}

impl Syscalls {
    /// The identifier that events of this variant carry.
    pub open spec fn spec_id(self) -> u16 {
        match self {
            Syscalls::GenericEnter => 0,
            Syscalls::GenericExit => 1,
            Syscalls::OpenEnter => 2,
            Syscalls::OpenExit => 3,
            Syscalls::CloseEnter => 4,
            Syscalls::CloseExit => 5,
            Syscalls::ReadEnter => 6,
            Syscalls::ReadExit => 7,
            Syscalls::WriteEnter => 8,
            Syscalls::WriteExit => 9,
            Syscalls::Brk1Enter => 10,
            Syscalls::Brk1Exit => 11,
            Syscalls::Execve8Enter => 12,
            Syscalls::Execve8Exit => 13,
            Syscalls::Clone11Enter => 14,
            Syscalls::Clone11Exit => 15,
            Syscalls::ProcExitEnter => 16,
            Syscalls::ProcExitExit => 17,
            Syscalls::SocketEnter => 18,
            Syscalls::SocketExit => 19,
            Syscalls::BindEnter => 20,
            Syscalls::BindExit => 21,
            Syscalls::ConnectEnter => 22,
            Syscalls::ConnectExit => 23,
            Syscalls::ListenEnter => 24,
            Syscalls::ListenExit => 25,
            Syscalls::AcceptEnter => 26,
            Syscalls::AcceptExit => 27,
            Syscalls::SendEnter => 28,
            Syscalls::SendExit => 29,
            Syscalls::SendToEnter => 30,
            Syscalls::SendToExit => 31,
            Syscalls::RecvEnter => 32,
            Syscalls::RecvExit => 33,
            Syscalls::RecvFromEnter => 34,
            Syscalls::RecvFromExit => 35,
            Syscalls::ShutdownEnter => 36,
            Syscalls::ShutdownExit => 37,
            Syscalls::GetSockNameEnter => 38,
            Syscalls::GetSockNameExit => 39,
            Syscalls::GetPeerNameEnter => 40,
            Syscalls::GetPeerNameExit => 41,
            Syscalls::SocketPairEnter => 42,
            Syscalls::SocketPairExit => 43,
            Syscalls::SetSockOptEnter => 44,
            Syscalls::SetSockOptExit => 45,
            Syscalls::GetSockOptEnter => 46,
            Syscalls::GetSockOptExit => 47,
            Syscalls::SendMsgEnter => 48,
            Syscalls::SendMsgExit => 49,
            Syscalls::SendMMsgEnter => 50,
            Syscalls::SendMMsgExit => 51,
            Syscalls::RecvMsgEnter => 52,
            Syscalls::RecvMsgExit => 53,
            Syscalls::RecvMMsgEnter => 54,
            Syscalls::RecvMMsgExit => 55,
            Syscalls::Accept4Enter => 56,
            Syscalls::Accept4Exit => 57,
            Syscalls::CreatEnter => 58,
            Syscalls::CreatExit => 59,
            Syscalls::PipeEnter => 60,
            Syscalls::PipeExit => 61,
            Syscalls::EventFdEnter => 62,
            Syscalls::EventFdExit => 63,
            Syscalls::FutexEnter => 64,
            Syscalls::FutexExit => 65,
            Syscalls::StatEnter => 66,
            Syscalls::StatExit => 67,
            Syscalls::LstatEnter => 68,
            Syscalls::LstatExit => 69,
            Syscalls::FstatEnter => 70,
            Syscalls::FstatExit => 71,
            Syscalls::Stat64Enter => 72,
            Syscalls::Stat64Exit => 73,
            Syscalls::Lstat64Enter => 74,
            Syscalls::Lstat64Exit => 75,
            Syscalls::Fstat64Enter => 76,
            Syscalls::Fstat64Exit => 77,
            Syscalls::EpollWaitEnter => 78,
            Syscalls::EpollWaitExit => 79,
            Syscalls::PollEnter => 80,
            Syscalls::PollExit => 81,
            Syscalls::SelectEnter => 82,
            Syscalls::SelectExit => 83,
            Syscalls::NewSelectEnter => 84,
            Syscalls::NewSelectExit => 85,
        }
    }

    /// Returns the identifier that events of this variant carry.
    pub fn id(&self) -> (r: u16)
        ensures
            r == self.spec_id(),
    {
        match self {
            Syscalls::GenericEnter => 0,
            Syscalls::GenericExit => 1,
            Syscalls::OpenEnter => 2,
            Syscalls::OpenExit => 3,
            Syscalls::CloseEnter => 4,
            Syscalls::CloseExit => 5,
            Syscalls::ReadEnter => 6,
            Syscalls::ReadExit => 7,
            Syscalls::WriteEnter => 8,
            Syscalls::WriteExit => 9,
            Syscalls::Brk1Enter => 10,
            Syscalls::Brk1Exit => 11,
            Syscalls::Execve8Enter => 12,
            Syscalls::Execve8Exit => 13,
            Syscalls::Clone11Enter => 14,
            Syscalls::Clone11Exit => 15,
            Syscalls::ProcExitEnter => 16,
            Syscalls::ProcExitExit => 17,
            Syscalls::SocketEnter => 18,
            Syscalls::SocketExit => 19,
            Syscalls::BindEnter => 20,
            Syscalls::BindExit => 21,
            Syscalls::ConnectEnter => 22,
            Syscalls::ConnectExit => 23,
            Syscalls::ListenEnter => 24,
            Syscalls::ListenExit => 25,
            Syscalls::AcceptEnter => 26,
            Syscalls::AcceptExit => 27,
            Syscalls::SendEnter => 28,
            Syscalls::SendExit => 29,
            Syscalls::SendToEnter => 30,
            Syscalls::SendToExit => 31,
            Syscalls::RecvEnter => 32,
            Syscalls::RecvExit => 33,
            Syscalls::RecvFromEnter => 34,
            Syscalls::RecvFromExit => 35,
            Syscalls::ShutdownEnter => 36,
            Syscalls::ShutdownExit => 37,
            Syscalls::GetSockNameEnter => 38,
            Syscalls::GetSockNameExit => 39,
            Syscalls::GetPeerNameEnter => 40,
            Syscalls::GetPeerNameExit => 41,
            Syscalls::SocketPairEnter => 42,
            Syscalls::SocketPairExit => 43,
            Syscalls::SetSockOptEnter => 44,
            Syscalls::SetSockOptExit => 45,
            Syscalls::GetSockOptEnter => 46,
            Syscalls::GetSockOptExit => 47,
            Syscalls::SendMsgEnter => 48,
            Syscalls::SendMsgExit => 49,
            Syscalls::SendMMsgEnter => 50,
            Syscalls::SendMMsgExit => 51,
            Syscalls::RecvMsgEnter => 52,
            Syscalls::RecvMsgExit => 53,
            Syscalls::RecvMMsgEnter => 54,
            Syscalls::RecvMMsgExit => 55,
            Syscalls::Accept4Enter => 56,
            Syscalls::Accept4Exit => 57,
            Syscalls::CreatEnter => 58,
            Syscalls::CreatExit => 59,
            Syscalls::PipeEnter => 60,
            Syscalls::PipeExit => 61,
            Syscalls::EventFdEnter => 62,
            Syscalls::EventFdExit => 63,
            Syscalls::FutexEnter => 64,
            Syscalls::FutexExit => 65,
            Syscalls::StatEnter => 66,
            Syscalls::StatExit => 67,
            Syscalls::LstatEnter => 68,
            Syscalls::LstatExit => 69,
            Syscalls::FstatEnter => 70,
            Syscalls::FstatExit => 71,
            Syscalls::Stat64Enter => 72,
            Syscalls::Stat64Exit => 73,
            Syscalls::Lstat64Enter => 74,
            Syscalls::Lstat64Exit => 75,
            Syscalls::Fstat64Enter => 76,
            Syscalls::Fstat64Exit => 77,
            Syscalls::EpollWaitEnter => 78,
            Syscalls::EpollWaitExit => 79,
            Syscalls::PollEnter => 80,
            Syscalls::PollExit => 81,
            Syscalls::SelectEnter => 82,
            Syscalls::SelectExit => 83,
            Syscalls::NewSelectEnter => 84,
            Syscalls::NewSelectExit => 85,
        }
    }
}

/// Index-addressed catalogue of syscall variants.
pub struct SyscallTable {
    syscall_metas: Vec<SyscallMeta>,
}

/// Whether `m` has the name `name`, the category `category`, the flags
/// `flags`, and parameters of the names, types and formats `params`, with
/// `nparams` giving their count.
pub open spec fn meta_is(
    m: SyscallMeta,
    name: Seq<char>,
    category: Category,
    flags: Seq<Flags>,
    params: Seq<(Seq<char>, ParamType, ParamFormat)>,
) -> bool {
    &&& m.name@ == name
    &&& m.category == category
    &&& m.flags@ =~= flags
    &&& m.nparams == params.len()
    &&& m.params@.len() == params.len()
    &&& forall|i: int| 0 <= i < params.len() ==> (#[trigger] m.params@[i]).name@ == params[i].0
        && m.params@[i].kind == params[i].1 && m.params@[i].fmt == params[i].2
}

impl SyscallTable {
    /// The variants, indexed by identifier.
    pub closed spec fn metas(&self) -> Seq<SyscallMeta> {
        self.syscall_metas@
    }

    /// Every variant declares as many parameters as it describes.
    pub open spec fn wf(&self) -> bool {
        forall|i: int| 0 <= i < self.metas().len() ==> (#[trigger] self.metas()[i]).nparams == self.metas()[i].params@.len()
    }

    /// The variants that the collector decodes.
    pub open spec fn default_spec(&self) -> bool {
        &&& self.metas().len() == 15
        &&& meta_is(self.metas()[0], "syscall"@, Category::Other, seq![Flags::NoFlags], seq![("id"@, ParamType::SyscallId, ParamFormat::Dec), ("native_id"@, ParamType::UInt16, ParamFormat::Dec)])
        &&& meta_is(self.metas()[1], "syscall"@, Category::Other, seq![Flags::NoFlags], seq![("id"@, ParamType::SyscallId, ParamFormat::Dec)])
        &&& meta_is(self.metas()[2], "open"@, Category::File, seq![Flags::CreatesFd, Flags::ModifiesState], seq![])
        &&& meta_is(self.metas()[3], "open"@, Category::File, seq![Flags::CreatesFd, Flags::ModifiesState], seq![("fd"@, ParamType::Fd, ParamFormat::Dec), ("name"@, ParamType::FsPath, ParamFormat::Na), ("flags"@, ParamType::Flags32, ParamFormat::Hex), ("mode"@, ParamType::UInt32, ParamFormat::Hex)])
        &&& meta_is(self.metas()[4], "close"@, Category::IOOther, seq![Flags::DestroysFd, Flags::UsesFd, Flags::ModifiesState], seq![("fd"@, ParamType::Fd, ParamFormat::Dec)])
        &&& meta_is(self.metas()[5], "close"@, Category::IOOther, seq![Flags::DestroysFd, Flags::UsesFd, Flags::ModifiesState], seq![("res"@, ParamType::ErrNo, ParamFormat::Dec)])
        &&& meta_is(self.metas()[6], "read"@, Category::IORead, seq![Flags::UsesFd, Flags::ReadsFromFd], seq![("fd"@, ParamType::Fd, ParamFormat::Dec), ("size"@, ParamType::UInt32, ParamFormat::Dec)])
        &&& meta_is(self.metas()[7], "read"@, Category::IORead, seq![Flags::UsesFd, Flags::ReadsFromFd], seq![("res"@, ParamType::ErrNo, ParamFormat::Dec), ("data"@, ParamType::ByteBuffer, ParamFormat::Na)])
        &&& meta_is(self.metas()[8], "write"@, Category::IOWrite, seq![Flags::UsesFd, Flags::WritesToFd], seq![("fd"@, ParamType::Fd, ParamFormat::Dec), ("size"@, ParamType::UInt32, ParamFormat::Dec)])
        &&& meta_is(self.metas()[9], "write"@, Category::IOWrite, seq![Flags::UsesFd, Flags::WritesToFd], seq![("res"@, ParamType::ErrNo, ParamFormat::Dec), ("data"@, ParamType::ByteBuffer, ParamFormat::Na)])
        &&& meta_is(self.metas()[10], "brk"@, Category::Memory, seq![Flags::OldVersion], seq![("size"@, ParamType::UInt32, ParamFormat::Dec)])
        &&& meta_is(self.metas()[11], "brk"@, Category::Memory, seq![Flags::OldVersion], seq![("res"@, ParamType::UInt64, ParamFormat::Hex)])
        &&& meta_is(self.metas()[12], "execve"@, Category::Process, seq![Flags::ModifiesState], seq![])
        &&& meta_is(self.metas()[13], "execve"@, Category::Process, seq![Flags::ModifiesState, Flags::OldVersion], seq![("res"@, ParamType::ErrNo, ParamFormat::Dec), ("exe"@, ParamType::CharBuffer, ParamFormat::Na), ("args"@, ParamType::ByteBuffer, ParamFormat::Na), ("tid"@, ParamType::Pid, ParamFormat::Dec), ("pid"@, ParamType::Pid, ParamFormat::Dec), ("ptid"@, ParamType::Pid, ParamFormat::Dec), ("cwd"@, ParamType::ByteBuffer, ParamFormat::Na), ("fdlimit"@, ParamType::UInt64, ParamFormat::Dec)])
        &&& meta_is(self.metas()[14], "clone"@, Category::Process, seq![Flags::ModifiesState], seq![])
    }

    /// Looks up the variant with identifier `id`.
    pub fn get_syscall_meta(&self, id: usize) -> (r: Option<&SyscallMeta>)
        ensures
            id < self.metas().len() ==> r == Some(&self.metas()[id as int]),
            id >= self.metas().len() ==> r.is_none(),
    {
        if id < self.syscall_metas.len() {
            Some(&self.syscall_metas[id])
        } else {
            None
        }
    }
}

impl Default for SyscallTable {
    /// Builds the catalogue of the supported variants.
    fn default() -> (r: SyscallTable)
        ensures
            r.wf(),
            r.default_spec(),
    {
        let t = SyscallTable {
            syscall_metas: vec![
                SyscallMeta { name: "syscall", category: Category::Other, flags: vec![Flags::NoFlags], nparams: 2, params: vec![SyscallParam { name: "id", kind: ParamType::SyscallId, fmt: ParamFormat::Dec }, SyscallParam { name: "native_id", kind: ParamType::UInt16, fmt: ParamFormat::Dec }] },
                SyscallMeta { name: "syscall", category: Category::Other, flags: vec![Flags::NoFlags], nparams: 1, params: vec![SyscallParam { name: "id", kind: ParamType::SyscallId, fmt: ParamFormat::Dec }] },
                SyscallMeta { name: "open", category: Category::File, flags: vec![Flags::CreatesFd, Flags::ModifiesState], nparams: 0, params: vec![] },
                SyscallMeta { name: "open", category: Category::File, flags: vec![Flags::CreatesFd, Flags::ModifiesState], nparams: 4, params: vec![SyscallParam { name: "fd", kind: ParamType::Fd, fmt: ParamFormat::Dec }, SyscallParam { name: "name", kind: ParamType::FsPath, fmt: ParamFormat::Na }, SyscallParam { name: "flags", kind: ParamType::Flags32, fmt: ParamFormat::Hex }, SyscallParam { name: "mode", kind: ParamType::UInt32, fmt: ParamFormat::Hex }] },
                SyscallMeta { name: "close", category: Category::IOOther, flags: vec![Flags::DestroysFd, Flags::UsesFd, Flags::ModifiesState], nparams: 1, params: vec![SyscallParam { name: "fd", kind: ParamType::Fd, fmt: ParamFormat::Dec }] },
                SyscallMeta { name: "close", category: Category::IOOther, flags: vec![Flags::DestroysFd, Flags::UsesFd, Flags::ModifiesState], nparams: 1, params: vec![SyscallParam { name: "res", kind: ParamType::ErrNo, fmt: ParamFormat::Dec }] },
                SyscallMeta { name: "read", category: Category::IORead, flags: vec![Flags::UsesFd, Flags::ReadsFromFd], nparams: 2, params: vec![SyscallParam { name: "fd", kind: ParamType::Fd, fmt: ParamFormat::Dec }, SyscallParam { name: "size", kind: ParamType::UInt32, fmt: ParamFormat::Dec }] },
                SyscallMeta { name: "read", category: Category::IORead, flags: vec![Flags::UsesFd, Flags::ReadsFromFd], nparams: 2, params: vec![SyscallParam { name: "res", kind: ParamType::ErrNo, fmt: ParamFormat::Dec }, SyscallParam { name: "data", kind: ParamType::ByteBuffer, fmt: ParamFormat::Na }] },
                SyscallMeta { name: "write", category: Category::IOWrite, flags: vec![Flags::UsesFd, Flags::WritesToFd], nparams: 2, params: vec![SyscallParam { name: "fd", kind: ParamType::Fd, fmt: ParamFormat::Dec }, SyscallParam { name: "size", kind: ParamType::UInt32, fmt: ParamFormat::Dec }] },
                SyscallMeta { name: "write", category: Category::IOWrite, flags: vec![Flags::UsesFd, Flags::WritesToFd], nparams: 2, params: vec![SyscallParam { name: "res", kind: ParamType::ErrNo, fmt: ParamFormat::Dec }, SyscallParam { name: "data", kind: ParamType::ByteBuffer, fmt: ParamFormat::Na }] },
                SyscallMeta { name: "brk", category: Category::Memory, flags: vec![Flags::OldVersion], nparams: 1, params: vec![SyscallParam { name: "size", kind: ParamType::UInt32, fmt: ParamFormat::Dec }] },
                SyscallMeta { name: "brk", category: Category::Memory, flags: vec![Flags::OldVersion], nparams: 1, params: vec![SyscallParam { name: "res", kind: ParamType::UInt64, fmt: ParamFormat::Hex }] },
                SyscallMeta { name: "execve", category: Category::Process, flags: vec![Flags::ModifiesState], nparams: 0, params: vec![] },
                SyscallMeta { name: "execve", category: Category::Process, flags: vec![Flags::ModifiesState, Flags::OldVersion], nparams: 8, params: vec![SyscallParam { name: "res", kind: ParamType::ErrNo, fmt: ParamFormat::Dec }, SyscallParam { name: "exe", kind: ParamType::CharBuffer, fmt: ParamFormat::Na }, SyscallParam { name: "args", kind: ParamType::ByteBuffer, fmt: ParamFormat::Na }, SyscallParam { name: "tid", kind: ParamType::Pid, fmt: ParamFormat::Dec }, SyscallParam { name: "pid", kind: ParamType::Pid, fmt: ParamFormat::Dec }, SyscallParam { name: "ptid", kind: ParamType::Pid, fmt: ParamFormat::Dec }, SyscallParam { name: "cwd", kind: ParamType::ByteBuffer, fmt: ParamFormat::Na }, SyscallParam { name: "fdlimit", kind: ParamType::UInt64, fmt: ParamFormat::Dec }] },
                SyscallMeta { name: "clone", category: Category::Process, flags: vec![Flags::ModifiesState], nparams: 0, params: vec![] },
            ],
        };
        t
    }
}

} // verus!

