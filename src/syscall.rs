//! Syscall metadata types and the decoder that turns one on-wire event into
//! a named record of typed parameters.
use vstd::prelude::*;
use vstd::string::StringExecFns;
use crate::bytes::{
    cstr_bytes, cstr_end, find_nul, le_bytes, le_nat, le_u16, le_u32, le_u64, lemma_le_bytes_round_trip, lemma_le_nat_window,
    pow256, read_u16, read_u32, read_u64, read_u8,
};
use crate::value::{Value, ValueView};
use crate::syscall::syscall_table::SyscallTable;

pub mod syscall_table;

verus! {

/// Size in bytes of the packed event header.
pub const HDR_SIZE: usize = 22;

/// The fixed-size header in front of every event.
pub struct SyscallHdr {
    /// timestamp in nanoseconds from epoch
    pub ts: u64,
    /// the thread id that generated the syscall
    pub tid: u64,
    /// length of the syscall + header
    pub len: u32,
    /// the identifier of the syscall
    pub id: u16,
}

/// Whether `n` bytes starting at `p` lie inside `b`.
pub open spec fn fits(b: Seq<u8>, p: int, n: int) -> bool {
    0 <= p && p + n <= b.len()
}

impl SyscallHdr {
    /// The header that the bytes of `b` at `p` encode.
    pub open spec fn at(b: Seq<u8>, p: int) -> SyscallHdr {
        SyscallHdr {
            ts: le_u64(b, p),
            tid: le_u64(b, p + 8),
            len: le_u32(b, p + 16),
            id: le_u16(b, p + 20),
        }
    }

    /// Reads the header at `p`, or nothing where it does not fit in `b`.
    pub fn read(b: &[u8], p: usize) -> (r: Option<SyscallHdr>)
        ensures
            r.is_some() <==> fits(b@, p as int, HDR_SIZE as int),
            r.is_some() ==> r.unwrap() == SyscallHdr::at(b@, p as int),
    {
        if p > b.len() || b.len() - p < HDR_SIZE {
            return None;
        }
        Some(
            SyscallHdr {
                ts: read_u64(b, p),
                tid: read_u64(b, p + 8),
                len: read_u32(b, p + 16),
                id: read_u16(b, p + 20),
            },
        )
    }
}

/// Static description of one syscall variant.
pub struct SyscallMeta {
    /// name of the system call
    pub name: &'static str,
    /// syscall category
    pub category: Category,
    /// flags for this syscall
    pub flags: Vec<Flags>,
    /// the number of parameters
    pub nparams: usize,
    /// the list of syscall's parameters
    pub params: Vec<SyscallParam>,
}

/// Static description of one parameter of a syscall variant.
pub struct SyscallParam {
    /// parameter name
    pub name: &'static str,
    /// parameter type
    pub kind: ParamType,
    /// parameter rendering format
    pub fmt: ParamFormat,
}

/// A decoded event: its time in whole seconds since the Unix epoch, the
/// syscall's name and its parameters in the order of their descriptors.
pub struct Syscall {
    /// seconds since the Unix epoch, UTC
    pub ts: i64,
    /// name of the system call
    pub name: String,
    /// syscall's parameters by name
    pub params: Vec<(String, Value)>,
}

/// The RFC 3339 rendering, at whole seconds and with `Z` for UTC, of the
/// instant `secs` seconds after the Unix epoch; none where chrono cannot
/// represent that instant.
pub uninterp spec fn rfc3339_of(secs: i64) -> Option<Seq<char>>;

/// Relies on chrono's `DateTime::<Utc>::from_timestamp`, which is none only
/// for days outside the years chrono represents (beyond 262142 CE, so never
/// for the seconds of a `u64` count of nanoseconds), and
/// `to_rfc3339_opts(SecondsFormat::Secs, true)`: the rendering depends on
/// `secs` alone.
#[verifier::external_body]
fn rfc3339(secs: i64) -> (r: Option<String>)
    ensures
        r is None <==> rfc3339_of(secs) is None,
        r matches Some(s) ==> rfc3339_of(secs) == Some(s@),
        0 <= secs <= MAX_EVENT_SECS ==> r is Some,
{
    chrono::DateTime::<chrono::Utc>::from_timestamp(secs, 0).map(
        |d| d.to_rfc3339_opts(chrono::SecondsFormat::Secs, true),
    )
}

/// The value that a map filled from `params` in order holds under `name`:
/// the last one recorded under it.
pub open spec fn param_spec(params: Seq<(Seq<char>, ValueView)>, name: Seq<char>) -> Option<ValueView>
    decreases params.len(),
{
    if params.len() == 0 {
        None
    } else if params.last().0 == name {
        Some(params.last().1)
    } else {
        param_spec(params.drop_last(), name)
    }
}

impl Syscall {
    /// Looks up a parameter by name; where a name repeats, the last
    /// parameter under it wins.
    pub fn param(&self, name: &String) -> (r: Option<&Value>)
        ensures
            r is None <==> param_spec(self@.params, name@) is None,
            r matches Some(v) ==> param_spec(self@.params, name@) == Some(v@),
    {
        let mut k: usize = self.params.len();
        assert(self@.params.take(k as int) =~= self@.params);
        while k > 0
            invariant
                k <= self.params@.len(),
                param_spec(self@.params, name@) == param_spec(self@.params.take(k as int), name@),
            decreases k,
        {
            proof {
                assert(self@.params.take(k as int).drop_last() =~= self@.params.take(k - 1));
            }
            if self.params[k - 1].0.eq(name) {
                return Some(&self.params[k - 1].1);
            }
            k = k - 1;
        }
        None
    }

    /// The event's time as an RFC 3339 UTC string at second precision;
    /// always there for the time of a decoded event.
    pub fn timestamp(&self) -> (r: Option<String>)
        ensures
            r is None <==> rfc3339_of(self.ts) is None,
            r matches Some(s) ==> rfc3339_of(self.ts) == Some(s@),
            0 <= self.ts <= MAX_EVENT_SECS ==> r is Some,
    {
        rfc3339(self.ts)
    }
}

/// The mathematical form of a decoded event.
pub struct SyscallView {
    pub ts: int,
    pub name: Seq<char>,
    pub params: Seq<(Seq<char>, ValueView)>,
}

impl View for Syscall {
    type V = SyscallView;

    open spec fn view(&self) -> SyscallView {
        SyscallView {
            ts: self.ts as int,
            name: self.name@,
            params: Seq::new(
                self.params@.len(),
                |i: int| (self.params@[i].0@, self.params@[i].1@),
            ),
        }
    }
}

/// determines the syscall category
#[derive(Clone, Copy, Debug, PartialEq, Eq, Structural)]
pub enum Category {
    Unknown,
    Other,
    File,
    Net,
    IPC,
    Memory,
    Process,
    Sleep,
    System,
    Signal,
    User,
    Time,
    Processing,
    IOBase,
    IORead,
    IOWrite,
    IOOther,
    Wait,
    Scheduler,
    Internal,
}

/// Behavioural flags of a syscall variant.
#[derive(Clone, Copy, Debug, PartialEq, Eq, Structural)]
pub enum Flags {
    NoFlags,
    CreatesFd,
    DestroysFd,
    UsesFd,
    ReadsFromFd,
    WritesToFd,
    ModifiesState,
    Unused,
    Waits,
    SkipParser,
    OldVersion,
}

/// The wire type of a syscall parameter.
#[derive(Clone, Copy, Debug, PartialEq, Eq, Structural)]
pub enum ParamType {
    Untyped,
    Int8,
    Int16,
    Int32,
    Int64,
    UInt8,
    UInt16,
    UInt32,
    UInt64,
    /// a NULL terminated printable buffer of bytes
    CharBuffer,
    ByteBuffer,
    ErrNo,
    SockAddr,
    SockTuple,
    Fd,
    Pid,
    FdList,
    FsPath,
    SyscallId,
    SigType,
    /// a relative time
    RelTime,
    /// an absolute time interval
    AbsTime,
    Port,
    L4Proto,
    SockFamily,
    Bool,
    Ipv4Addr,
    Dyn,
    Flags8,
    Flags16,
    Flags32,
    Uid,
    Gid,
    Double,
    Sigset,
    CharBufferArray,
    CharBufferPairArray,
    Ipv4Net,
}

/// Presentation hint of a parameter.
#[derive(Clone, Copy, Debug, PartialEq, Eq, Structural)]
pub enum ParamFormat {
    Na,
    Dec,
    Hex,
    PaddedDec,
    Id,
    Dir,
}

/// Whether an event marks the entry into or the exit from a syscall.
#[derive(Clone, Copy, Debug, PartialEq, Eq, Structural)]
pub enum Direction {
    Enter,
    Exit,
}

/// The characters that lossy UTF-8 decoding makes of a byte sequence.
pub uninterp spec fn utf8_lossy(b: Seq<u8>) -> Seq<char>;

/// Relies on `String::from_utf8_lossy`: the string depends on the bytes
/// alone, empty input gives the empty string, and valid UTF-8 (ASCII in
/// particular, one character per byte) comes back unchanged.
#[verifier::external_body]
pub(crate) fn lossy_string(b: &[u8]) -> (r: String)
    ensures
        r@ == utf8_lossy(b@),
        b@.len() == 0 ==> r@.len() == 0,
        (forall|i: int| 0 <= i < b@.len() ==> #[trigger] b@[i] < 128) ==> r@ == Seq::new(b@.len(), |i: int| b@[i] as char),
{
    String::from_utf8_lossy(b).into_owned()
}

/// The value that a parameter of type `kind` has when its payload starts at
/// `p`: fixed-width integers are read little-endian and are `Null` where
/// they do not fit in `b`; strings end at the first NUL or at the end of `b`.
pub open spec fn param_value(kind: ParamType, b: Seq<u8>, p: int) -> ValueView {
    match kind {
        ParamType::Int8 => if fits(b, p, 1) { ValueView::Int8(b[p] as i8) } else { ValueView::Null },
        ParamType::Int16 => if fits(b, p, 2) { ValueView::Int16(le_u16(b, p) as i16) } else { ValueView::Null },
        ParamType::Int32 => if fits(b, p, 4) { ValueView::Int32(le_u32(b, p) as i32) } else { ValueView::Null },
        ParamType::Int64 | ParamType::ErrNo | ParamType::Fd | ParamType::Pid =>
            if fits(b, p, 8) { ValueView::Int64(le_u64(b, p) as i64) } else { ValueView::Null },
        ParamType::UInt8 | ParamType::Flags8 => if fits(b, p, 1) { ValueView::UInt8(b[p]) } else { ValueView::Null },
        ParamType::UInt16 | ParamType::Flags16 | ParamType::SyscallId =>
            if fits(b, p, 2) { ValueView::UInt16(le_u16(b, p)) } else { ValueView::Null },
        ParamType::UInt32 | ParamType::Flags32 | ParamType::Uid | ParamType::Gid =>
            if fits(b, p, 4) { ValueView::UInt32(le_u32(b, p)) } else { ValueView::Null },
        ParamType::UInt64 => if fits(b, p, 8) { ValueView::UInt64(le_u64(b, p)) } else { ValueView::Null },
        ParamType::CharBuffer | ParamType::ByteBuffer | ParamType::FsPath =>
            ValueView::Str(utf8_lossy(cstr_bytes(b, p))),
        _ => ValueView::Null,
    }
}

/// The payload of a parameter that starts past the end of the buffer
/// decodes as one that starts at the very end.
proof fn lemma_param_value_past_end(kind: ParamType, b: Seq<u8>, p: int)
    requires
        p >= b.len(),
    ensures
        param_value(kind, b, p) == param_value(kind, b, b.len() as int),
{
}

/// Where the payload of parameter `i` starts, for an event at `p` with `n`
/// parameters: after the header and the length array, each earlier payload
/// taking as many bytes as its length word says.
pub open spec fn param_offset(b: Seq<u8>, p: int, n: int, i: int) -> int
    decreases i,
{
    if i <= 0 {
        p + HDR_SIZE + 2 * n
    } else {
        param_offset(b, p, n, i - 1) + le_u16(b, p + HDR_SIZE + 2 * (i - 1))
    }
}

proof fn lemma_param_offset_grows(b: Seq<u8>, p: int, n: int, i: int)
    ensures
        param_offset(b, p, n, i) >= p + HDR_SIZE + 2 * n,
    decreases i,
{
    if i > 0 {
        lemma_param_offset_grows(b, p, n, i - 1);
    }
}

/// The named values of the parameters `params` of an event at `p`.
pub open spec fn params_view(params: Seq<SyscallParam>, b: Seq<u8>, p: int) -> Seq<(Seq<char>, ValueView)> {
    Seq::new(
        params.len(),
        |i: int| (params[i].name@, param_value(params[i].kind, b, param_offset(b, p, params.len() as int, i))),
    )
}

impl SyscallMeta {
    /// Decodes the parameters of the event whose header starts at `p`: the
    /// length array follows the header, the payloads follow the array.
    pub fn build_params(&self, b: &[u8], p: usize) -> (r: Vec<(String, Value)>)
        requires
            fits(b@, p as int, HDR_SIZE + 2 * self.params@.len()),
        ensures
            r@.len() == self.params@.len(),
            forall|i: int| 0 <= i < r@.len() ==> (#[trigger] r@[i]).0@ == params_view(self.params@, b@, p as int)[i].0
                && r@[i].1@ == params_view(self.params@, b@, p as int)[i].1,
    {
        let n = self.params.len();
        let len = b.len();
        let lens_at = p + HDR_SIZE;
        let mut off: usize = lens_at + 2 * n;
        let mut out: Vec<(String, Value)> = Vec::new();
        let mut i: usize = 0;
        while i < n
            invariant
                n == self.params@.len(),
                len == b@.len(),
                lens_at == p + HDR_SIZE,
                lens_at + 2 * n <= len,
                i <= n,
                off <= len,
                off as int == if param_offset(b@, p as int, n as int, i as int) <= len {
                    param_offset(b@, p as int, n as int, i as int)
                } else {
                    len as int
                },
                out@.len() == i,
                forall|j: int| 0 <= j < i ==> (#[trigger] out@[j]).0@ == params_view(self.params@, b@, p as int)[j].0
                    && out@[j].1@ == params_view(self.params@, b@, p as int)[j].1,
            decreases n - i,
        {
            let param = &self.params[i];
            let v = param.parse(b, off);
            proof {
                let q = param_offset(b@, p as int, n as int, i as int);
                if q > len {
                    lemma_param_value_past_end(param.kind, b@, q);
                }
            }
            out.push((String::from_str(param.name), v));
            let l = read_u16(b, lens_at + 2 * i);
            proof {
                lemma_param_offset_grows(b@, p as int, n as int, i as int);
            }
            if l as usize > len - off {
                off = len;
            } else {
                off = off + l as usize;
            }
            i = i + 1;
        }
        out
    }
}

/// The largest whole second that a `u64` count of nanoseconds reaches.
pub const MAX_EVENT_SECS: i64 = 18_446_744_073;

/// Nanoseconds in a second.
pub const NANOS_PER_SEC: u64 = 1_000_000_000;

/// The event that the bytes of `b` at `p` encode, looked up in `t`: none
/// where the header does not fit, the identifier is unknown to `t`, or the
/// length array does not fit. The timestamp is truncated to whole seconds.
pub open spec fn decode_spec(t: &SyscallTable, b: Seq<u8>, p: int) -> Option<SyscallView> {
    if !fits(b, p, HDR_SIZE as int) {
        None
    } else {
        let h = SyscallHdr::at(b, p);
        if h.id >= t.metas().len() {
            None
        } else {
            let m = t.metas()[h.id as int];
            if !fits(b, p, HDR_SIZE + 2 * m.params@.len()) {
                None
            } else {
                Some(SyscallView {
                    ts: h.ts as int / NANOS_PER_SEC as int,
                    name: m.name@,
                    params: params_view(m.params@, b, p),
                })
            }
        }
    }
}

/// Decodes the event whose header starts at `p`.
pub fn decode_event(t: &SyscallTable, b: &[u8], p: usize) -> (r: Option<Syscall>)
    ensures
        r.is_some() == decode_spec(t, b@, p as int).is_some(),
        r.is_some() ==> r.unwrap()@ == decode_spec(t, b@, p as int).unwrap(),
{
    let h = match SyscallHdr::read(b, p) {
        Some(h) => h,
        None => return None,
    };
    let meta = match t.get_syscall_meta(h.id as usize) {
        Some(m) => m,
        None => return None,
    };
    let n = meta.params.len();
    if n > (b.len() - p - HDR_SIZE) / 2 {
        return None;
    }
    let params = meta.build_params(b, p);
    let r = Syscall { ts: (h.ts / NANOS_PER_SEC) as i64, name: String::from_str(meta.name), params };
    assert(r@.params =~= params_view(meta.params@, b@, p as int));
    Some(r)
}

/// The width in bytes of the integer types, none for the others.
pub open spec fn int_width(kind: ParamType) -> Option<nat> {
    match kind {
        ParamType::Int8 | ParamType::UInt8 | ParamType::Flags8 => Some(1),
        ParamType::Int16 | ParamType::UInt16 | ParamType::Flags16 | ParamType::SyscallId => Some(2),
        ParamType::Int32 | ParamType::UInt32 | ParamType::Flags32 | ParamType::Uid | ParamType::Gid => Some(4),
        ParamType::Int64 | ParamType::ErrNo | ParamType::Fd | ParamType::Pid | ParamType::UInt64 => Some(8),
        _ => None,
    }
}

/// The value of an integer type `kind` that holds the number `x`.
pub open spec fn int_value(kind: ParamType, x: nat) -> ValueView {
    match kind {
        ParamType::Int8 => ValueView::Int8(x as u8 as i8),
        ParamType::Int16 => ValueView::Int16(x as u16 as i16),
        ParamType::Int32 => ValueView::Int32(x as u32 as i32),
        ParamType::Int64 | ParamType::ErrNo | ParamType::Fd | ParamType::Pid => ValueView::Int64(x as u64 as i64),
        ParamType::UInt8 | ParamType::Flags8 => ValueView::UInt8(x as u8),
        ParamType::UInt16 | ParamType::Flags16 | ParamType::SyscallId => ValueView::UInt16(x as u16),
        ParamType::UInt32 | ParamType::Flags32 | ParamType::Uid | ParamType::Gid => ValueView::UInt32(x as u32),
        ParamType::UInt64 => ValueView::UInt64(x as u64),
        _ => ValueView::Null,
    }
}

/// The concatenation of the byte sequences `s`.
pub open spec fn concat(s: Seq<Seq<u8>>) -> Seq<u8>
    decreases s.len(),
{
    if s.len() == 0 {
        Seq::empty()
    } else {
        concat(s.drop_last()) + s.last()
    }
}

/// The length words that announce the payloads `s`.
pub open spec fn length_words(s: Seq<Seq<u8>>) -> Seq<Seq<u8>> {
    Seq::new(s.len(), |i: int| le_bytes(s[i].len(), 2))
}

/// The bytes of an event: the header, whose length field counts the whole
/// event, then one length word per payload, then the payloads.
pub open spec fn encode_event(ts: u64, tid: u64, id: u16, payloads: Seq<Seq<u8>>) -> Seq<u8> {
    let body = concat(length_words(payloads)) + concat(payloads);
    le_bytes(ts as nat, 8) + le_bytes(tid as nat, 8) + le_bytes((HDR_SIZE + body.len()) as nat, 4)
        + le_bytes(id as nat, 2) + body
}

proof fn lemma_le_bytes_len(x: nat, n: nat)
    ensures
        le_bytes(x, n).len() == n,
    decreases n,
{
    if n > 0 {
        lemma_le_bytes_len(x / 256, (n - 1) as nat);
    }
}

proof fn lemma_concat_index(s: Seq<Seq<u8>>, i: int, k: int)
    requires
        0 <= i < s.len(),
        0 <= k < s[i].len(),
    ensures
        concat(s.take(i)).len() + k < concat(s).len(),
        concat(s)[concat(s.take(i)).len() + k] == s[i][k],
    decreases s.len(),
{
    let d = s.drop_last();
    if i == s.len() - 1 {
        assert(s.take(i) =~= d);
    } else {
        assert(d.take(i) =~= s.take(i));
        assert(d[i] == s[i]);
        lemma_concat_index(d, i, k);
    }
}

proof fn lemma_concat_take_step(s: Seq<Seq<u8>>, i: int)
    requires
        0 <= i < s.len(),
    ensures
        concat(s.take(i + 1)).len() == concat(s.take(i)).len() + s[i].len(),
{
    assert(s.take(i + 1).drop_last() =~= s.take(i));
}

proof fn lemma_concat_uniform(s: Seq<Seq<u8>>, w: nat)
    requires
        forall|j: int| 0 <= j < s.len() ==> (#[trigger] s[j]).len() == w,
    ensures
        concat(s).len() == w * s.len(),
    decreases s.len(),
{
    if s.len() > 0 {
        lemma_concat_uniform(s.drop_last(), w);
        assert(w * s.len() == w * (s.len() - 1) + w) by (nonlinear_arith);
    }
}

proof fn lemma_length_words_len(payloads: Seq<Seq<u8>>, i: int)
    requires
        0 <= i <= payloads.len(),
    ensures
        concat(length_words(payloads).take(i)).len() == 2 * i,
{
    let lw = length_words(payloads).take(i);
    assert forall|j: int| 0 <= j < lw.len() implies (#[trigger] lw[j]).len() == 2 by {
        lemma_le_bytes_len(payloads[j].len(), 2);
    }
    lemma_concat_uniform(lw, 2);
}

/// The bytes after the header of an encoded event: the length words, then
/// the payloads.
proof fn lemma_encoded_layout(ts: u64, tid: u64, id: u16, payloads: Seq<Seq<u8>>)
    ensures
        ({
            let b = encode_event(ts, tid, id, payloads);
            let n = payloads.len() as int;
            &&& b.len() == HDR_SIZE + 2 * n + concat(payloads).len()
            &&& forall|x: int| 0 <= x < 2 * n ==> #[trigger] b[HDR_SIZE + x] == concat(length_words(payloads))[x]
            &&& forall|y: int| 0 <= y < concat(payloads).len() ==> #[trigger] b[HDR_SIZE + 2 * n + y] == concat(payloads)[y]
        }),
{
    let n = payloads.len() as int;
    lemma_le_bytes_len(ts as nat, 8);
    lemma_le_bytes_len(tid as nat, 8);
    lemma_le_bytes_len(id as nat, 2);
    let body = concat(length_words(payloads)) + concat(payloads);
    lemma_le_bytes_len((HDR_SIZE + body.len()) as nat, 4);
    lemma_length_words_len(payloads, n);
    assert(length_words(payloads).take(n) =~= length_words(payloads));
}

proof fn lemma_header_field(ts: u64, tid: u64, id: u16, payloads: Seq<Seq<u8>>)
    ensures
        ({
            let b = encode_event(ts, tid, id, payloads);
            &&& le_u64(b, 0) == ts
            &&& le_u16(b, 20) == id
        }),
{
    let b = encode_event(ts, tid, id, payloads);
    let body = concat(length_words(payloads)) + concat(payloads);
    let h_ts = le_bytes(ts as nat, 8);
    let h_id = le_bytes(id as nat, 2);
    lemma_le_bytes_len(ts as nat, 8);
    lemma_le_bytes_len(tid as nat, 8);
    lemma_le_bytes_len((HDR_SIZE + body.len()) as nat, 4);
    reveal_with_fuel(pow256, 9);
    assert(pow256(8) == 18446744073709551616);
    lemma_le_bytes_round_trip(ts as nat, 8);
    lemma_le_bytes_round_trip(id as nat, 2);
    lemma_le_nat_window(b, 0, h_ts, 0, 8);
    assert forall|k: int| 0 <= k < 2 implies #[trigger] b[20 + k] == h_id[0 + k] by {}
    lemma_le_nat_window(b, 20, h_id, 0, 2);
}

/// Where parameter `i` of an encoded event starts: after the header, the
/// length words and the payloads before it.
proof fn lemma_encoded_offset(ts: u64, tid: u64, id: u16, payloads: Seq<Seq<u8>>, i: int)
    requires
        0 <= i <= payloads.len(),
        forall|j: int| 0 <= j < payloads.len() ==> (#[trigger] payloads[j]).len() < 65536,
    ensures
        param_offset(encode_event(ts, tid, id, payloads), 0, payloads.len() as int, i)
            == HDR_SIZE + 2 * payloads.len() + concat(payloads.take(i)).len(),
    decreases i,
{
    let b = encode_event(ts, tid, id, payloads);
    let n = payloads.len() as int;
    if i == 0 {
        assert(payloads.take(0) =~= Seq::<Seq<u8>>::empty());
    } else {
        let j = i - 1;
        lemma_encoded_offset(ts, tid, id, payloads, j);
        lemma_concat_take_step(payloads, j);
        lemma_encoded_layout(ts, tid, id, payloads);
        let lw = length_words(payloads);
        let w = le_bytes(payloads[j].len(), 2);
        lemma_le_bytes_len(payloads[j].len(), 2);
        lemma_length_words_len(payloads, j);
        assert forall|k: int| 0 <= k < 2 implies #[trigger] b[HDR_SIZE + 2 * j + k] == w[0 + k] by {
            lemma_concat_index(lw, j, k);
            assert(b[HDR_SIZE + (2 * j + k)] == concat(lw)[2 * j + k]);
        }
        lemma_le_nat_window(b, HDR_SIZE + 2 * j, w, 0, 2);
        reveal_with_fuel(pow256, 3);
        lemma_le_bytes_round_trip(payloads[j].len(), 2);
    }
}

/// Whether a payload decodes without reading past its own end: an integer
/// payload holds the type's width, a string payload holds its NUL.
pub open spec fn self_contained(kind: ParamType, pl: Seq<u8>) -> bool {
    match kind {
        ParamType::CharBuffer | ParamType::ByteBuffer | ParamType::FsPath => cstr_end(pl, 0) < pl.len(),
        _ => match int_width(kind) {
            Some(w) => w <= pl.len(),
            None => true,
        },
    }
}

proof fn lemma_cstr_end_window(b: Seq<u8>, off: int, pl: Seq<u8>, k: int)
    requires
        0 <= off,
        0 <= k <= cstr_end(pl, k) < pl.len(),
        off + pl.len() <= b.len(),
        forall|j: int| 0 <= j < pl.len() ==> #[trigger] b[off + j] == pl[j],
    ensures
        cstr_end(b, off + k) == off + cstr_end(pl, k),
    decreases pl.len() - k,
{
    assert(b[off + k] == pl[k]);
    if pl[k] != 0 {
        crate::bytes::lemma_cstr_end_range(pl, k + 1);
        lemma_cstr_end_window(b, off, pl, k + 1);
    }
}

/// Decoding round trip: an event encoded from a variant of `t` and one
/// payload per parameter decodes to the variant's name, the timestamp in
/// whole seconds, and for each parameter whose payload is self-contained,
/// the value decoded from that payload alone.
pub proof fn lemma_decode_round_trip(t: &SyscallTable, ts: u64, tid: u64, id: u16, payloads: Seq<Seq<u8>>)
    requires
        id < t.metas().len(),
        payloads.len() == t.metas()[id as int].params@.len(),
        forall|j: int| 0 <= j < payloads.len() ==> (#[trigger] payloads[j]).len() < 65536,
    ensures
        ({
            let m = t.metas()[id as int];
            let r = decode_spec(t, encode_event(ts, tid, id, payloads), 0);
            &&& r is Some
            &&& r.unwrap().ts == ts as int / NANOS_PER_SEC as int
            &&& r.unwrap().name == m.name@
            &&& r.unwrap().params.len() == payloads.len()
            &&& forall|i: int| 0 <= i < payloads.len() ==> (#[trigger] r.unwrap().params[i]).0 == m.params@[i].name@
            &&& forall|i: int| #![trigger r.unwrap().params[i]] 0 <= i < payloads.len()
                && self_contained(m.params@[i].kind, payloads[i])
                ==> r.unwrap().params[i].1 == param_value(m.params@[i].kind, payloads[i], 0)
        }),
{
    let b = encode_event(ts, tid, id, payloads);
    let n = payloads.len() as int;
    let m = t.metas()[id as int];
    lemma_encoded_layout(ts, tid, id, payloads);
    lemma_header_field(ts, tid, id, payloads);
    let r = decode_spec(t, b, 0);
    assert(r is Some);
    assert forall|i: int| #![trigger r.unwrap().params[i]] 0 <= i < n
        && self_contained(m.params@[i].kind, payloads[i])
        implies r.unwrap().params[i].1 == param_value(m.params@[i].kind, payloads[i], 0) by {
        let kind = m.params@[i].kind;
        let pl = payloads[i];
        lemma_encoded_offset(ts, tid, id, payloads, i);
        let off = param_offset(b, 0, n, i);
        let start = concat(payloads.take(i)).len();
        assert forall|k: int| 0 <= k < pl.len() implies #[trigger] b[off + k] == pl[k] by {
            lemma_concat_index(payloads, i, k);
            assert(b[HDR_SIZE + 2 * n + (start + k)] == concat(payloads)[start + k]);
        }
        if pl.len() > 0 {
            lemma_concat_index(payloads, i, pl.len() - 1);
        }
        match int_width(kind) {
            Some(w) => {
                if w <= pl.len() {
                    assert forall|k: int| 0 <= k < w implies #[trigger] b[off + k] == pl[0 + k] by {
                        assert(b[off + k] == pl[k]);
                    }
                    lemma_le_nat_window(b, off, pl, 0, w);
                    assert(b[off + 0] == pl[0]);
                }
            },
            None => {
                if cstr_end(pl, 0) < pl.len() {
                    crate::bytes::lemma_cstr_end_range(pl, 0);
                    lemma_cstr_end_window(b, off, pl, 0);
                    let e = cstr_end(pl, 0);
                    assert(cstr_bytes(b, off) =~= cstr_bytes(pl, 0)) by {
                        assert forall|k: int| 0 <= k < e implies #[trigger] b.subrange(off, off + e)[k] == pl.subrange(0, e)[k] by {
                            assert(b[off + k] == pl[k]);
                        }
                    }
                }
            },
        }
    }
}

/// Two buffers that hold the same bytes from `p1` and from `p2` on.
pub open spec fn same_suffix(b1: Seq<u8>, p1: int, b2: Seq<u8>, p2: int) -> bool {
    &&& 0 <= p1 <= b1.len()
    &&& 0 <= p2 <= b2.len()
    &&& b1.subrange(p1, b1.len() as int) == b2.subrange(p2, b2.len() as int)
}

proof fn lemma_suffix_len(b1: Seq<u8>, p1: int, b2: Seq<u8>, p2: int)
    requires
        same_suffix(b1, p1, b2, p2),
    ensures
        b1.len() - p1 == b2.len() - p2,
{
    assert(b1.subrange(p1, b1.len() as int).len() == b2.subrange(p2, b2.len() as int).len());
}

proof fn lemma_suffix_byte(b1: Seq<u8>, p1: int, b2: Seq<u8>, p2: int, x: int)
    requires
        same_suffix(b1, p1, b2, p2),
        0 <= x < b1.len() - p1,
    ensures
        b1[p1 + x] == b2[p2 + x],
{
    lemma_suffix_len(b1, p1, b2, p2);
    assert(b1.subrange(p1, b1.len() as int)[x] == b2.subrange(p2, b2.len() as int)[x]);
}

proof fn lemma_suffix_le(b1: Seq<u8>, p1: int, b2: Seq<u8>, p2: int, x: int, n: nat)
    requires
        same_suffix(b1, p1, b2, p2),
        0 <= x,
        x + n <= b1.len() - p1,
    ensures
        le_nat(b1, p1 + x, n) == le_nat(b2, p2 + x, n),
{
    assert forall|k: int| 0 <= k < n implies #[trigger] b1[(p1 + x) + k] == b2[(p2 + x) + k] by {
        lemma_suffix_byte(b1, p1, b2, p2, x + k);
    }
    lemma_le_nat_window(b1, p1 + x, b2, p2 + x, n);
}

proof fn lemma_suffix_cstr_end(b1: Seq<u8>, p1: int, b2: Seq<u8>, p2: int, x: int)
    requires
        same_suffix(b1, p1, b2, p2),
        0 <= x <= b1.len() - p1,
    ensures
        cstr_end(b1, p1 + x) - p1 == cstr_end(b2, p2 + x) - p2,
    decreases b1.len() - p1 - x,
{
    lemma_suffix_len(b1, p1, b2, p2);
    if x < b1.len() - p1 {
        lemma_suffix_byte(b1, p1, b2, p2, x);
        if b1[p1 + x] != 0 {
            lemma_suffix_cstr_end(b1, p1, b2, p2, x + 1);
        }
    }
}

proof fn lemma_suffix_param_value(kind: ParamType, b1: Seq<u8>, p1: int, b2: Seq<u8>, p2: int, x: int)
    requires
        same_suffix(b1, p1, b2, p2),
        0 <= x,
    ensures
        param_value(kind, b1, p1 + x) == param_value(kind, b2, p2 + x),
{
    lemma_suffix_len(b1, p1, b2, p2);
    let rem = b1.len() - p1;
    match int_width(kind) {
        Some(w) => {
            if x + w <= rem {
                lemma_suffix_le(b1, p1, b2, p2, x, w);
                lemma_suffix_byte(b1, p1, b2, p2, x);
            }
        },
        None => {
            if x < rem {
                lemma_suffix_cstr_end(b1, p1, b2, p2, x);
                crate::bytes::lemma_cstr_end_range(b1, p1 + x);
                crate::bytes::lemma_cstr_end_range(b2, p2 + x);
                let e = cstr_end(b1, p1 + x) - p1;
                assert(cstr_end(b2, p2 + x) == p2 + e);
                assert forall|k: int| 0 <= k < e - x implies
                    #[trigger] b1.subrange(p1 + x, p1 + e)[k] == b2.subrange(p2 + x, p2 + e)[k] by {
                    lemma_suffix_byte(b1, p1, b2, p2, x + k);
                }
                assert(cstr_bytes(b1, p1 + x) == b1.subrange(p1 + x, p1 + e));
                assert(cstr_bytes(b2, p2 + x) == b2.subrange(p2 + x, p2 + e));
                assert(b1.subrange(p1 + x, p1 + e) =~= b2.subrange(p2 + x, p2 + e));
            }
        },
    }
}

proof fn lemma_suffix_offset(b1: Seq<u8>, p1: int, b2: Seq<u8>, p2: int, n: int, i: int)
    requires
        same_suffix(b1, p1, b2, p2),
        0 <= i <= n,
        HDR_SIZE + 2 * n <= b1.len() - p1,
    ensures
        param_offset(b1, p1, n, i) - p1 == param_offset(b2, p2, n, i) - p2,
    decreases i,
{
    if i > 0 {
        lemma_suffix_offset(b1, p1, b2, p2, n, i - 1);
        lemma_suffix_le(b1, p1, b2, p2, HDR_SIZE + 2 * (i - 1), 2);
    }
}

/// Decoding reads nothing before the event: two buffers that hold the same
/// bytes from the event's start on decode to the same event. An event that
/// wraps around the ring therefore decodes, through the double mapping of
/// the data region, as it would unsplit.
pub proof fn lemma_decode_suffix(t: &SyscallTable, b1: Seq<u8>, p1: int, b2: Seq<u8>, p2: int)
    requires
        same_suffix(b1, p1, b2, p2),
    ensures
        decode_spec(t, b1, p1) == decode_spec(t, b2, p2),
{
    lemma_suffix_len(b1, p1, b2, p2);
    if fits(b1, p1, HDR_SIZE as int) {
        lemma_suffix_le(b1, p1, b2, p2, 0, 8);
        lemma_suffix_le(b1, p1, b2, p2, 20, 2);
        let h = SyscallHdr::at(b1, p1);
        if h.id < t.metas().len() {
            let m = t.metas()[h.id as int];
            let n = m.params@.len() as int;
            if fits(b1, p1, HDR_SIZE + 2 * n) {
                let v1 = params_view(m.params@, b1, p1);
                let v2 = params_view(m.params@, b2, p2);
                assert forall|i: int| 0 <= i < n implies #[trigger] v1[i] == v2[i] by {
                    lemma_suffix_offset(b1, p1, b2, p2, n, i);
                    lemma_param_offset_grows(b1, p1, n, i);
                    let x = param_offset(b1, p1, n, i) - p1;
                    lemma_suffix_param_value(m.params@[i].kind, b1, p1, b2, p2, x);
                }
                assert(v1 =~= v2);
            }
        }
    }
}

/// Integer round trip: the little-endian bytes of a number that fits the
/// width of an integer type decode, as a parameter of that type, to that
/// number.
pub proof fn lemma_int_param_round_trip(kind: ParamType, x: nat)
    requires
        int_width(kind) is Some,
        x < pow256(int_width(kind).unwrap()),
    ensures
        param_value(kind, le_bytes(x, int_width(kind).unwrap()), 0) == int_value(kind, x),
{
    let w = int_width(kind).unwrap();
    lemma_le_bytes_round_trip(x, w);
    let b = le_bytes(x, w);
    reveal_with_fuel(le_nat, 2);
    assert(le_nat(b, 0, 1) == b[0] as nat + 256 * le_nat(b, 1, 0));
}

impl SyscallParam {
    /// Transforms the payload that starts at `p` into a value of the
    /// parameter's type.
    pub fn parse(&self, b: &[u8], p: usize) -> (r: Value)
        ensures
            r@ == param_value(self.kind, b@, p as int),
    {
        let len = b.len();
        let room: usize = if p <= len { len - p } else { 0 };
        match self.kind {
            ParamType::Int8 => if room >= 1 { Value::Int8(#[verifier::truncate] (read_u8(b, p) as i8)) } else { Value::Null },
            ParamType::Int16 => if room >= 2 { Value::Int16(#[verifier::truncate] (read_u16(b, p) as i16)) } else { Value::Null },
            ParamType::Int32 => if room >= 4 { Value::Int32(#[verifier::truncate] (read_u32(b, p) as i32)) } else { Value::Null },
            ParamType::Int64 | ParamType::ErrNo | ParamType::Fd | ParamType::Pid =>
                if room >= 8 { Value::Int64(#[verifier::truncate] (read_u64(b, p) as i64)) } else { Value::Null },
            ParamType::UInt8 | ParamType::Flags8 => if room >= 1 { Value::UInt8(read_u8(b, p)) } else { Value::Null },
            ParamType::UInt16 | ParamType::Flags16 | ParamType::SyscallId =>
                if room >= 2 { Value::UInt16(read_u16(b, p)) } else { Value::Null },
            ParamType::UInt32 | ParamType::Flags32 | ParamType::Uid | ParamType::Gid =>
                if room >= 4 { Value::UInt32(read_u32(b, p)) } else { Value::Null },
            ParamType::UInt64 => if room >= 8 { Value::UInt64(read_u64(b, p)) } else { Value::Null },
            ParamType::CharBuffer | ParamType::ByteBuffer | ParamType::FsPath => Value::String(self.to_string(b, p)),
            _ => Value::Null,
        }
    }

    /// The NUL-terminated string that starts at `p`.
    fn to_string(&self, b: &[u8], p: usize) -> (r: String)
        ensures
            r@ == utf8_lossy(cstr_bytes(b@, p as int)),
    {
        if p >= b.len() {
            let e: &[u8] = vstd::slice::slice_subrange(b, 0, 0);
            assert(e@ =~= cstr_bytes(b@, p as int));
            return lossy_string(e);
        }
        let end = find_nul(b, p);
        let s = vstd::slice::slice_subrange(b, p, end);
        lossy_string(s)
    }
}

} // verus!
