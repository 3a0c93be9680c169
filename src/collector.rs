//! The per-CPU ring readers and the scheduler that drains them.
//!
//! The rings live in memory that the capture driver shares with this
//! process; the caller reads the kernel's `head` cursors and hands the ring
//! bytes in, performs the waits that the back-off policy asks for, and
//! publishes the `tail` cursors that this state holds.
use vstd::prelude::*;
use crate::error::Error;
use crate::syscall::{decode_event, decode_spec, fits, Syscall, SyscallHdr, SyscallView, HDR_SIZE};
use crate::syscall::syscall_table::SyscallTable;

verus! {

/// A source of decoded syscall events: attach to the capture devices,
/// drain them, detach.
pub trait Collector {
    fn start(&mut self) -> Result<usize, Error>;

    fn stop(&mut self) -> Result<(), Error>;

    fn next(&mut self) -> Option<Syscall>;
}

/// Size in bytes of each ring; the data region is mapped at twice this
/// length so that an event that wraps reads as one flat range.
pub const RING_BUF_SIZE: u32 = 8 * 1024 * 1024;

/// How long one empty-ring wait lasts, in milliseconds.
pub const BUFFER_EMPTY_WAIT_TIME_MS: u32 = 30;

/// After this many consecutive waits one refresh goes without a wait.
pub const MAX_N_CONSECUTIVE_WAITS: usize = 4;

/// A ring holding more readable bytes than this makes polling eager.
pub const LARGE_WINDOW: u32 = 20000;

/// The forward distance from `tail` to `head` around the ring.
pub open spec fn window(tail: u32, head: u32) -> u32 {
    if tail > head {
        (RING_BUF_SIZE - tail + head) as u32
    } else {
        (head - tail) as u32
    }
}

/// Calculates the readable bytes between the read cursor `tail` and the
/// write cursor `head`.
pub fn get_buffer_readsize(tail: u32, head: u32) -> (r: u32)
    requires
        tail < RING_BUF_SIZE,
        head < RING_BUF_SIZE,
    ensures
        r == window(tail, head),
        r < RING_BUF_SIZE,
{
    if tail > head {
        RING_BUF_SIZE - tail + head
    } else {
        head - tail
    }
}

/// The total length of the spans `s`.
pub open spec fn span_sum(s: Seq<(int, int)>) -> int
    decreases s.len(),
{
    if s.len() == 0 {
        0
    } else {
        span_sum(s.drop_last()) + s.last().1
    }
}

/// The reader state of one capture device.
pub struct RingBufferDev {
    /// the device's file descriptor
    pub fd: i32,
    /// the read cursor, as last published to the device
    pub tail: u32,
    /// the size of the window read since the last refresh
    pub last_readsize: u32,
    /// offset in the data region of the next event of the window
    pub next_syscall: usize,
    /// bytes of the window not yet consumed
    pub len: u32,
    /// the (offset, length) spans consumed from the window, in order
    pub taken: Ghost<Seq<(int, int)>>,
}

impl RingBufferDev {
    /// The cursor lies in the ring, the window is shorter than the ring, and
    /// the consumed spans tile the window from `tail` up to `next_syscall`.
    pub open spec fn wf(&self) -> bool {
        &&& self.tail < RING_BUF_SIZE
        &&& self.last_readsize < RING_BUF_SIZE
        &&& self.len <= self.last_readsize
        &&& self.next_syscall == self.tail + self.last_readsize - self.len
        &&& span_sum(self.taken@) + self.len == self.last_readsize
        &&& forall|k: int| 0 <= k < self.taken@.len() ==> (#[trigger] self.taken@[k]).1 > 0
            && self.taken@[k].0 == self.tail + span_sum(self.taken@.subrange(0, k))
    }
}

/// What the caller does next to drain the rings.
pub enum Step {
    /// consume the next event of the reader with this index
    Event(usize),
    /// refresh every reader, after a wait where `wait` says so
    Refresh { wait: bool },
}

/// How an attempt to open a capture device failed.
#[derive(Clone, Copy, Debug, PartialEq, Eq, Structural)]
pub enum OpenFailure {
    /// no such device: the CPU is not instrumented
    NoDevice,
    /// the device is busy: another collector is attached
    Busy,
    /// any other failure
    Other,
}

/// Decides what a failed open of a device means for the start: a missing
/// device is skipped, a busy one or any other failure ends the start.
pub fn open_failure_outcome(f: OpenFailure) -> (r: Result<(), Error>)
    ensures
        f == OpenFailure::NoDevice <==> r.is_ok(),
        f == OpenFailure::Busy ==> r matches Err(Error::TooManyCollectors),
        f == OpenFailure::Other ==> r matches Err(Error::DeviceError),
{
    match f {
        OpenFailure::NoDevice => Ok(()),
        OpenFailure::Busy => Err(Error::TooManyCollectors),
        OpenFailure::Other => Err(Error::DeviceError),
    }
}

/// The back-off policy: given the consecutive waits so far and whether some
/// ring is busy, whether to wait now and the count of consecutive waits
/// after this refresh.
pub open spec fn backoff(waits: nat, busy: bool) -> (bool, nat) {
    if busy {
        (false, 0)
    } else if waits >= MAX_N_CONSECUTIVE_WAITS {
        (false, 0)
    } else {
        (true, waits + 1)
    }
}

/// The waits that the policy inserts over refreshes that see the rings
/// busy or quiet as `busy` says, from `waits` consecutive waits.
pub open spec fn backoff_waits(waits: nat, busy: Seq<bool>) -> Seq<bool>
    decreases busy.len(),
{
    if busy.len() == 0 {
        Seq::empty()
    } else {
        let (w, c) = backoff(waits, busy[0]);
        seq![w] + backoff_waits(c, busy.drop_first())
    }
}

/// Liveness of the back-off: from any number of earlier waits, five
/// consecutive refreshes never all wait; at least one of them polls at once.
pub proof fn lemma_backoff_liveness(waits: nat, busy: Seq<bool>)
    requires
        busy.len() >= 5,
    ensures
        exists|k: int| 0 <= k < 5 && !(#[trigger] backoff_waits(waits, busy)[k]),
{
    lemma_backoff_run(waits, busy, 5);
}

proof fn lemma_backoff_waits_len(waits: nat, busy: Seq<bool>)
    ensures
        backoff_waits(waits, busy).len() == busy.len(),
    decreases busy.len(),
{
    if busy.len() > 0 {
        let (w, c) = backoff(waits, busy[0]);
        lemma_backoff_waits_len(c, busy.drop_first());
    }
}

proof fn lemma_backoff_run(waits: nat, busy: Seq<bool>, n: nat)
    requires
        busy.len() >= n,
        n + waits >= 5,
        n >= 1,
    ensures
        exists|k: int| 0 <= k < n && !(#[trigger] backoff_waits(waits, busy)[k]),
    decreases n,
{
    let run = backoff_waits(waits, busy);
    let (w, c) = backoff(waits, busy[0]);
    let rest = backoff_waits(c, busy.drop_first());
    assert(run == seq![w] + rest);
    lemma_backoff_waits_len(c, busy.drop_first());
    if !w {
        assert(!run[0]);
    } else {
        lemma_backoff_run(c, busy.drop_first(), (n - 1) as nat);
        let k = choose|k: int| 0 <= k < n - 1 && !(#[trigger] rest[k]);
        assert(run[k + 1] == rest[k]);
    }
}

/// The read cursor `tail` moved `n` bytes forward around the ring.
pub open spec fn advance(tail: u32, n: u32) -> u32 {
    ((tail as int + n as int) % RING_BUF_SIZE as int) as u32
}

/// The length of the event at `off` where it can be consumed from a window
/// with `remaining` bytes left: its header fits in `data` and its length is
/// positive and no more than what is left.
pub open spec fn event_len(data: Seq<u8>, off: int, remaining: u32) -> Option<u32> {
    if fits(data, off, HDR_SIZE as int) && 0 < SyscallHdr::at(data, off).len <= remaining {
        Some(SyscallHdr::at(data, off).len)
    } else {
        None
    }
}

proof fn lemma_span_sum_push(s: Seq<(int, int)>, x: (int, int))
    ensures
        span_sum(s.push(x)) == span_sum(s) + x.1,
{
    assert(s.push(x).drop_last() =~= s);
}

/// The reader `d` after the span (`d.next_syscall`, `l`) of its window is
/// consumed.
pub open spec fn consumed(d: RingBufferDev, l: u32) -> RingBufferDev {
    RingBufferDev {
        len: (d.len - l) as u32,
        next_syscall: (d.next_syscall + l) as usize,
        taken: Ghost(d.taken@.push((d.next_syscall as int, l as int))),
        ..d
    }
}

proof fn lemma_consumed_wf(d: RingBufferDev, l: u32)
    requires
        d.wf(),
        0 < l <= d.len,
    ensures
        consumed(d, l).wf(),
{
    let e = consumed(d, l);
    let x = (d.next_syscall as int, l as int);
    lemma_span_sum_push(d.taken@, x);
    assert forall|k: int| 0 <= k < e.taken@.len() implies (#[trigger] e.taken@[k]).1 > 0
        && e.taken@[k].0 == e.tail + span_sum(e.taken@.subrange(0, k)) by {
        assert(e.taken@.subrange(0, k) =~= d.taken@.subrange(0, k) || k == d.taken@.len());
        if k == d.taken@.len() {
            assert(e.taken@.subrange(0, k) =~= d.taken@);
        } else {
            assert(e.taken@.subrange(0, k) =~= d.taken@.subrange(0, k));
        }
    }
}

/// The reader `d` after a refresh against the write cursor `head`: the
/// last window is handed back to the driver and the next one starts.
pub open spec fn refreshed(d: RingBufferDev, head: u32) -> RingBufferDev {
    RingBufferDev {
        fd: d.fd,
        tail: advance(d.tail, d.last_readsize),
        last_readsize: window(advance(d.tail, d.last_readsize), head),
        next_syscall: advance(d.tail, d.last_readsize) as usize,
        len: window(advance(d.tail, d.last_readsize), head),
        taken: Ghost(Seq::empty()),
    }
}

/// Every reader's read cursor lies inside the ring, whatever sequence of
/// attaches, steps, takes and refreshes led to the state.
pub proof fn lemma_tail_in_ring(c: RingBufferCollector)
    requires
        c.wf(),
    ensures
        forall|i: int| 0 <= i < c.devs().len() ==> (#[trigger] c.devs()[i]).tail < RING_BUF_SIZE,
{
    assert forall|i: int| 0 <= i < c.devs().len() implies (#[trigger] c.devs()[i]).tail < RING_BUF_SIZE by {
        assert(c.devs()[i].wf());
    }
}

/// Conservation: the lengths of the spans consumed from a reader's window
/// and the bytes still left in it add up to the window's size; once
/// nothing is left, the consumed lengths alone do.
pub proof fn lemma_window_conservation(c: RingBufferCollector, i: int)
    requires
        c.wf(),
        0 <= i < c.devs().len(),
    ensures
        span_sum(c.devs()[i].taken@) + c.devs()[i].len == c.devs()[i].last_readsize,
        c.devs()[i].len == 0 ==> span_sum(c.devs()[i].taken@) == c.devs()[i].last_readsize,
{
    assert(c.devs()[i].wf());
}

proof fn lemma_span_prefix_step(s: Seq<(int, int)>, k: int)
    requires
        0 <= k < s.len(),
    ensures
        span_sum(s.subrange(0, k + 1)) == span_sum(s.subrange(0, k)) + s[k].1,
{
    assert(s.subrange(0, k + 1).drop_last() =~= s.subrange(0, k));
}

proof fn lemma_span_prefix_mono(s: Seq<(int, int)>, a: int, b: int)
    requires
        0 <= a <= b <= s.len(),
        forall|k: int| 0 <= k < s.len() ==> (#[trigger] s[k]).1 > 0,
    ensures
        span_sum(s.subrange(0, a)) <= span_sum(s.subrange(0, b)),
    decreases b - a,
{
    if a < b {
        lemma_span_prefix_mono(s, a, b - 1);
        lemma_span_prefix_step(s, b - 1);
    }
}

/// Ordering without duplication: within a window, the events are consumed
/// one after the other in the order in which they lie in the ring; each
/// starts where the previous one ends, so none is consumed twice.
pub proof fn lemma_window_order(c: RingBufferCollector, i: int)
    requires
        c.wf(),
        0 <= i < c.devs().len(),
    ensures
        forall|a: int, b: int| 0 <= a < b < c.devs()[i].taken@.len()
            ==> c.devs()[i].taken@[a].0 + c.devs()[i].taken@[a].1 <= #[trigger] c.devs()[i].taken@[b].0
                && #[trigger] c.devs()[i].taken@[a].0 < c.devs()[i].taken@[b].0,
        forall|a: int| 0 <= a < c.devs()[i].taken@.len() - 1
            ==> c.devs()[i].taken@[a].0 + c.devs()[i].taken@[a].1 == #[trigger] c.devs()[i].taken@[a + 1].0,
{
    let d = c.devs()[i];
    assert(d.wf());
    let s = d.taken@;
    assert forall|a: int, b: int| 0 <= a < b < s.len() implies s[a].0 + s[a].1 <= #[trigger] s[b].0
        && #[trigger] s[a].0 < s[b].0 by {
        lemma_span_prefix_step(s, a);
        lemma_span_prefix_mono(s, a + 1, b);
        assert(s[a].1 > 0);
    }
    assert forall|a: int| 0 <= a < s.len() - 1 implies s[a].0 + s[a].1 == #[trigger] s[a + 1].0 by {
        lemma_span_prefix_step(s, a);
    }
}

/// The syscall collector over the per-CPU rings of the capture driver.
pub struct RingBufferCollector {
    devs: Vec<RingBufferDev>,
    consecutive_waits: usize,
    syscall_table: SyscallTable,
}

impl RingBufferCollector {
    /// The readers, one per attached device, in CPU order.
    pub closed spec fn devs(&self) -> Seq<RingBufferDev> {
        self.devs@
    }

    /// The number of refreshes in a row that waited.
    pub closed spec fn waits(&self) -> nat {
        self.consecutive_waits as nat
    }

    /// The catalogue that events are decoded with.
    pub closed spec fn table(&self) -> &SyscallTable {
        &self.syscall_table
    }

    /// Every reader is well formed and the wait count is within the policy's
    /// ceiling.
    pub open spec fn wf(&self) -> bool {
        &&& forall|i: int| 0 <= i < self.devs().len() ==> (#[trigger] self.devs()[i]).wf()
        &&& self.waits() <= MAX_N_CONSECUTIVE_WAITS
    }

    /// Whether some ring holds more than [`LARGE_WINDOW`] readable bytes
    /// from its published cursor to `heads`.
    pub open spec fn busy(&self, heads: Seq<u32>) -> bool {
        exists|i: int| 0 <= i < self.devs().len() && window((#[trigger] self.devs()[i]).tail, heads[i]) > LARGE_WINDOW
    }

    /// Valid write cursors for the readers: one per reader, inside the ring.
    pub open spec fn heads_ok(&self, heads: Seq<u32>) -> bool {
        &&& heads.len() == self.devs().len()
        &&& forall|i: int| 0 <= i < heads.len() ==> #[trigger] heads[i] < RING_BUF_SIZE
    }

    /// The index of the first reader with bytes left in its window.
    pub open spec fn first_pending(&self) -> Option<int> {
        if exists|i: int| 0 <= i < self.devs().len() && (#[trigger] self.devs()[i]).len > 0 {
            Some(choose|i: int| 0 <= i < self.devs().len() && (#[trigger] self.devs()[i]).len > 0
                && forall|j: int| 0 <= j < i ==> (#[trigger] self.devs()[j]).len == 0)
        } else {
            None
        }
    }

    /// A collector with no device attached.
    pub fn new() -> (r: RingBufferCollector)
        ensures
            r.wf(),
            r.devs().len() == 0,
            r.waits() == 0,
            r.table().wf(),
            r.table().default_spec(),
    {
        RingBufferCollector { devs: Vec::new(), consecutive_waits: 0, syscall_table: SyscallTable::default() }
    }

    /// The number of attached devices.
    pub fn num_devices(&self) -> (r: usize)
        ensures
            r == self.devs().len(),
    {
        self.devs.len()
    }

    /// The read cursor of reader `i`, to be published to its device.
    pub fn tail(&self, i: usize) -> (r: u32)
        requires
            i < self.devs().len(),
        ensures
            r == self.devs()[i as int].tail,
    {
        self.devs[i].tail
    }

    /// The bytes left in the window of reader `i`.
    pub fn remaining(&self, i: usize) -> (r: u32)
        requires
            i < self.devs().len(),
        ensures
            r == self.devs()[i as int].len,
    {
        self.devs[i].len
    }

    /// The number of refreshes in a row that waited.
    pub fn consecutive_waits(&self) -> (r: usize)
        ensures
            r == self.waits(),
    {
        self.consecutive_waits
    }

    /// Attaches the device `fd` whose ring's read cursor stands at `tail`;
    /// its window is empty until the next refresh.
    pub fn add_device(&mut self, fd: i32, tail: u32)
        requires
            old(self).wf(),
            tail < RING_BUF_SIZE,
        ensures
            final(self).wf(),
            final(self).devs() == old(self).devs().push(RingBufferDev {
                fd,
                tail,
                last_readsize: 0,
                next_syscall: tail as usize,
                len: 0,
                taken: Ghost(Seq::empty()),
            }),
            final(self).waits() == old(self).waits(),
            final(self).table() == old(self).table(),
    {
        let d = RingBufferDev {
            fd,
            tail,
            last_readsize: 0,
            next_syscall: tail as usize,
            len: 0,
            taken: Ghost(Seq::empty()),
        };
        assert(span_sum(d.taken@) == 0);
        self.devs.push(d);
        assert forall|i: int| 0 <= i < self.devs@.len() implies (#[trigger] self.devs@[i]).wf() by {
            if i < old(self).devs@.len() {
                assert(self.devs@[i] == old(self).devs()[i]);
                assert(old(self).devs()[i].wf());
            }
        }
    }

    /// Detaches every device, handing back their descriptors in order so
    /// that the caller can stop, unmap and close each; a second call hands
    /// back none.
    pub fn release_all(&mut self) -> (r: Vec<i32>)
        requires
            old(self).wf(),
        ensures
            final(self).wf(),
            r@.len() == old(self).devs().len(),
            forall|i: int| 0 <= i < r@.len() ==> r@[i] == (#[trigger] old(self).devs()[i]).fd,
            final(self).devs().len() == 0,
            final(self).waits() == old(self).waits(),
            final(self).table() == old(self).table(),
    {
        let mut fds: Vec<i32> = Vec::new();
        let mut i: usize = 0;
        while i < self.devs.len()
            invariant
                i <= self.devs@.len(),
                fds@.len() == i,
                forall|j: int| 0 <= j < i ==> fds@[j] == (#[trigger] self.devs@[j]).fd,
            decreases self.devs@.len() - i,
        {
            fds.push(self.devs[i].fd);
            i = i + 1;
        }
        self.devs = Vec::new();
        fds
    }

    /// The index of the first reader with bytes left in its window.
    pub fn pending(&self) -> (r: Option<usize>)
        ensures
            r matches Some(i) ==> i < self.devs().len() && self.devs()[i as int].len > 0
                && forall|j: int| 0 <= j < i ==> (#[trigger] self.devs()[j]).len == 0,
            r is None ==> forall|j: int| 0 <= j < self.devs().len() ==> (#[trigger] self.devs()[j]).len == 0,
    {
        let mut i: usize = 0;
        while i < self.devs.len()
            invariant
                i <= self.devs@.len(),
                forall|j: int| 0 <= j < i ==> (#[trigger] self.devs@[j]).len == 0,
            decreases self.devs@.len() - i,
        {
            if self.devs[i].len > 0 {
                return Some(i);
            }
            i = i + 1;
        }
        None
    }

    /// Determines whether to wait before the next refresh so that the rings
    /// can fill: never while some ring is busy, and not after
    /// [`MAX_N_CONSECUTIVE_WAITS`] waits in a row; either of those resets
    /// the count of waits.
    pub fn check_next_wait(&mut self, heads: &Vec<u32>) -> (r: bool)
        requires
            old(self).wf(),
            old(self).heads_ok(heads@),
        ensures
            final(self).wf(),
            final(self).devs() == old(self).devs(),
            final(self).table() == old(self).table(),
            r == backoff(old(self).waits(), old(self).busy(heads@)).0,
            !r ==> final(self).waits() == 0,
            r ==> final(self).waits() == old(self).waits(),
    {
        let mut res = true;
        let mut i: usize = 0;
        while i < self.devs.len()
            invariant
                i <= self.devs@.len(),
                self.devs@ == old(self).devs@,
                self.syscall_table == old(self).syscall_table,
                self.heads_ok(heads@),
                forall|k: int| 0 <= k < self.devs@.len() ==> (#[trigger] self.devs@[k]).wf(),
                res <==> forall|j: int| 0 <= j < i ==> window((#[trigger] self.devs@[j]).tail, heads@[j]) <= LARGE_WINDOW,
                res ==> self.consecutive_waits == old(self).consecutive_waits,
                !res ==> self.consecutive_waits == 0,
            decreases self.devs@.len() - i,
        {
            let read_size = get_buffer_readsize(self.devs[i].tail, heads[i]);
            if read_size > LARGE_WINDOW {
                self.consecutive_waits = 0;
                res = false;
            }
            i = i + 1;
        }
        if !res {
            return false;
        }
        if self.consecutive_waits >= MAX_N_CONSECUTIVE_WAITS {
            self.consecutive_waits = 0;
            false
        } else {
            true
        }
    }

    /// Consumes the next event of reader `cpu` from its ring's bytes `data`
    /// (the data region, double-mapped so that an event that wraps is one
    /// flat range) and decodes it. An event whose identifier is unknown is
    /// consumed and dropped. Where the header does not fit in `data`, or its
    /// length is zero or more than the window has left, the rest of the
    /// window is dropped.
    pub fn take_event(&mut self, cpu: usize, data: &[u8]) -> (r: Option<Syscall>)
        requires
            old(self).wf(),
            cpu < old(self).devs().len(),
            old(self).devs()[cpu as int].len > 0,
        ensures
            final(self).wf(),
            final(self).waits() == old(self).waits(),
            final(self).table() == old(self).table(),
            final(self).devs().len() == old(self).devs().len(),
            forall|j: int| 0 <= j < old(self).devs().len() && j != cpu ==> (#[trigger] final(self).devs()[j]) == old(self).devs()[j],
            ({
                let d = old(self).devs()[cpu as int];
                match event_len(data@, d.next_syscall as int, d.len) {
                    Some(l) => final(self).devs()[cpu as int] == consumed(d, l)
                        && r.is_some() == decode_spec(old(self).table(), data@, d.next_syscall as int).is_some()
                        && (r.is_some() ==> r.unwrap()@ == decode_spec(old(self).table(), data@, d.next_syscall as int).unwrap()),
                    None => final(self).devs()[cpu as int] == consumed(d, d.len) && r.is_none(),
                }
            }),
    {
        let d = &self.devs[cpu];
        let off = d.next_syscall;
        let remaining = d.len;
        proof {
            assert(old(self).devs()[cpu as int].wf());
        }
        let (hdr_ok, l) = match SyscallHdr::read(data, off) {
            Some(h) => if 0 < h.len && h.len <= remaining { (true, h.len) } else { (false, remaining) },
            None => (false, remaining),
        };
        let e = RingBufferDev {
            fd: d.fd,
            tail: d.tail,
            last_readsize: d.last_readsize,
            next_syscall: off + l as usize,
            len: remaining - l,
            taken: Ghost(d.taken@.push((off as int, l as int))),
        };
        proof {
            lemma_consumed_wf(old(self).devs()[cpu as int], l);
        }
        self.devs[cpu] = e;
        proof {
            assert forall|i: int| 0 <= i < self.devs@.len() implies (#[trigger] self.devs@[i]).wf() by {
                if i != cpu {
                    assert(old(self).devs()[i].wf());
                }
            }
        }
        if hdr_ok {
            decode_event(&self.syscall_table, data, off)
        } else {
            None
        }
    }

    /// Refreshes every reader against the write cursors `heads`: its read
    /// cursor moves past the window it last read, wrapping around the ring,
    /// and the bytes from there to its head become its new window. The
    /// caller then publishes each reader's [`tail`](Self::tail).
    pub fn refresh(&mut self, heads: &Vec<u32>)
        requires
            old(self).wf(),
            old(self).heads_ok(heads@),
        ensures
            final(self).wf(),
            final(self).waits() == old(self).waits(),
            final(self).table() == old(self).table(),
            final(self).devs().len() == old(self).devs().len(),
            forall|i: int| 0 <= i < old(self).devs().len() ==> (#[trigger] final(self).devs()[i]) == refreshed(old(self).devs()[i], heads@[i]),
    {
        let n = self.devs.len();
        let mut i: usize = 0;
        while i < n
            invariant
                n == self.devs@.len() == old(self).devs@.len() == heads@.len(),
                i <= n,
                self.consecutive_waits == old(self).consecutive_waits,
                self.syscall_table == old(self).syscall_table,
                forall|k: int| 0 <= k < heads@.len() ==> #[trigger] heads@[k] < RING_BUF_SIZE,
                forall|k: int| 0 <= k < n ==> (#[trigger] old(self).devs@[k]).wf(),
                forall|k: int| 0 <= k < i ==> (#[trigger] self.devs@[k]) == refreshed(old(self).devs@[k], heads@[k]),
                forall|k: int| i <= k < n ==> (#[trigger] self.devs@[k]) == old(self).devs@[k],
            decreases n - i,
        {
            let d = &self.devs[i];
            let ttail: u32 = if d.last_readsize < RING_BUF_SIZE - d.tail {
                d.tail + d.last_readsize
            } else {
                d.last_readsize - (RING_BUF_SIZE - d.tail)
            };
            proof {
                let t = d.tail as int + d.last_readsize as int;
                let r = RING_BUF_SIZE as int;
                if t < r {
                    assert(t % r == t) by (nonlinear_arith)
                        requires
                            0 <= t < r,
                    ;
                } else {
                    assert(t % r == t - r) by (nonlinear_arith)
                        requires
                            r <= t < 2 * r,
                    ;
                }
                assert(ttail == advance(d.tail, d.last_readsize));
            }
            let read_size = get_buffer_readsize(ttail, heads[i]);
            let e = RingBufferDev {
                fd: d.fd,
                tail: ttail,
                last_readsize: read_size,
                next_syscall: ttail as usize,
                len: read_size,
                taken: Ghost(Seq::empty()),
            };
            self.devs[i] = e;
            i = i + 1;
        }
        proof {
            assert forall|k: int| 0 <= k < self.devs@.len() implies (#[trigger] self.devs@[k]).wf() by {
                assert(span_sum(self.devs@[k].taken@) == 0);
            }
        }
    }

    /// Decides the next step of the drain: the first reader with bytes left
    /// in its window gives up its next event; where there is none, every
    /// reader is refreshed, after a wait where the back-off policy asks for
    /// one, which counts as one more consecutive wait.
    pub fn next_step(&mut self, heads: &Vec<u32>) -> (r: Step)
        requires
            old(self).wf(),
            old(self).heads_ok(heads@),
        ensures
            final(self).wf(),
            final(self).devs() == old(self).devs(),
            final(self).table() == old(self).table(),
            match r {
                Step::Event(i) => i < old(self).devs().len() && old(self).devs()[i as int].len > 0
                    && (forall|j: int| 0 <= j < i ==> (#[trigger] old(self).devs()[j]).len == 0)
                    && final(self).waits() == old(self).waits(),
                Step::Refresh { wait } => (forall|j: int| 0 <= j < old(self).devs().len() ==> (#[trigger] old(self).devs()[j]).len == 0)
                    && (wait, final(self).waits()) == backoff(old(self).waits(), old(self).busy(heads@)),
            },
    {
        match self.pending() {
            Some(i) => Step::Event(i),
            None => {
                let wait = self.check_next_wait(heads);
                if wait {
                    self.consecutive_waits = self.consecutive_waits + 1;
                }
                Step::Refresh { wait }
            },
        }
    }
}

} // verus!
