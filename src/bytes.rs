//! Bounds-checked reads of the driver's wire format: little-endian integers
//! and NUL-terminated strings taken from a byte buffer.
use vstd::prelude::*;

verus! {

/// The number that the `n` bytes of `b` starting at `p` encode, least
/// significant byte first.
pub open spec fn le_nat(b: Seq<u8>, p: int, n: nat) -> nat
    decreases n,
{
    if n == 0 {
        0
    } else {
        b[p] as nat + 256 * le_nat(b, p + 1, (n - 1) as nat)
    }
}

/// 256 to the power `n`.
pub open spec fn pow256(n: nat) -> nat
    decreases n,
{
    if n == 0 {
        1
    } else {
        256 * pow256((n - 1) as nat)
    }
}

proof fn lemma_le_nat_bound(b: Seq<u8>, p: int, n: nat)
    ensures
        le_nat(b, p, n) < pow256(n),
    decreases n,
{
    if n > 0 {
        lemma_le_nat_bound(b, p + 1, (n - 1) as nat);
        let x = le_nat(b, p + 1, (n - 1) as nat);
        let m = pow256((n - 1) as nat);
        let d = b[p] as nat;
        assert(d + 256 * x < 256 * m) by (nonlinear_arith)
            requires
                x < m,
                d < 256,
        ;
    }
}

/// Reads `n` (at most eight) bytes of `b` at `p` as a little-endian number.
fn read_le(b: &[u8], p: usize, n: usize) -> (r: u64)
    requires
        n <= 8,
        p + n <= b@.len(),
    ensures
        r as nat == le_nat(b@, p as int, n as nat),
{
    let len = b.len();
    let mut acc: u64 = 0;
    let mut i: usize = n;
    proof {
        assert(pow256(0) == 1);
    }
    while i > 0
        invariant
            i <= n <= 8,
            p + n <= b@.len() == len,
            acc as nat == le_nat(b@, p + i, (n - i) as nat),
        decreases i,
    {
        i = i - 1;
        proof {
            lemma_le_nat_bound(b@, p + i + 1, (n - i - 1) as nat);
            reveal_with_fuel(pow256, 8);
            assert(pow256((n - i - 1) as nat) <= pow256(7)) by {
                lemma_pow256_mono((n - i - 1) as nat, 7);
            }
            assert(pow256(7) == 72057594037927936);
            assert(acc < 72057594037927936);
        }
        let d: u64 = b[p + i] as u64;
        acc = d + acc * 256;
    }
    acc
}

proof fn lemma_pow256_mono(a: nat, c: nat)
    requires
        a <= c,
    ensures
        pow256(a) <= pow256(c),
    decreases c,
{
    if a < c {
        lemma_pow256_mono(a, (c - 1) as nat);
    }
}

/// The `n` little-endian bytes of `x`, least significant first.
pub open spec fn le_bytes(x: nat, n: nat) -> Seq<u8>
    decreases n,
{
    if n == 0 {
        Seq::empty()
    } else {
        seq![(x % 256) as u8] + le_bytes(x / 256, (n - 1) as nat)
    }
}

/// A number read from two places that hold the same bytes is the same.
pub proof fn lemma_le_nat_window(b1: Seq<u8>, p1: int, b2: Seq<u8>, p2: int, n: nat)
    requires
        forall|k: int| 0 <= k < n ==> #[trigger] b1[p1 + k] == b2[p2 + k],
    ensures
        le_nat(b1, p1, n) == le_nat(b2, p2, n),
    decreases n,
{
    if n > 0 {
        assert(b1[p1 + 0] == b2[p2 + 0]);
        assert forall|k: int| 0 <= k < n - 1 implies #[trigger] b1[(p1 + 1) + k] == b2[(p2 + 1) + k] by {
            assert(b1[p1 + (k + 1)] == b2[p2 + (k + 1)]);
        }
        lemma_le_nat_window(b1, p1 + 1, b2, p2 + 1, (n - 1) as nat);
    }
}

/// Reading back the little-endian bytes of a number that fits gives the
/// number.
pub proof fn lemma_le_bytes_round_trip(x: nat, n: nat)
    requires
        x < pow256(n),
    ensures
        le_bytes(x, n).len() == n,
        le_nat(le_bytes(x, n), 0, n) == x,
    decreases n,
{
    if n > 0 {
        let m = pow256((n - 1) as nat);
        assert(x / 256 < m) by (nonlinear_arith)
            requires
                x < 256 * m,
        ;
        lemma_le_bytes_round_trip(x / 256, (n - 1) as nat);
        let b = le_bytes(x, n);
        let t = le_bytes(x / 256, (n - 1) as nat);
        assert forall|k: int| 0 <= k < n - 1 implies #[trigger] b[1 + k] == t[0 + k] by {}
        lemma_le_nat_window(b, 1, t, 0, (n - 1) as nat);
        assert(x == x % 256 + 256 * (x / 256)) by (nonlinear_arith);
    }
}

pub open spec fn le_u16(b: Seq<u8>, p: int) -> u16 {
    le_nat(b, p, 2) as u16
}

pub open spec fn le_u32(b: Seq<u8>, p: int) -> u32 {
    le_nat(b, p, 4) as u32
}

pub open spec fn le_u64(b: Seq<u8>, p: int) -> u64 {
    le_nat(b, p, 8) as u64
}

pub fn read_u8(b: &[u8], p: usize) -> (r: u8)
    requires
        p + 1 <= b@.len(),
    ensures
        r == b@[p as int],
{
    b[p]
}

pub fn read_u16(b: &[u8], p: usize) -> (r: u16)
    requires
        p + 2 <= b@.len(),
    ensures
        r == le_u16(b@, p as int),
{
    proof {
        lemma_le_nat_bound(b@, p as int, 2);
        reveal_with_fuel(pow256, 3);
    }
    read_le(b, p, 2) as u16
}

pub fn read_u32(b: &[u8], p: usize) -> (r: u32)
    requires
        p + 4 <= b@.len(),
    ensures
        r == le_u32(b@, p as int),
{
    proof {
        lemma_le_nat_bound(b@, p as int, 4);
        reveal_with_fuel(pow256, 5);
    }
    read_le(b, p, 4) as u32
}

pub fn read_u64(b: &[u8], p: usize) -> (r: u64)
    requires
        p + 8 <= b@.len(),
    ensures
        r == le_u64(b@, p as int),
{
    read_le(b, p, 8)
}

/// The index of the first NUL byte of `b` at or after `p`, or the length of
/// `b` where there is none.
pub open spec fn cstr_end(b: Seq<u8>, p: int) -> int
    decreases b.len() - p,
{
    if p >= b.len() {
        b.len() as int
    } else if p < 0 || b[p] == 0 {
        p
    } else {
        cstr_end(b, p + 1)
    }
}

/// The bytes of the NUL-terminated string that starts at `p`, without the
/// terminator; empty where `p` is past the end of `b`.
pub open spec fn cstr_bytes(b: Seq<u8>, p: int) -> Seq<u8> {
    if 0 <= p < b.len() {
        b.subrange(p, cstr_end(b, p))
    } else {
        Seq::empty()
    }
}

pub proof fn lemma_cstr_end_range(b: Seq<u8>, p: int)
    requires
        0 <= p <= b.len(),
    ensures
        p <= cstr_end(b, p) <= b.len(),
    decreases b.len() - p,
{
    if p < b.len() && b[p] != 0 {
        lemma_cstr_end_range(b, p + 1);
    }
}

/// Finds where the NUL-terminated string starting at `p` ends.
pub fn find_nul(b: &[u8], p: usize) -> (r: usize)
    requires
        p <= b@.len(),
    ensures
        r as int == cstr_end(b@, p as int),
        p <= r <= b@.len(),
{
    let mut i: usize = p;
    while i < b.len() && b[i] != 0
        invariant
            p <= i <= b@.len(),
            cstr_end(b@, p as int) == cstr_end(b@, i as int),
        decreases b@.len() - i,
    {
        i = i + 1;
    }
    proof {
        lemma_cstr_end_range(b@, p as int);
    }
    i
}

} // verus!
