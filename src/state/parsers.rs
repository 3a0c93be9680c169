//! Byte-level pieces of the `/proc` text formats: fixed tags, runs of
//! digits or letters, numbers in a radix, and line ends.
use vstd::prelude::*;
use vstd::string::StringSliceAdditionalSpecFns;

verus! {

/// Whether `t` appears in `b` at `i`.
pub open spec fn tag_at(b: Seq<u8>, i: int, t: Seq<u8>) -> bool {
    0 <= i && i + t.len() <= b.len() && b.subrange(i, i + t.len()) == t
}

/// Checks whether the bytes of `t` appear in `b` at `i`.
pub fn tag(b: &[u8], i: usize, t: &str) -> (r: bool)
    ensures
        r == tag_at(b@, i as int, t.spec_bytes()),
        b@.len() <= usize::MAX,
{
    let blen = b.len();
    let tb = t.as_bytes();
    if i > b.len() || b.len() - i < tb.len() {
        return false;
    }
    let mut k: usize = 0;
    while k < tb.len()
        invariant
            blen == b@.len(),
            tb@ == t.spec_bytes(),
            i + tb@.len() <= b@.len(),
            k <= tb@.len(),
            forall|j: int| 0 <= j < k ==> b@[i + j] == #[trigger] tb@[j],
        decreases tb@.len() - k,
    {
        if b[i + k] != tb[k] {
            assert(b@.subrange(i as int, i + tb@.len())[k as int] != tb@[k as int]);
            return false;
        }
        k = k + 1;
    }
    assert(b@.subrange(i as int, i + tb@.len()) =~= tb@);
    true
}

/// The kinds of byte runs that the formats read.
#[derive(Clone, Copy, PartialEq, Eq, Structural)]
pub enum Class {
    Digit,
    Alpha,
    AlphaNum,
}

pub open spec fn in_class(c: u8, k: Class) -> bool {
    let digit = 48 <= c <= 57;
    let alpha = (65 <= c <= 90) || (97 <= c <= 122);
    match k {
        Class::Digit => digit,
        Class::Alpha => alpha,
        Class::AlphaNum => digit || alpha,
    }
}

/// Where the run of bytes of class `k` that starts at `i` ends.
pub open spec fn run_end(b: Seq<u8>, i: int, k: Class) -> int
    decreases b.len() - i,
{
    if i < 0 || i >= b.len() || !in_class(b[i], k) {
        i
    } else {
        run_end(b, i + 1, k)
    }
}

proof fn lemma_run_end(b: Seq<u8>, i: int, k: Class)
    requires
        0 <= i <= b.len(),
    ensures
        i <= run_end(b, i, k) <= b.len(),
        forall|j: int| i <= j < run_end(b, i, k) ==> in_class(#[trigger] b[j], k),
    decreases b.len() - i,
{
    if i < b.len() && in_class(b[i], k) {
        lemma_run_end(b, i + 1, k);
    }
}

fn is_class(c: u8, k: Class) -> (r: bool)
    ensures
        r == in_class(c, k),
{
    let digit = 48 <= c && c <= 57;
    let alpha = (65 <= c && c <= 90) || (97 <= c && c <= 122);
    match k {
        Class::Digit => digit,
        Class::Alpha => alpha,
        Class::AlphaNum => digit || alpha,
    }
}

/// Finds where the run of bytes of class `k` that starts at `i` ends.
pub fn scan_run(b: &[u8], i: usize, k: Class) -> (r: usize)
    requires
        i <= b@.len(),
    ensures
        r as int == run_end(b@, i as int, k),
        i <= r <= b@.len(),
{
    let mut j: usize = i;
    while j < b.len() && is_class(b[j], k)
        invariant
            i <= j <= b@.len(),
            run_end(b@, i as int, k) == run_end(b@, j as int, k),
        decreases b@.len() - j,
    {
        j = j + 1;
    }
    proof {
        lemma_run_end(b@, i as int, k);
    }
    j
}

/// The value of the ASCII digit `c`; letters count from ten.
pub open spec fn digit_value(c: u8) -> nat {
    if 48 <= c <= 57 {
        (c - 48) as nat
    } else if 65 <= c <= 90 {
        (c - 55) as nat
    } else if 97 <= c <= 122 {
        (c - 87) as nat
    } else {
        99
    }
}

/// The number that the digits `b[i..e]` spell in `radix`.
pub open spec fn radix_value(b: Seq<u8>, i: int, e: int, radix: nat) -> nat
    decreases e - i,
{
    if e <= i {
        0
    } else {
        radix_value(b, i, e - 1, radix) * radix + digit_value(b[e - 1])
    }
}

/// The number in `radix` spelled by the run of class `k` at `i`, and where
/// it ends: none where the run is empty, holds a digit not below `radix`,
/// or spells more than `max`.
pub open spec fn number_at(b: Seq<u8>, i: int, k: Class, radix: nat, max: nat) -> Option<(nat, int)> {
    let e = run_end(b, i, k);
    if e == i || exists|j: int| i <= j < e && digit_value(#[trigger] b[j]) >= radix {
        None
    } else if radix_value(b, i, e, radix) > max {
        None
    } else {
        Some((radix_value(b, i, e, radix), e))
    }
}

fn digit_of(c: u8) -> (r: u64)
    ensures
        r == digit_value(c),
{
    if 48 <= c && c <= 57 {
        (c - 48) as u64
    } else if 65 <= c && c <= 90 {
        (c - 55) as u64
    } else if 97 <= c && c <= 122 {
        (c - 87) as u64
    } else {
        99
    }
}

/// Reads the number in `radix` spelled by the run of class `k` at `i`.
pub fn parse_number(b: &[u8], i: usize, k: Class, radix: u64, max: u64) -> (r: Option<(u64, usize)>)
    requires
        i <= b@.len(),
        2 <= radix <= 16,
        k != Class::Alpha,
    ensures
        r is None <==> number_at(b@, i as int, k, radix as nat, max as nat) is None,
        r matches Some((v, e)) ==> number_at(b@, i as int, k, radix as nat, max as nat) == Some((v as nat, e as int))
            && e <= b@.len(),
{
    let e = scan_run(b, i, k);
    if e == i {
        return None;
    }
    let mut acc: u64 = 0;
    let mut over = false;
    let mut j: usize = i;
    while j < e
        invariant
            i <= j <= e <= b@.len(),
            e as int == run_end(b@, i as int, k),
            2 <= radix <= 16,
            forall|q: int| i <= q < j ==> digit_value(#[trigger] b@[q]) < radix,
            !over ==> acc as nat == radix_value(b@, i as int, j as int, radix as nat) && acc <= max,
            over ==> radix_value(b@, i as int, j as int, radix as nat) > max,
        decreases e - j,
    {
        let d = digit_of(b[j]);
        if d >= radix {
            assert(i <= j < e && digit_value(b@[j as int]) >= radix);
            return None;
        }
        proof {
            assert(radix_value(b@, i as int, j + 1, radix as nat)
                == radix_value(b@, i as int, j as int, radix as nat) * radix as nat + digit_value(b@[j as int]));
        }
        if over {
            proof {
                let v = radix_value(b@, i as int, j as int, radix as nat);
                assert(v * radix as nat >= v) by (nonlinear_arith)
                    requires
                        radix >= 2,
                ;
            }
        } else if d > max {
            proof {
                let v = radix_value(b@, i as int, j as int, radix as nat);
                assert(v * radix as nat >= 0) by (nonlinear_arith);
            }
            over = true;
        } else if acc > (max - d) / radix {
            proof {
                let a = acc as int;
                let m = (max - d) as int;
                let rr = radix as int;
                assert(a * rr + d > max) by (nonlinear_arith)
                    requires
                        a > m / rr,
                        rr >= 2,
                        m == max - d,
                        d >= 0,
                ;
            }
            over = true;
        } else {
            proof {
                let a = acc as int;
                let m = (max - d) as int;
                let rr = radix as int;
                assert(a * rr + d <= max) by (nonlinear_arith)
                    requires
                        a <= m / rr,
                        rr >= 2,
                        m == max - d,
                        d >= 0,
                ;
            }
            acc = acc * radix + d;
        }
        j = j + 1;
    }
    proof {
        lemma_run_end(b@, i as int, k);
    }
    if over {
        None
    } else {
        Some((acc, e))
    }
}

/// Where the text of the line at `i` ends: at the first `\r` or `\n`, or at
/// the end of `b`.
pub open spec fn line_end(b: Seq<u8>, i: int) -> int
    decreases b.len() - i,
{
    if i < 0 || i >= b.len() || b[i] == 13 || b[i] == 10 {
        i
    } else {
        line_end(b, i + 1)
    }
}

proof fn lemma_line_end(b: Seq<u8>, i: int)
    requires
        0 <= i <= b.len(),
    ensures
        i <= line_end(b, i) <= b.len(),
    decreases b.len() - i,
{
    if i < b.len() && b[i] != 13 && b[i] != 10 {
        lemma_line_end(b, i + 1);
    }
}

/// Finds where the text of the line at `i` ends.
pub fn scan_line(b: &[u8], i: usize) -> (r: usize)
    requires
        i <= b@.len(),
    ensures
        r as int == line_end(b@, i as int),
        i <= r <= b@.len(),
{
    let mut j: usize = i;
    while j < b.len() && b[j] != 13 && b[j] != 10
        invariant
            i <= j <= b@.len(),
            line_end(b@, i as int) == line_end(b@, j as int),
        decreases b@.len() - j,
    {
        j = j + 1;
    }
    proof {
        lemma_line_end(b@, i as int);
    }
    j
}

/// Past the line ending (`\n` or `\r\n`) at `i`, if there is one.
pub open spec fn line_ending(b: Seq<u8>, i: int) -> Option<int> {
    if 0 <= i < b.len() && b[i] == 10 {
        Some(i + 1)
    } else if 0 <= i && i + 1 < b.len() && b[i] == 13 && b[i + 1] == 10 {
        Some(i + 2)
    } else {
        None
    }
}

/// Steps over the line ending at `i`.
pub fn skip_line_ending(b: &[u8], i: usize) -> (r: Option<usize>)
    ensures
        r is None <==> line_ending(b@, i as int) is None,
        r matches Some(e) ==> line_ending(b@, i as int) == Some(e as int) && e <= b@.len(),
{
    if i < b.len() && b[i] == 10 {
        Some(i + 1)
    } else if i < b.len() && b.len() - i > 1 && b[i] == 13 && b[i + 1] == 10 {
        Some(i + 2)
    } else {
        None
    }
}

/// Past the first `\n` at or after `i`, if there is one.
pub open spec fn past_newline(b: Seq<u8>, i: int) -> Option<int>
    decreases b.len() - i,
{
    if i < 0 || i >= b.len() {
        None
    } else if b[i] == 10 {
        Some(i + 1)
    } else {
        past_newline(b, i + 1)
    }
}

/// Steps past the rest of the line at `i`, its `\n` included.
pub fn skip_past_newline(b: &[u8], i: usize) -> (r: Option<usize>)
    ensures
        r is None <==> past_newline(b@, i as int) is None,
        r matches Some(e) ==> past_newline(b@, i as int) == Some(e as int) && i < e <= b@.len(),
{
    let mut j: usize = i;
    while j < b.len()
        invariant
            i <= j,
            past_newline(b@, i as int) == past_newline(b@, j as int),
        decreases b@.len() - j,
    {
        if b[j] == 10 {
            return Some(j + 1);
        }
        j = j + 1;
    }
    None
}

} // verus!
