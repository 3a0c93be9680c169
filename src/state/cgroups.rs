//! The `/proc/<pid>/cgroup` format: one `hierarchy-id:subsystems:path` line
//! per control-group hierarchy, for example `7:cpu,cpuacct:/user.slice`.
use vstd::prelude::*;
use crate::state::parsers::{
    number_at, parse_number, past_newline, run_end, scan_run, skip_past_newline, Class,
};
use crate::state::CGroup;
use crate::syscall::{lossy_string, utf8_lossy};

verus! {

/// The characters of each string of `v`.
pub open spec fn strings_view(v: Seq<String>) -> Seq<Seq<char>> {
    Seq::new(v.len(), |k: int| v[k]@)
}

/// What one line of the cgroup file tells.
pub struct CGroupView {
    pub id: nat,
    pub controllers: Seq<Seq<char>>,
    pub path: Seq<char>,
}

impl CGroup {
    pub open spec fn view(&self) -> CGroupView {
        CGroupView { id: self.id as nat, controllers: strings_view(self.controllers@), path: self.path@ }
    }
}

/// Where the subsystem name at `i` ends: letters, then optionally `_` or
/// `=` and more letters (as in `name=systemd`); none where no letter is at
/// `i`.
pub open spec fn controller_end(b: Seq<u8>, i: int) -> Option<int> {
    let e1 = run_end(b, i, Class::Alpha);
    if e1 == i {
        None
    } else {
        let e2 = if 0 <= e1 < b.len() && (b[e1] == 95 || b[e1] == 61) { e1 + 1 } else { e1 };
        Some(run_end(b, e2, Class::Alpha))
    }
}

/// Past an optional `,` and then an optional `:` at `e`.
pub open spec fn after_separators(b: Seq<u8>, e: int) -> int {
    let f = if 0 <= e < b.len() && b[e] == 44 { e + 1 } else { e };
    if 0 <= f < b.len() && b[f] == 58 { f + 1 } else { f }
}

/// The subsystem names listed from `i` on, and where the list ends.
pub open spec fn controllers_at(b: Seq<u8>, i: int) -> (Seq<Seq<char>>, int)
    decreases b.len() - i,
{
    if i < 0 || i >= b.len() {
        (Seq::empty(), i)
    } else {
        match controller_end(b, i) {
            None => (Seq::empty(), i),
            Some(e) => {
                let n = after_separators(b, e);
                if n <= i || n > b.len() {
                    (Seq::empty(), i)
                } else {
                    let (rest, f) = controllers_at(b, n);
                    (seq![utf8_lossy(b.subrange(i, e))] + rest, f)
                }
            },
        }
    }
}

/// The cgroup line at `i`, and where the next line starts.
pub open spec fn cgroup_at(b: Seq<u8>, i: int) -> Option<(CGroupView, int)> {
    match number_at(b, i, Class::Digit, 10, 255) {
        None => None,
        Some((id, e)) => if !(0 <= e < b.len() && b[e] == 58) {
            None
        } else {
            let (cs, f) = controllers_at(b, e + 1);
            match past_newline(b, f) {
                None => None,
                Some(g) => Some((CGroupView { id, controllers: cs, path: utf8_lossy(b.subrange(f, g - 1)) }, g)),
            }
        },
    }
}

/// The cgroup lines from `i` on, up to the first line that does not parse.
pub open spec fn cgroups_at(b: Seq<u8>, i: int) -> Seq<CGroupView>
    decreases b.len() - i,
{
    if i < 0 || i >= b.len() {
        Seq::empty()
    } else {
        match cgroup_at(b, i) {
            None => Seq::empty(),
            Some((c, g)) => if g <= i || g > b.len() {
                Seq::empty()
            } else {
                seq![c] + cgroups_at(b, g)
            },
        }
    }
}

fn controller(b: &[u8], i: usize) -> (r: Option<usize>)
    requires
        i <= b@.len(),
    ensures
        r is None <==> controller_end(b@, i as int) is None,
        r matches Some(e) ==> controller_end(b@, i as int) == Some(e as int) && i < e <= b@.len(),
{
    let e1 = scan_run(b, i, Class::Alpha);
    if e1 == i {
        return None;
    }
    let e2 = if e1 < b.len() && (b[e1] == 95 || b[e1] == 61) { e1 + 1 } else { e1 };
    Some(scan_run(b, e2, Class::Alpha))
}

fn separators(b: &[u8], e: usize) -> (r: usize)
    requires
        e <= b@.len(),
    ensures
        r as int == after_separators(b@, e as int),
        e <= r <= b@.len(),
{
    let f = if e < b.len() && b[e] == 44 { e + 1 } else { e };
    if f < b.len() && b[f] == 58 { f + 1 } else { f }
}

/// Reads the list of subsystem names at `i`.
pub fn parse_controllers(b: &[u8], i: usize) -> (r: (Vec<String>, usize))
    requires
        i <= b@.len(),
    ensures
        strings_view(r.0@) == controllers_at(b@, i as int).0,
        r.1 as int == controllers_at(b@, i as int).1,
        i <= r.1 <= b@.len(),
{
    let mut out: Vec<String> = Vec::new();
    let mut j: usize = i;
    while j < b.len()
        invariant
            i <= j <= b@.len(),
            controllers_at(b@, i as int) == (strings_view(out@) + controllers_at(b@, j as int).0, controllers_at(b@, j as int).1),
        ensures
            i <= j <= b@.len(),
            controllers_at(b@, i as int) == (strings_view(out@) + controllers_at(b@, j as int).0, controllers_at(b@, j as int).1),
            controllers_at(b@, j as int) == (Seq::<Seq<char>>::empty(), j as int),
        decreases b@.len() - j,
    {
        let e = match controller(b, j) {
            Some(e) => e,
            None => break,
        };
        let n = separators(b, e);
        let name = lossy_string(vstd::slice::slice_subrange(b, j, e));
        let ghost old_out = strings_view(out@);
        out.push(name);
        proof {
            let rest = controllers_at(b@, n as int);
            assert(strings_view(out@) =~= old_out.push(name@));
            assert(old_out + (seq![name@] + rest.0) =~= strings_view(out@) + rest.0);
        }
        j = n;
    }
    proof {
        assert(controllers_at(b@, j as int).0 =~= Seq::<Seq<char>>::empty());
        assert(strings_view(out@) + Seq::<Seq<char>>::empty() =~= strings_view(out@));
    }
    (out, j)
}

/// Reads the cgroup line at `i`.
pub fn parse_cgroup(b: &[u8], i: usize) -> (r: Option<(CGroup, usize)>)
    requires
        i <= b@.len(),
    ensures
        r is None <==> cgroup_at(b@, i as int) is None,
        r matches Some((c, g)) ==> cgroup_at(b@, i as int) == Some((c.view(), g as int)) && g <= b@.len(),
{
    let (id, e) = match parse_number(b, i, Class::Digit, 10, 255) {
        Some(x) => x,
        None => return None,
    };
    if !(e < b.len() && b[e] == 58) {
        return None;
    }
    let (controllers, f) = parse_controllers(b, e + 1);
    let g = match skip_past_newline(b, f) {
        Some(g) => g,
        None => return None,
    };
    let path = lossy_string(vstd::slice::slice_subrange(b, f, g - 1));
    let c = CGroup { id: id as u8, controllers, path };
    Some((c, g))
}

/// Parses the cgroup file `b`, line by line, up to the first line that
/// does not parse.
pub fn parse_cgroups(b: &[u8]) -> (r: Vec<CGroup>)
    ensures
        r@.len() == cgroups_at(b@, 0).len(),
        forall|k: int| 0 <= k < r@.len() ==> (#[trigger] r@[k]).view() == cgroups_at(b@, 0)[k],
{
    let mut out: Vec<CGroup> = Vec::new();
    let mut i: usize = 0;
    while i < b.len()
        invariant
            i <= b@.len(),
            cgroups_at(b@, 0) == Seq::new(out@.len(), |k: int| out@[k].view()) + cgroups_at(b@, i as int),
        ensures
            cgroups_at(b@, 0) == Seq::new(out@.len(), |k: int| out@[k].view()) + cgroups_at(b@, i as int),
            cgroups_at(b@, i as int) == Seq::<CGroupView>::empty(),
        decreases b@.len() - i,
    {
        let (c, g) = match parse_cgroup(b, i) {
            Some(x) => x,
            None => break,
        };
        if g <= i {
            break;
        }
        let ghost before = Seq::new(out@.len(), |k: int| out@[k].view());
        let ghost cv = c.view();
        out.push(c);
        proof {
            let after = Seq::new(out@.len(), |k: int| out@[k].view());
            assert(after =~= before.push(cv));
            assert(before + (seq![cv] + cgroups_at(b@, g as int)) =~= after + cgroups_at(b@, g as int));
        }
        i = g;
    }
    proof {
        let v = Seq::new(out@.len(), |k: int| out@[k].view());
        assert(cgroups_at(b@, i as int) =~= Seq::<CGroupView>::empty());
        assert(v + Seq::<CGroupView>::empty() =~= v);
    }
    out
}

} // verus!
