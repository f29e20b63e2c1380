//! Paths shown relative to a base directory.
use vstd::prelude::*;

use crate::text::{chars_of, push_str, slice_string, string_of};

verus! {

/// The piece `s[a..b]` between separators, where it is a component: not
/// empty, and not `.` unless it begins the path.
pub open spec fn kept_span(s: Seq<char>, a: int, b: int) -> Seq<(int, int)> {
    if b > a && (s.subrange(a, b) != "."@ || a == 0) {
        seq![(a, b)]
    } else {
        Seq::empty()
    }
}

/// The spans of the components of `s` from position `i` on, the piece in
/// progress having begun at `start`.
pub open spec fn spans_from(s: Seq<char>, i: int, start: int) -> Seq<(int, int)>
    decreases s.len() - i,
{
    if i < 0 || i >= s.len() {
        kept_span(s, start, s.len() as int)
    } else if s[i] == '/' {
        kept_span(s, start, i) + spans_from(s, i + 1, i + 1)
    } else {
        spans_from(s, i + 1, start)
    }
}

/// Where the components of the path `s` stand in it, in order.
pub open spec fn spans(s: Seq<char>) -> Seq<(int, int)> {
    spans_from(s, 0, 0)
}

/// The texts of the spans `sp` of `s`.
pub open spec fn texts(s: Seq<char>, sp: Seq<(int, int)>) -> Seq<Seq<char>> {
    sp.map_values(|x: (int, int)| s.subrange(x.0, x.1))
}

pub open spec fn rooted(s: Seq<char>) -> bool {
    s.len() > 0 && s[0] == '/'
}

/// `path` relative to `base` where the components of `base` begin those of
/// `path` (both absolute or both relative): `.` where they are all, else the
/// text of `path` from its next component to its last; `path` itself where
/// `base` is no such prefix.
pub open spec fn relative_to(base: Seq<char>, path: Seq<char>) -> Seq<char> {
    let bs = spans(base);
    let ps = spans(path);
    let b = texts(base, bs);
    let p = texts(path, ps);
    if rooted(base) == rooted(path) && b.len() <= p.len() && p.subrange(0, b.len() as int) == b {
        if p.len() == b.len() {
            "."@
        } else {
            path.subrange(ps[b.len() as int].0, ps.last().1)
        }
    } else {
        path
    }
}

pub open spec fn widen2(v: Seq<(usize, usize)>) -> Seq<(int, int)> {
    v.map_values(|x: (usize, usize)| (x.0 as int, x.1 as int))
}

/// The spans are non-empty, within `n`, and in order.
pub open spec fn spans_ordered(v: Seq<(usize, usize)>, n: usize) -> bool {
    &&& forall|k: int| 0 <= k < v.len() ==> (#[trigger] v[k]).0 < v[k].1 <= n
    &&& forall|k1: int, k2: int| 0 <= k1 < k2 < v.len() ==> (#[trigger] v[k1]).1 <= (#[trigger] v[k2]).0
}

fn push_kept_span(r: &mut Vec<(usize, usize)>, s: &[char], a: usize, b: usize)
    requires
        a <= b <= s.len(),
        spans_ordered(old(r)@, s.len()),
        forall|k: int| 0 <= k < old(r)@.len() ==> (#[trigger] old(r)@[k]).1 <= a,
    ensures
        widen2(final(r)@) == widen2(old(r)@) + kept_span(s@, a as int, b as int),
        spans_ordered(final(r)@, s.len()),
        forall|k: int| 0 <= k < final(r)@.len() ==> (#[trigger] final(r)@[k]).1 <= b,
{
    proof {
        reveal_strlit(".");
        assert("."@ =~= seq!['.']);
        if b == a + 1 {
            assert(s@.subrange(a as int, b as int) =~= seq![s@[a as int]]);
            if s@[a as int] == '.' {
                assert(s@.subrange(a as int, b as int) =~= "."@);
            } else {
                assert(s@.subrange(a as int, b as int)[0] != "."@[0]);
            }
        }
        if b != a + 1 {
            assert(s@.subrange(a as int, b as int).len() != "."@.len());
        }
        assert((s@.subrange(a as int, b as int) == "."@) == (b == a + 1 && s@[a as int] == '.'));
    }
    if b > a && (!(b == a + 1 && s[a] == '.') || a == 0) {
        r.push((a, b));
    }
    assert(widen2(r@) =~= widen2(old(r)@) + kept_span(s@, a as int, b as int));
}

fn split_spans(s: &[char]) -> (r: Vec<(usize, usize)>)
    ensures
        widen2(r@) == spans(s@),
        spans_ordered(r@, s.len()),
{
    let mut r: Vec<(usize, usize)> = Vec::new();
    let mut start: usize = 0;
    let mut i: usize = 0;
    assert(widen2(r@) + spans(s@) =~= spans(s@));
    while i < s.len()
        invariant
            start <= i <= s.len(),
            widen2(r@) + spans_from(s@, i as int, start as int) == spans(s@),
            spans_ordered(r@, s.len()),
            forall|k: int| 0 <= k < r@.len() ==> (#[trigger] r@[k]).1 <= start,
        decreases s.len() - i,
    {
        if s[i] == '/' {
            let ghost before = widen2(r@);
            push_kept_span(&mut r, s, start, i);
            assert(widen2(r@) + spans_from(s@, i + 1, i + 1) =~= before + (kept_span(
                s@,
                start as int,
                i as int,
            ) + spans_from(s@, i + 1, i + 1)));
            start = i + 1;
        }
        i = i + 1;
    }
    let ghost before = widen2(r@);
    push_kept_span(&mut r, s, start, s.len());
    r
}

fn same_chars(x: &[char], xa: usize, xb: usize, y: &[char], ya: usize, yb: usize) -> (r: bool)
    requires
        xa <= xb <= x.len(),
        ya <= yb <= y.len(),
    ensures
        r == (x@.subrange(xa as int, xb as int) == y@.subrange(ya as int, yb as int)),
{
    if xb - xa != yb - ya {
        assert(x@.subrange(xa as int, xb as int).len() != y@.subrange(ya as int, yb as int).len());
        return false;
    }
    let n = xb - xa;
    let mut k: usize = 0;
    while k < n
        invariant
            k <= n,
            n == xb - xa,
            n == yb - ya,
            xa <= xb <= x.len(),
            ya <= yb <= y.len(),
            x@.subrange(xa as int, xa + k) == y@.subrange(ya as int, ya + k),
        decreases n - k,
    {
        if x[xa + k] != y[ya + k] {
            assert(x@.subrange(xa as int, xb as int)[k as int] != y@.subrange(
                ya as int,
                yb as int,
            )[k as int]);
            return false;
        }
        assert(x@.subrange(xa as int, xa + k + 1) =~= x@.subrange(xa as int, xa + k).push(
            x@[xa + k],
        ));
        assert(y@.subrange(ya as int, ya + k + 1) =~= y@.subrange(ya as int, ya + k).push(
            y@[ya + k],
        ));
        k = k + 1;
    }
    true
}

/// Shows `path` relative to `base_dir` where it lies within it.
pub fn format_path(base_dir: &str, path: &str) -> (r: String)
    ensures
        r@ == relative_to(base_dir@, path@),
{
    let bc = chars_of(base_dir);
    let pc = chars_of(path);
    let bs = split_spans(&bc);
    let ps = split_spans(&pc);
    let ghost b = texts(bc@, widen2(bs@));
    let ghost p = texts(pc@, widen2(ps@));
    let br = bc.len() > 0 && bc[0] == '/';
    let pr = pc.len() > 0 && pc[0] == '/';
    if br != pr || bs.len() > ps.len() {
        return path.to_string();
    }
    let mut i: usize = 0;
    while i < bs.len()
        invariant
            i <= bs.len() <= ps.len(),
            bc@ == base_dir@,
            pc@ == path@,
            widen2(bs@) == spans(bc@),
            widen2(ps@) == spans(pc@),
            rooted(base_dir@) == rooted(path@),
            b == texts(bc@, widen2(bs@)),
            p == texts(pc@, widen2(ps@)),
            spans_ordered(bs@, bc.len()),
            spans_ordered(ps@, pc.len()),
            p.subrange(0, i as int) == b.subrange(0, i as int),
        decreases bs.len() - i,
    {
        let (x0, x1) = bs[i];
        let (y0, y1) = ps[i];
        if !same_chars(&pc, y0, y1, &bc, x0, x1) {
            assert(p[i as int] != b[i as int]);
            assert(p.subrange(0, bs.len() as int)[i as int] != b[i as int]);
            assert(p.subrange(0, bs.len() as int) != b);
            return path.to_string();
        }
        assert(p.subrange(0, i + 1) =~= b.subrange(0, i + 1));
        i = i + 1;
    }
    assert(p.subrange(0, bs.len() as int) =~= b);
    if ps.len() == bs.len() {
        return ".".to_string();
    }
    let first = ps[bs.len()].0;
    let last = ps[ps.len() - 1].1;
    slice_string(&pc, first, last)
}

} // verus!

verus! {

/// `b` appended to `a` as `Path::join` does: an absolute `b` replaces `a`,
/// else a `/` goes between them where `a` is non-empty and lacks one.
pub open spec fn joined(a: Seq<char>, b: Seq<char>) -> Seq<char> {
    if rooted(b) || a.len() == 0 {
        b
    } else if a.last() == '/' {
        a + b
    } else {
        a + "/"@ + b
    }
}

fn join(a: &str, b: &[char]) -> (r: String)
    ensures
        r@ == joined(a@, b@),
{
    let ac = chars_of(a);
    let mut out: Vec<char> = Vec::new();
    if !(b.len() > 0 && b[0] == '/') && ac.len() > 0 {
        push_str(&mut out, a);
        if ac[ac.len() - 1] != '/' {
            push_str(&mut out, "/");
        }
    }
    crate::text::push_range(&mut out, b, 0, b.len());
    assert(b@.subrange(0, b@.len() as int) =~= b@);
    assert(out@ =~= joined(a@, b@));
    string_of(out.as_slice())
}

/// The path a tool works on: trimmed, `~` and `~/...` taken from the home
/// directory where it is known, and a relative path taken from the current
/// directory where that is known.
pub open spec fn sanitized(path: Seq<char>, home: Option<Seq<char>>, current_dir: Option<Seq<char>>) -> Seq<char> {
    let t = crate::text::trim(path);
    if t.len() > 0 && t[0] == '~' && home is Some && t.len() == 1 {
        home->Some_0
    } else if t.len() > 1 && t[0] == '~' && t[1] == '/' && home is Some {
        joined(home->Some_0, t.subrange(2, t.len() as int))
    } else if !rooted(t) && current_dir is Some {
        joined(current_dir->Some_0, t)
    } else {
        t
    }
}

pub fn sanitize_path(path: &str, home: Option<&str>, current_dir: Option<&str>) -> (r: String)
    ensures
        r@ == sanitized(
            path@,
            match home {
                Some(h) => Some(h@),
                None => None,
            },
            match current_dir {
                Some(c) => Some(c@),
                None => None,
            },
        ),
{
    let pc = chars_of(path);
    let (a, b) = crate::text::trim_bounds(&pc);
    let t = &pc.as_slice()[a..b];
    let tv = string_of(t);
    match home {
        Some(h) => {
            if t.len() == 1 && t[0] == '~' {
                return h.to_string();
            }
            if t.len() > 1 && t[0] == '~' && t[1] == '/' {
                return join(h, &t[2..t.len()]);
            }
        },
        None => {},
    }
    match current_dir {
        Some(c) => {
            if !(t.len() > 0 && t[0] == '/') {
                return join(c, t);
            }
        },
        None => {},
    }
    tv
}

} // verus!
