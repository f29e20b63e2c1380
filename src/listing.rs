//! The directory listing: entries ordered directories first, then by name,
//! one formatted row each.
use vstd::prelude::*;

use vstd::multiset::Multiset;

use crate::decimal::{digits, push_digits};
use crate::text::{push_str, string_of};

verus! {

broadcast use vstd::seq_lib::group_to_multiset_ensures;

/// What an entry is, as its own metadata says (links are not followed).
pub enum EntryKind {
    Dir,
    File,
    Link,
    Other,
}

/// What the listing shows of one directory entry.
pub struct DirEntryInfo {
    pub name: String,
    /// The entry is a directory, links followed; this decides its place.
    pub sorts_as_dir: bool,
    pub kind: EntryKind,
    pub readonly: bool,
    pub size: u64,
    /// Seconds since the Unix epoch of the last change.
    pub modified_secs: u64,
}

/// `a` comes before `b` in code point order.
pub open spec fn name_lt(a: Seq<char>, b: Seq<char>) -> bool
    decreases a.len(),
{
    if a.len() == 0 {
        b.len() > 0
    } else if b.len() == 0 {
        false
    } else if (a[0] as u32) < (b[0] as u32) {
        true
    } else if (a[0] as u32) == (b[0] as u32) {
        name_lt(a.drop_first(), b.drop_first())
    } else {
        false
    }
}

/// `a` is listed before `b`: directories first, then by name.
pub open spec fn entry_lt(a: DirEntryInfo, b: DirEntryInfo) -> bool {
    (a.sorts_as_dir && !b.sorts_as_dir) || (a.sorts_as_dir == b.sorts_as_dir && name_lt(
        a.name@,
        b.name@,
    ))
}

/// No entry of `s` is listed before one that precedes it.
pub open spec fn listed_in_order(s: Seq<DirEntryInfo>) -> bool {
    forall|i: int, j: int| 0 <= i < j < s.len() ==> !entry_lt(#[trigger] s[j], #[trigger] s[i])
}

proof fn lemma_name_lt_order(a: Seq<char>, b: Seq<char>, c: Seq<char>)
    ensures
        name_lt(a, b) ==> !name_lt(b, a),
        name_lt(a, b) && name_lt(b, c) ==> name_lt(a, c),
    decreases a.len(),
{
    if a.len() > 0 && b.len() > 0 && c.len() > 0 {
        lemma_name_lt_order(a.drop_first(), b.drop_first(), c.drop_first());
    }
    if a.len() > 0 && b.len() > 0 {
        lemma_name_lt_order(a.drop_first(), b.drop_first(), a.drop_first());
    }
}

proof fn lemma_entry_lt_order(a: DirEntryInfo, b: DirEntryInfo, c: DirEntryInfo)
    ensures
        entry_lt(a, b) ==> !entry_lt(b, a),
        entry_lt(a, b) && entry_lt(b, c) ==> entry_lt(a, c),
{
    lemma_name_lt_order(a.name@, b.name@, c.name@);
}

fn name_less(a: &String, b: &String) -> (r: bool)
    ensures
        r == name_lt(a@, b@),
{
    let x = crate::text::chars_of(a.as_str());
    let y = crate::text::chars_of(b.as_str());
    let mut i: usize = 0;
    assert(x@.subrange(0, x.len() as int) =~= x@);
    assert(y@.subrange(0, y.len() as int) =~= y@);
    while i < x.len() && i < y.len() && (x[i] as u32) == (y[i] as u32)
        invariant
            i <= x.len(),
            i <= y.len(),
            x@ == a@,
            y@ == b@,
            name_lt(a@, b@) == name_lt(x@.subrange(i as int, x.len() as int), y@.subrange(
                i as int,
                y.len() as int,
            )),
        decreases x.len() - i,
    {
        assert(x@.subrange(i as int, x.len() as int).drop_first() =~= x@.subrange(
            i + 1,
            x.len() as int,
        ));
        assert(y@.subrange(i as int, y.len() as int).drop_first() =~= y@.subrange(
            i + 1,
            y.len() as int,
        ));
        i = i + 1;
    }
    if i == x.len() {
        i < y.len()
    } else if i == y.len() {
        false
    } else {
        (x[i] as u32) < (y[i] as u32)
    }
}

fn entry_less(a: &DirEntryInfo, b: &DirEntryInfo) -> (r: bool)
    ensures
        r == entry_lt(*a, *b),
{
    (a.sorts_as_dir && !b.sorts_as_dir) || (a.sorts_as_dir == b.sorts_as_dir && name_less(
        &a.name,
        &b.name,
    ))
}

/// Orders entries for listing: directories first, then by name.
pub fn sort_entries(entries: Vec<DirEntryInfo>) -> (r: Vec<DirEntryInfo>)
    ensures
        listed_in_order(r@),
        r@.to_multiset() == entries@.to_multiset(),
{
    let mut rest = entries;
    let mut r: Vec<DirEntryInfo> = Vec::new();
    while rest.len() > 0
        invariant
            listed_in_order(r@),
            r@.to_multiset().add(rest@.to_multiset()) == entries@.to_multiset(),
        decreases rest.len(),
    {
        let ghost before = rest@;
        let e = rest.pop().unwrap();
        proof {
            assert(before =~= rest@.push(e));
        }
        let mut k: usize = 0;
        while k < r.len() && !entry_less(&e, &r[k])
            invariant
                k <= r.len(),
                forall|j: int| 0 <= j < k ==> !entry_lt(e, #[trigger] r@[j]),
            decreases r.len() - k,
        {
            k = k + 1;
        }
        let ghost old_r = r@;
        r.insert(k, e);
        proof {
            assert(r@ =~= old_r.insert(k as int, e));
            assert forall|i: int, j: int| 0 <= i < j < r@.len() implies !entry_lt(
                #[trigger] r@[j],
                #[trigger] r@[i],
            ) by {
                if j < k {
                } else if j == k {
                    assert(!entry_lt(e, old_r[i]));
                } else if i == k {
                    lemma_entry_lt_order(old_r[j - 1], e, old_r[k as int]);
                    if j - 1 > k {
                        assert(!entry_lt(old_r[j - 1], old_r[k as int]));
                    }
                } else if i < k {
                    assert(!entry_lt(old_r[j - 1], old_r[i]));
                } else {
                    assert(!entry_lt(old_r[j - 1], old_r[i - 1]));
                }
            }
        }
    }
    proof {
        assert(rest@.to_multiset() =~= Multiset::empty());
        assert(r@.to_multiset().add(Multiset::empty()) =~= r@.to_multiset());
    }
    r
}

} // verus!

verus! {

/// The UTC time `secs` seconds after the Unix epoch, as `YYYY-MM-DD HH:MM`.
pub uninterp spec fn utc_minutes(secs: int) -> Seq<char>;

/// Relies on chrono's `DateTime::<Utc>::from_timestamp` and its
/// `format("%Y-%m-%d %H:%M")`: the text depends on the seconds alone (the
/// epoch itself where chrono cannot represent the time).
#[verifier::external_body]
fn format_utc_minutes(secs: u64) -> (r: String)
    ensures
        r@ == utc_minutes(secs as int),
{
    chrono::DateTime::<chrono::Utc>::from_timestamp(secs as i64, 0).unwrap_or_default().format(
        "%Y-%m-%d %H:%M",
    ).to_string()
}

pub open spec fn spaces(n: nat) -> Seq<char>
    decreases n,
{
    if n == 0 {
        Seq::empty()
    } else {
        spaces((n - 1) as nat).push(' ')
    }
}

pub open spec fn kind_text(k: EntryKind) -> Seq<char> {
    match k {
        EntryKind::Dir => "dir "@,
        EntryKind::File => "file"@,
        EntryKind::Link => "link"@,
        EntryKind::Other => "other"@,
    }
}

/// The permission column, padded to eleven characters.
pub open spec fn permission_text(readonly: bool) -> Seq<char> {
    (if readonly {
        "r--"@
    } else {
        "rw-"@
    }) + spaces(8)
}

/// `n` right-aligned in eight characters.
pub open spec fn size_text(n: u64) -> Seq<char> {
    let d = digits(n as nat);
    if d.len() < 8 {
        spaces((8 - d.len()) as nat) + d
    } else {
        d
    }
}

/// One row: kind, permissions, size, time of change and name, a directory's
/// name ending in `/`.
pub open spec fn row(e: DirEntryInfo) -> Seq<char> {
    kind_text(e.kind) + " "@ + permission_text(e.readonly) + " "@ + size_text(e.size) + " "@
        + utc_minutes(e.modified_secs as int) + " "@ + e.name@ + (if e.kind is Dir {
        "/"@
    } else {
        Seq::empty()
    }) + "\n"@
}

pub open spec fn rows(s: Seq<DirEntryInfo>) -> Seq<char>
    decreases s.len(),
{
    if s.len() == 0 {
        Seq::empty()
    } else {
        rows(s.drop_last()) + row(s.last())
    }
}

pub open spec fn listing_header() -> Seq<char> {
    "Type Permissions     Size  Modified             Name\n"@
        + "---- ----------- -------- ------------------- ----------------\n"@
}

fn push_spaces(out: &mut Vec<char>, n: usize)
    ensures
        final(out)@ == old(out)@ + spaces(n as nat),
{
    let mut i: usize = 0;
    while i < n
        invariant
            i <= n,
            out@ == old(out)@ + spaces(i as nat),
        decreases n - i,
    {
        out.push(' ');
        assert(out@ =~= old(out)@ + spaces((i + 1) as nat));
        i = i + 1;
    }
}

fn push_kind(out: &mut Vec<char>, k: &EntryKind)
    ensures
        final(out)@ == old(out)@ + kind_text(*k),
{
    match k {
        EntryKind::Dir => push_str(out, "dir "),
        EntryKind::File => push_str(out, "file"),
        EntryKind::Link => push_str(out, "link"),
        EntryKind::Other => push_str(out, "other"),
    }
}

fn push_permissions(out: &mut Vec<char>, readonly: bool)
    ensures
        final(out)@ == old(out)@ + permission_text(readonly),
{
    if readonly {
        push_str(out, "r--");
    } else {
        push_str(out, "rw-");
    }
    push_spaces(out, 8);
    assert(out@ =~= old(out)@ + permission_text(readonly));
}

fn push_size(out: &mut Vec<char>, n: u64)
    ensures
        final(out)@ == old(out)@ + size_text(n),
{
    let mut d: Vec<char> = Vec::new();
    push_digits(&mut d, n);
    assert(d@ =~= digits(n as nat));
    if d.len() < 8 {
        push_spaces(out, 8 - d.len());
    }
    crate::text::push_range(out, &d, 0, d.len());
    assert(d@.subrange(0, d@.len() as int) =~= d@);
    assert(out@ =~= old(out)@ + size_text(n));
}

fn push_row(out: &mut Vec<char>, e: &DirEntryInfo)
    ensures
        final(out)@ == old(out)@ + row(*e),
{
    push_kind(out, &e.kind);
    push_str(out, " ");
    push_permissions(out, e.readonly);
    push_str(out, " ");
    push_size(out, e.size);
    push_str(out, " ");
    let t = format_utc_minutes(e.modified_secs);
    push_str(out, t.as_str());
    push_str(out, " ");
    push_str(out, e.name.as_str());
    if let EntryKind::Dir = e.kind {
        push_str(out, "/");
    }
    push_str(out, "\n");
    assert(out@ =~= old(out)@ + row(*e));
}

/// The listing text: a header, then one row per entry in the given order.
pub fn format_listing(entries: &Vec<DirEntryInfo>) -> (r: String)
    ensures
        r@ == listing_header() + rows(entries@),
{
    let mut out: Vec<char> = Vec::new();
    push_str(&mut out, "Type Permissions     Size  Modified             Name\n");
    push_str(&mut out, "---- ----------- -------- ------------------- ----------------\n");
    let mut i: usize = 0;
    while i < entries.len()
        invariant
            i <= entries.len(),
            out@ == listing_header() + rows(entries@.subrange(0, i as int)),
        decreases entries.len() - i,
    {
        let ghost before = out@;
        push_row(&mut out, &entries[i]);
        assert(entries@.subrange(0, i + 1).drop_last() =~= entries@.subrange(0, i as int));
        assert(out@ =~= listing_header() + rows(entries@.subrange(0, i + 1)));
        i = i + 1;
    }
    assert(entries@.subrange(0, entries.len() as int) =~= entries@);
    string_of(out.as_slice())
}

/// The listing of a directory's entries, ordered directories first, then
/// by name.
pub fn list_entries(entries: Vec<DirEntryInfo>) -> (r: String)
    ensures
        exists|s: Seq<DirEntryInfo>|
            listed_in_order(s) && s.to_multiset() == entries@.to_multiset() && r@
                == listing_header() + rows(s),
{
    let sorted = sort_entries(entries);
    format_listing(&sorted)
}

} // verus!
