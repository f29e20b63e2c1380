//! What the file tools compute on a file's text, apart from reading and
//! writing the file itself.
use vstd::prelude::*;

use crate::decimal::{decimal, push_decimal, push_digits};
use crate::text::{
    chars_of, find, lemma_find_from_bounds, matches_at, push_range, push_str, string_of, views,
};

verus! {

/// The lines of `s` as `str::lines` gives them, continuing a line `cur`
/// already begun: split at `\n`, one `\r` before it dropped, no empty line
/// after a final `\n`.
pub open spec fn lines_acc(s: Seq<char>, cur: Seq<char>) -> Seq<Seq<char>>
    decreases s.len(),
{
    if s.len() == 0 {
        if cur.len() == 0 {
            Seq::empty()
        } else {
            seq![cur]
        }
    } else if s[0] == '\n' {
        seq![strip_cr(cur)] + lines_acc(s.drop_first(), Seq::empty())
    } else {
        lines_acc(s.drop_first(), cur.push(s[0]))
    }
}

pub open spec fn strip_cr(l: Seq<char>) -> Seq<char> {
    if l.len() > 0 && l.last() == '\r' {
        l.drop_last()
    } else {
        l
    }
}

/// The lines of `s`.
pub open spec fn lines_of(s: Seq<char>) -> Seq<Seq<char>> {
    lines_acc(s, Seq::empty())
}

/// `ls` joined with `\n` between them.
pub open spec fn join_lines(ls: Seq<Seq<char>>) -> Seq<char>
    decreases ls.len(),
{
    if ls.len() == 0 {
        Seq::empty()
    } else if ls.len() == 1 {
        ls[0]
    } else {
        join_lines(ls.drop_last()) + "\n"@ + ls.last()
    }
}

/// The lines of `content`.
pub fn split_lines(content: &str) -> (r: Vec<String>)
    ensures
        views(r@) == lines_of(content@),
{
    let s = chars_of(content);
    let mut r: Vec<String> = Vec::new();
    let mut cur: Vec<char> = Vec::new();
    let mut i: usize = 0;
    assert(s@.subrange(0, s.len() as int) =~= s@);
    assert(views(r@) + lines_of(s@) =~= lines_of(s@));
    assert(cur@ =~= Seq::<char>::empty());
    while i < s.len()
        invariant
            i <= s.len(),
            s@ == content@,
            views(r@) + lines_acc(s@.subrange(i as int, s.len() as int), cur@) == lines_of(s@),
        decreases s.len() - i,
    {
        let ghost tail = s@.subrange(i as int, s.len() as int);
        assert(tail.drop_first() =~= s@.subrange(i + 1, s.len() as int));
        let ghost old_r = r@;
        if s[i] == '\n' {
            let n = cur.len();
            let line = if n > 0 && cur[n - 1] == '\r' {
                string_of(&cur.as_slice()[0..n - 1])
            } else {
                string_of(cur.as_slice())
            };
            assert(line@ == strip_cr(cur@)) by {
                if n > 0 && cur@[n - 1] == '\r' {
                    assert(cur@.subrange(0, n - 1) =~= cur@.drop_last());
                }
            }
            r.push(line);
            assert(views(r@) =~= views(old_r).push(line@));
            assert(views(r@) + lines_acc(s@.subrange(i + 1, s.len() as int), Seq::empty()) =~= views(
                old_r,
            ) + (seq![strip_cr(cur@)] + lines_acc(tail.drop_first(), Seq::empty())));
            cur = Vec::new();
        } else {
            cur.push(s[i]);
        }
        i = i + 1;
    }
    if cur.len() > 0 {
        let ghost old_r = r@;
        r.push(string_of(cur.as_slice()));
        assert(views(r@) =~= views(old_r) + seq![cur@]);
    } else {
        assert(views(r@) + Seq::<Seq<char>>::empty() =~= views(r@));
    }
    r
}

/// `lines[lo..hi]` joined with `\n`, appended to `out`.
fn push_joined(out: &mut Vec<char>, lines: &Vec<String>, lo: usize, hi: usize)
    requires
        lo <= hi <= lines.len(),
    ensures
        final(out)@ == old(out)@ + join_lines(views(lines@).subrange(lo as int, hi as int)),
{
    let mut i = lo;
    while i < hi
        invariant
            lo <= i <= hi <= lines.len(),
            out@ == old(out)@ + join_lines(views(lines@).subrange(lo as int, i as int)),
        decreases hi - i,
    {
        let ghost before = out@;
        let ghost prev = views(lines@).subrange(lo as int, i as int);
        let ghost next = views(lines@).subrange(lo as int, i + 1);
        assert(next.drop_last() =~= prev);
        assert(next.last() == lines@[i as int]@);
        if i > lo {
            push_str(out, "\n");
        }
        push_str(out, lines[i].as_str());
        if i > lo {
            assert(out@ =~= old(out)@ + (join_lines(prev) + "\n"@ + lines@[i as int]@));
        } else {
            assert(out@ =~= old(out)@ + lines@[i as int]@);
        }
        i = i + 1;
    }
}

/// `lines[lo..hi]` joined with `\n`.
pub fn join_range(lines: &Vec<String>, lo: usize, hi: usize) -> (r: String)
    requires
        lo <= hi <= lines.len(),
    ensures
        r@ == join_lines(views(lines@).subrange(lo as int, hi as int)),
{
    let mut out: Vec<char> = Vec::new();
    push_joined(&mut out, lines, lo, hi);
    assert(out@ =~= join_lines(views(lines@).subrange(lo as int, hi as int)));
    string_of(out.as_slice())
}

} // verus!

verus! {

/// Why a line range cannot be read.
pub enum ReadError {
    /// The first line asked for lies beyond the last line of the file.
    StartOutOfRange { start_line: i32, line_count: usize },
}

impl ReadError {
    pub open spec fn message_spec(&self) -> Seq<char> {
        match self {
            ReadError::StartOutOfRange { start_line, line_count } => "Starting line "@ + decimal(
                *start_line as int,
            ) + " is outside of the allowed range (1 to "@ + decimal(*line_count as int) + ")"@,
        }
    }

    /// The text reported for this error.
    pub fn message(&self) -> (r: String)
        ensures
            r@ == self.message_spec(),
    {
        match self {
            ReadError::StartOutOfRange { start_line, line_count } => {
                let mut out: Vec<char> = Vec::new();
                push_str(&mut out, "Starting line ");
                push_decimal(&mut out, *start_line as i64);
                push_str(&mut out, " is outside of the allowed range (1 to ");
                push_digits(&mut out, *line_count as u64);
                push_str(&mut out, ")");
                assert(out@ =~= self.message_spec());
                string_of(out.as_slice())
            },
        }
    }
}

/// The 0-based index of the first line that `start_line` names in a file of
/// `n` lines: 1-based, counted from the end when negative. It lies outside
/// `0..n` where no such line exists (0 names none).
pub open spec fn first_index(start_line: int, n: int) -> int {
    if start_line < 0 {
        n + start_line
    } else {
        start_line - 1
    }
}

/// One past the 0-based index of the last line that `end_line` names:
/// 1-based, counted from the end when negative, 0 meaning the last line.
pub open spec fn end_index(end_line: int, n: int) -> int {
    if end_line < 0 {
        if n + end_line + 1 < 0 {
            0
        } else {
            n + end_line + 1
        }
    } else if end_line == 0 {
        n
    } else {
        end_line
    }
}

/// The line range `[start_line, end_line]` of `content`, both ends counted
/// and 1-based: the lines from the first one named to the last one named (or
/// to the end of the file); just the first where the last comes before it.
/// Fails where the first names no line of the file.
pub open spec fn select_lines_spec(content: Seq<char>, start_line: int, end_line: int) -> Result<
    Seq<char>,
    (int, int),
> {
    let ls = lines_of(content);
    let n = ls.len() as int;
    let a = first_index(start_line, n);
    let e = end_index(end_line, n);
    let b = if e <= a {
        a + 1
    } else if e > n {
        n
    } else {
        e
    };
    if a < 0 || a >= n {
        Err((start_line, n))
    } else {
        Ok(join_lines(ls.subrange(a, b)))
    }
}

/// Converts a 1-based line index, counted from the end when not positive,
/// into a 0-based index no less than 0.
pub fn convert_negative_index(line_count: usize, i: i32) -> (r: usize)
    ensures
        i <= 0 ==> r == (if line_count + i < 0 { 0 } else { line_count + i }),
        i > 0 ==> r == i - 1,
{
    if i <= 0 {
        let back = (-(i as i64)) as usize;
        if back > line_count {
            0
        } else {
            line_count - back
        }
    } else {
        (i - 1) as usize
    }
}

/// Selects the lines `[start_line, end_line]` of a file's text.
pub fn select_lines(content: &str, start_line: i32, end_line: i32) -> (r: Result<String, ReadError>)
    ensures
        match select_lines_spec(content@, start_line as int, end_line as int) {
            Ok(t) => r matches Ok(s) && s@ == t,
            Err((sl, n)) => r matches Err(ReadError::StartOutOfRange { start_line: s, line_count }) && s
                == sl && line_count == n,
        },
{
    let lines = split_lines(content);
    let ghost ls = lines_of(content@);
    assert(views(lines@).len() == lines@.len());
    let n = lines.len();
    let a: usize = if start_line < 0 {
        let back = (-(start_line as i64)) as usize;
        if back > n {
            return Err(ReadError::StartOutOfRange { start_line, line_count: n });
        }
        n - back
    } else if start_line == 0 {
        return Err(ReadError::StartOutOfRange { start_line, line_count: n });
    } else {
        (start_line - 1) as usize
    };
    if a >= n {
        return Err(ReadError::StartOutOfRange { start_line, line_count: n });
    }
    let e: usize = if end_line < 0 {
        let back = (-(end_line as i64) - 1) as usize;
        if back > n {
            0
        } else {
            n - back
        }
    } else if end_line == 0 {
        n
    } else {
        end_line as usize
    };
    let b = if e <= a {
        a + 1
    } else if e > n {
        n
    } else {
        e
    };
    Ok(join_range(&lines, a, b))
}

/// A file's text after appending `content`: a line break first where the
/// text is non-empty and does not end in one, and one after `content` where
/// it does not end in one.
pub open spec fn appended(current: Seq<char>, content: Seq<char>) -> Seq<char> {
    current + (if current.len() > 0 && current.last() != '\n' {
        "\n"@
    } else {
        Seq::empty()
    }) + content + (if content.len() == 0 || content.last() != '\n' {
        "\n"@
    } else {
        Seq::empty()
    })
}

/// The text of a file after `content` is appended to `current`.
pub fn append_content(current: &str, content: &str) -> (r: String)
    ensures
        r@ == appended(current@, content@),
{
    let cur = chars_of(current);
    let add = chars_of(content);
    let mut out: Vec<char> = Vec::new();
    push_range(&mut out, &cur, 0, cur.len());
    if cur.len() > 0 && cur[cur.len() - 1] != '\n' {
        push_str(&mut out, "\n");
    }
    push_range(&mut out, &add, 0, add.len());
    if add.len() == 0 || add[add.len() - 1] != '\n' {
        push_str(&mut out, "\n");
    }
    assert(cur@.subrange(0, cur@.len() as int) =~= cur@);
    assert(add@.subrange(0, add@.len() as int) =~= add@);
    assert(out@ =~= appended(current@, content@));
    string_of(out.as_slice())
}

} // verus!

verus! {

/// Why an edit of a file's text cannot be made.
pub enum EditError {
    /// The text to replace does not occur.
    StringNotFound(String),
    /// The line to insert after lies beyond the last line.
    LineOutOfRange { line_number: usize, line_count: usize },
}

impl EditError {
    pub open spec fn message_spec(&self) -> Seq<char> {
        match self {
            EditError::StringNotFound(s) => "String not found in file: "@ + s@,
            EditError::LineOutOfRange { line_number, line_count } => "Line number "@ + decimal(
                *line_number as int,
            ) + " is out of range (file has "@ + decimal(*line_count as int) + " lines)"@,
        }
    }

    /// The text reported for this error.
    pub fn message(&self) -> (r: String)
        ensures
            r@ == self.message_spec(),
    {
        let mut out: Vec<char> = Vec::new();
        match self {
            EditError::StringNotFound(s) => {
                push_str(&mut out, "String not found in file: ");
                push_str(&mut out, s.as_str());
            },
            EditError::LineOutOfRange { line_number, line_count } => {
                push_str(&mut out, "Line number ");
                push_digits(&mut out, *line_number as u64);
                push_str(&mut out, " is out of range (file has ");
                push_digits(&mut out, *line_count as u64);
                push_str(&mut out, " lines)");
            },
        }
        assert(out@ =~= self.message_spec());
        string_of(out.as_slice())
    }
}

/// `s` with every occurrence of `old` replaced by `new`, left to right and
/// without overlap; an empty `old` occurs before every character and at the end.
pub open spec fn replaced(s: Seq<char>, old: Seq<char>, new: Seq<char>) -> Seq<char>
    decreases s.len(),
{
    if s.len() == 0 {
        if old.len() == 0 {
            new
        } else {
            Seq::empty()
        }
    } else if old.len() == 0 {
        new + seq![s[0]] + replaced(s.drop_first(), old, new)
    } else if old.len() <= s.len() && s.subrange(0, old.len() as int) == old {
        new + replaced(s.subrange(old.len() as int, s.len() as int), old, new)
    } else {
        seq![s[0]] + replaced(s.drop_first(), old, new)
    }
}

/// Replaces every occurrence of `old_str` in `content` by `new_str`; fails,
/// changing nothing, where `old_str` does not occur.
pub fn replace_content(content: &str, old_str: &str, new_str: &str) -> (r: Result<String, EditError>)
    ensures
        crate::text::contains(content@, old_str@) ==> (r matches Ok(s) && s@ == replaced(
            content@,
            old_str@,
            new_str@,
        )),
        !crate::text::contains(content@, old_str@) ==> (r matches Err(EditError::StringNotFound(o))
            && o@ == old_str@),
{
    let s = chars_of(content);
    let old = chars_of(old_str);
    let new = chars_of(new_str);
    proof {
        lemma_find_from_bounds(s@, old@, 0);
    }
    if find(&s, &old, 0).is_none() {
        return Err(EditError::StringNotFound(old_str.to_string()));
    }
    assert(crate::text::contains(content@, old_str@));
    let mut out: Vec<char> = Vec::new();
    let mut i: usize = 0;
    assert(s@.subrange(0, s.len() as int) =~= s@);
    while i < s.len()
        invariant
            i <= s.len(),
            out@ + replaced(s@.subrange(i as int, s.len() as int), old@, new@) == replaced(
                s@,
                old@,
                new@,
            ),
        decreases s.len() - i,
    {
        let ghost tail = s@.subrange(i as int, s.len() as int);
        let ghost before = out@;
        if old.len() == 0 {
            push_range(&mut out, &new, 0, new.len());
            out.push(s[i]);
            assert(new@.subrange(0, new@.len() as int) =~= new@);
            assert(tail.drop_first() =~= s@.subrange(i + 1, s.len() as int));
            assert(out@ + replaced(s@.subrange(i + 1, s.len() as int), old@, new@) =~= before + (new@
                + seq![tail[0]] + replaced(tail.drop_first(), old@, new@)));
            i = i + 1;
        } else if matches_at(&s, &old, i) {
            push_range(&mut out, &new, 0, new.len());
            assert(new@.subrange(0, new@.len() as int) =~= new@);
            assert(tail.subrange(0, old@.len() as int) =~= s@.subrange(i as int, i + old@.len()));
            assert(tail.subrange(old@.len() as int, tail.len() as int) =~= s@.subrange(
                i + old@.len(),
                s.len() as int,
            ));
            assert(out@ + replaced(s@.subrange(i + old.len(), s.len() as int), old@, new@) =~= before
                + (new@ + replaced(tail.subrange(old@.len() as int, tail.len() as int), old@, new@)));
            i = i + old.len();
        } else {
            out.push(s[i]);
            assert(tail.drop_first() =~= s@.subrange(i + 1, s.len() as int));
            assert(old@.len() <= tail.len() ==> tail.subrange(0, old@.len() as int) =~= s@.subrange(
                i as int,
                i + old@.len(),
            ));
            assert(out@ + replaced(s@.subrange(i + 1, s.len() as int), old@, new@) =~= before + (seq![
                tail[0],
            ] + replaced(tail.drop_first(), old@, new@)));
            i = i + 1;
        }
    }
    if old.len() == 0 {
        push_range(&mut out, &new, 0, new.len());
        assert(new@.subrange(0, new@.len() as int) =~= new@);
    }
    assert(s@.subrange(i as int, s.len() as int) =~= Seq::<char>::empty());
    assert(out@ =~= replaced(s@, old@, new@));
    Ok(string_of(out.as_slice()))
}

/// The lines of `content` with `text` placed as a new line after line
/// `line_number` (before the first line where it is 0), joined with `\n`.
pub open spec fn inserted(content: Seq<char>, line_number: int, text: Seq<char>) -> Seq<char> {
    let ls = lines_of(content);
    join_lines(ls.subrange(0, line_number) + seq![text] + ls.subrange(line_number, ls.len() as int))
}

/// Inserts `text` as a new line after line `line_number` of `content`;
/// fails where the file has fewer lines than that.
pub fn insert_content(content: &str, line_number: usize, text: &str) -> (r: Result<String, EditError>)
    ensures
        line_number <= lines_of(content@).len() ==> (r matches Ok(s) && s@ == inserted(
            content@,
            line_number as int,
            text@,
        )),
        line_number > lines_of(content@).len() ==> (r matches Err(
            EditError::LineOutOfRange { line_number: l, line_count },
        ) && l == line_number && line_count == lines_of(content@).len()),
{
    let mut lines = split_lines(content);
    assert(views(lines@).len() == lines@.len());
    if line_number > lines.len() {
        return Err(EditError::LineOutOfRange { line_number, line_count: lines.len() });
    }
    let ghost before = views(lines@);
    lines.insert(line_number, text.to_string());
    assert(views(lines@) =~= before.subrange(0, line_number as int) + seq![text@]
        + before.subrange(line_number as int, before.len() as int));
    let r = join_range(&lines, 0, lines.len());
    assert(views(lines@).subrange(0, lines.len() as int) =~= views(lines@));
    Ok(r)
}

/// Reading the range `-1..-1` of a text of at least one line gives its last line.
pub proof fn lemma_last_line_range(content: Seq<char>)
    requires
        lines_of(content).len() > 0,
    ensures
        select_lines_spec(content, -1, -1) == Ok::<Seq<char>, (int, int)>(lines_of(content).last()),
{
    let ls = lines_of(content);
    let n = ls.len() as int;
    assert(ls.subrange(n - 1, n) =~= seq![ls.last()]);
}

/// Reading from a first line past the end fails, naming that line and the
/// number of lines.
pub proof fn lemma_start_past_end(content: Seq<char>, start_line: int, end_line: int)
    requires
        start_line > lines_of(content).len(),
    ensures
        select_lines_spec(content, start_line, end_line) == Err::<Seq<char>, (int, int)>(
            (start_line, lines_of(content).len() as int),
        ),
{
}

} // verus!
