//! Case-insensitive search of a file's lines, with context around each match.
use vstd::prelude::*;

use crate::content::{lines_of, split_lines};
use crate::decimal::{decimal, push_digits};
use crate::text::{chars_of, contains, find, lemma_find_from_bounds, push_str, string_of, views};

verus! {

/// The lower-case form of `s`.
pub uninterp spec fn lower_of(s: Seq<char>) -> Seq<char>;

/// Relies on `str::to_lowercase`: the result depends on the characters alone.
#[verifier::external_body]
fn lowercase(s: &str) -> (r: String)
    ensures
        r@ == lower_of(s@),
{
    s.to_lowercase()
}

/// Line `i` of `ls` holds the pattern `p`, case aside.
pub open spec fn line_matches(ls: Seq<Seq<char>>, i: int, p: Seq<char>) -> bool {
    contains(lower_of(ls[i]), lower_of(p))
}

/// One line of a match's context: `→ ` before the matching line, two spaces
/// before the others, then the 1-based line number, `: ` and the line.
pub open spec fn context_line(ls: Seq<Seq<char>>, j: int, m: int) -> Seq<char> {
    (if j == m {
        "\u{2192} "@
    } else {
        "  "@
    }) + decimal(j + 1) + ": "@ + ls[j] + "\n"@
}

/// Lines `from` to `to` of the context of the match at `m`.
pub open spec fn context_lines(ls: Seq<Seq<char>>, from: int, to: int, m: int) -> Seq<char>
    decreases to - from,
{
    if to <= from {
        Seq::empty()
    } else {
        context_lines(ls, from, to - 1, m) + context_line(ls, to - 1, m)
    }
}

/// The context of the match at `m`: `c` lines on each side, within the file.
pub open spec fn match_block(ls: Seq<Seq<char>>, m: int, c: int) -> Seq<char> {
    let from = if m - c < 0 {
        0
    } else {
        m - c
    };
    let to = if m + c + 1 > ls.len() {
        ls.len() as int
    } else {
        m + c + 1
    };
    context_lines(ls, from, to, m)
}

/// The number of matching lines among the first `k`.
pub open spec fn match_count(ls: Seq<Seq<char>>, p: Seq<char>, k: int) -> int
    decreases k,
{
    if k <= 0 {
        0
    } else {
        match_count(ls, p, k - 1) + if line_matches(ls, k - 1, p) {
            1int
        } else {
            0int
        }
    }
}

/// The blocks of the matches among the first `k` lines, `\n--\n` between two.
pub open spec fn match_blocks(ls: Seq<Seq<char>>, p: Seq<char>, c: int, k: int) -> Seq<char>
    decreases k,
{
    if k <= 0 {
        Seq::empty()
    } else if line_matches(ls, k - 1, p) {
        match_blocks(ls, p, c, k - 1) + (if match_count(ls, p, k - 1) > 0 {
            "\n--\n"@
        } else {
            Seq::empty()
        }) + match_block(ls, k - 1, c)
    } else {
        match_blocks(ls, p, c, k - 1)
    }
}

/// The report of a search for `p` in the lines `ls` of the file `path`.
pub open spec fn search_report(ls: Seq<Seq<char>>, p: Seq<char>, path: Seq<char>, c: int) -> Seq<char> {
    let n = match_count(ls, p, ls.len() as int);
    if n == 0 {
        "Pattern '"@ + p + "' not found in "@ + path
    } else {
        "Found "@ + decimal(n) + " matches for pattern '"@ + p + "' in "@ + path + ":\n\n"@
            + match_blocks(ls, p, c, ls.len() as int)
    }
}

/// Why a search cannot be made.
pub enum SearchError {
    EmptyPattern,
}

impl SearchError {
    pub fn message(&self) -> (r: String)
        ensures
            r@ == "Search pattern cannot be empty"@,
    {
        "Search pattern cannot be empty".to_string()
    }
}

proof fn lemma_count_bounds(ls: Seq<Seq<char>>, p: Seq<char>, k: int)
    ensures
        0 <= match_count(ls, p, k) <= if k < 0 {
            0
        } else {
            k
        },
    decreases k,
{
    if k > 0 {
        lemma_count_bounds(ls, p, k - 1);
    }
}

fn push_context(out: &mut Vec<char>, lines: &Vec<String>, m: usize, c: usize)
    requires
        m < lines.len(),
    ensures
        final(out)@ == old(out)@ + match_block(views(lines@), m as int, c as int),
{
    let ghost ls = views(lines@);
    let n = lines.len();
    let from = if c > m {
        0
    } else {
        m - c
    };
    let to = if c >= n - m {
        n
    } else {
        m + c + 1
    };
    let mut j = from;
    while j < to
        invariant
            from <= j <= to <= n,
            n == lines.len(),
            ls == views(lines@),
            out@ == old(out)@ + context_lines(ls, from as int, j as int, m as int),
        decreases to - j,
    {
        let ghost before = out@;
        if j == m {
            push_str(out, "\u{2192} ");
        } else {
            push_str(out, "  ");
        }
        push_digits(out, (j + 1) as u64);
        push_str(out, ": ");
        push_str(out, lines[j].as_str());
        push_str(out, "\n");
        assert(out@ =~= before + context_line(ls, j as int, m as int));
        j = j + 1;
    }
}

/// Searches the text of the file `path` for `pattern`, case aside, showing
/// `context_lines` lines (2 where not given) around each matching line.
pub fn search_content(content: &str, pattern: &str, path: &str, context_lines: Option<usize>) -> (r:
    Result<String, SearchError>)
    ensures
        pattern@.len() == 0 ==> r is Err,
        pattern@.len() > 0 ==> (r matches Ok(s) && s@ == search_report(
            lines_of(content@),
            pattern@,
            path@,
            match context_lines {
                Some(c) => c as int,
                None => 2,
            },
        )),
{
    if pattern.is_empty() {
        return Err(SearchError::EmptyPattern);
    }
    let c: usize = match context_lines {
        Some(c) => c,
        None => 2,
    };
    let lines = split_lines(content);
    let ghost ls = views(lines@);
    assert(ls.len() == lines@.len());
    let p = chars_of(lowercase(pattern).as_str());
    let mut body: Vec<char> = Vec::new();
    let mut count: usize = 0;
    let mut i: usize = 0;
    while i < lines.len()
        invariant
            i <= lines.len(),
            ls == views(lines@),
            ls == lines_of(content@),
            p@ == lower_of(pattern@),
            count == match_count(ls, pattern@, i as int),
            body@ == match_blocks(ls, pattern@, c as int, i as int),
        decreases lines.len() - i,
    {
        proof {
            lemma_count_bounds(ls, pattern@, i as int);
        }
        let l = chars_of(lowercase(lines[i].as_str()).as_str());
        proof {
            lemma_find_from_bounds(l@, p@, 0);
        }
        if find(&l, &p, 0).is_some() {
            assert(line_matches(ls, i as int, pattern@));
            if count > 0 {
                push_str(&mut body, "\n--\n");
            }
            push_context(&mut body, &lines, i, c);
            count = count + 1;
        } else {
            assert(!line_matches(ls, i as int, pattern@));
        }
        i = i + 1;
    }
    proof {
        lemma_count_bounds(ls, pattern@, i as int);
    }
    let mut out: Vec<char> = Vec::new();
    if count == 0 {
        push_str(&mut out, "Pattern '");
        push_str(&mut out, pattern);
        push_str(&mut out, "' not found in ");
        push_str(&mut out, path);
        assert(out@ =~= search_report(ls, pattern@, path@, c as int));
    } else {
        push_str(&mut out, "Found ");
        push_digits(&mut out, count as u64);
        push_str(&mut out, " matches for pattern '");
        push_str(&mut out, pattern);
        push_str(&mut out, "' in ");
        push_str(&mut out, path);
        push_str(&mut out, ":\n\n");
        crate::text::push_range(&mut out, &body, 0, body.len());
        assert(body@.subrange(0, body@.len() as int) =~= body@);
        assert(out@ =~= search_report(ls, pattern@, path@, c as int));
    }
    assert(out@ =~= search_report(ls, pattern@, path@, c as int));
    Ok(string_of(out.as_slice()))
}

} // verus!

verus! {

/// A directory entry named `entry` may be the file `wanted` that was not
/// found: the names are equal case aside, or one holds the other.
pub open spec fn similar_names(entry: Seq<char>, wanted: Seq<char>) -> bool {
    lower_of(entry) == lower_of(wanted) || contains(entry, wanted) || contains(wanted, entry)
}

pub fn names_similar(entry: &str, wanted: &str) -> (r: bool)
    ensures
        r == similar_names(entry@, wanted@),
{
    let le = lowercase(entry);
    let lw = lowercase(wanted);
    let e = chars_of(entry);
    let w = chars_of(wanted);
    proof {
        lemma_find_from_bounds(e@, w@, 0);
        lemma_find_from_bounds(w@, e@, 0);
    }
    le.eq(&lw) || find(&e, &w, 0).is_some() || find(&w, &e, 0).is_some()
}

} // verus!
