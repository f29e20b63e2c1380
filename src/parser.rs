//! Recovers free text and tool calls from a model response.
//!
//! Two forms are recognised. The structured markup form is one
//! `<function_calls>` block holding `<invoke name="..">` blocks, each holding
//! `<parameter name="..">value</parameter>` pairs. The inline form is any
//! number of `Tool call: {...}` occurrences, each followed by one JSON object
//! on the same line. The markup form wins when present.
use vstd::prelude::*;

use crate::invocation::{invocation_is, ParamValue, ToolCall, ToolInvocation};
use crate::text::{
    chars_of, find, find_from, lemma_find_from_bounds, matches_at, occurs_at, push_range,
    slice_string, trim, trim_chars,
};

verus! {

pub open spec fn quote() -> Seq<char> {
    "\""@
}

pub open spec fn quote_gt() -> Seq<char> {
    "\">"@
}

pub open spec fn calls_open() -> Seq<char> {
    "<function_calls>"@
}

pub open spec fn calls_close() -> Seq<char> {
    "</function_calls>"@
}

pub open spec fn invoke_open() -> Seq<char> {
    "<invoke name=\""@
}

pub open spec fn invoke_close() -> Seq<char> {
    "</invoke>"@
}

pub open spec fn param_open() -> Seq<char> {
    "<parameter name=\""@
}

pub open spec fn param_stop() -> Seq<char> {
    "<"@
}

pub open spec fn param_close() -> Seq<char> {
    "</parameter>"@
}

pub open spec fn inline_open() -> Seq<char> {
    "Tool call: {"@
}

pub open spec fn close_brace() -> Seq<char> {
    "}"@
}

pub open spec fn newline() -> Seq<char> {
    "\n"@
}

/// A tag `open NAME"> BODY close` starting at `pos` of `b`, where NAME is
/// non-empty and free of `"`, and BODY runs to the first `stop` after it, at
/// which `close` must stand. Gives the bounds of NAME and BODY and the end.
pub open spec fn tag_at(b: Seq<char>, pos: int, open: Seq<char>, stop: Seq<char>, close: Seq<char>) -> Option<
    (int, int, int, int, int),
> {
    if !occurs_at(b, open, pos) {
        None
    } else {
        let n0 = pos + open.len();
        let q = find_from(b, quote(), n0);
        if q == -1 || q == n0 || !occurs_at(b, quote_gt(), q) {
            None
        } else {
            let v0 = q + quote_gt().len();
            let e = find_from(b, stop, v0);
            if e == -1 || !occurs_at(b, close, e) {
                None
            } else {
                Some((n0, q, v0, e, e + close.len()))
            }
        }
    }
}

/// The successive non-overlapping tags of `b` from `pos` on, leftmost first.
pub open spec fn tags_from(b: Seq<char>, pos: int, open: Seq<char>, stop: Seq<char>, close: Seq<char>) -> Seq<
    (int, int, int, int),
>
    decreases b.len() + 1 - pos,
{
    if pos < 0 || pos > b.len() {
        Seq::empty()
    } else {
        match tag_at(b, pos, open, stop, close) {
            Some(m) => if pos < m.4 <= b.len() {
                seq![(m.0, m.1, m.2, m.3)] + tags_from(b, m.4, open, stop, close)
            } else {
                Seq::empty()
            },
            None => tags_from(b, pos + 1, open, stop, close),
        }
    }
}

/// The `(name, value)` parameter pairs of an invocation body.
pub open spec fn markup_params(body: Seq<char>) -> Seq<(Seq<char>, Seq<char>)> {
    tags_from(body, 0, param_open(), param_stop(), param_close()).map_values(
        |t: (int, int, int, int)| (body.subrange(t.0, t.1), body.subrange(t.2, t.3)),
    )
}

/// The `(name, parameters)` invocations of a `<function_calls>` block.
pub open spec fn markup_invocations(block: Seq<char>) -> Seq<(Seq<char>, Seq<(Seq<char>, Seq<char>)>)> {
    tags_from(block, 0, invoke_open(), invoke_close(), invoke_close()).map_values(
        |t: (int, int, int, int)| (block.subrange(t.0, t.1), markup_params(block.subrange(t.2, t.3))),
    )
}

/// The markup form of `t`: the trimmed text before the first opening marker,
/// and the invocations of the block up to the first closing marker after it.
/// `None` where no block is closed.
pub open spec fn markup_parse(t: Seq<char>) -> Option<
    (Seq<char>, Seq<(Seq<char>, Seq<(Seq<char>, Seq<char>)>)>),
> {
    let o = find_from(t, calls_open(), 0);
    if o == -1 {
        None
    } else {
        let c = find_from(t, calls_close(), o + calls_open().len());
        if c == -1 {
            None
        } else {
            Some((trim(t.subrange(0, o)), markup_invocations(t.subrange(o + calls_open().len(), c))))
        }
    }
}

/// Whether `s` is one JSON value that serde_json accepts (well-formed, and
/// nested no deeper than its limit).
pub uninterp spec fn valid_json(s: Seq<char>) -> bool;

/// The first `}` at or after `k` and before `limit` at which the text from
/// `j` on is well-formed JSON; -1 where there is none.
pub open spec fn valid_close(t: Seq<char>, j: int, k: int, limit: int) -> int
    decreases limit - k,
{
    if k < 0 || j < 0 || j > k || k >= limit || k >= t.len() {
        -1
    } else if t[k] == '}' && valid_json(t.subrange(j, k + 1)) {
        k
    } else {
        valid_close(t, j, k + 1, limit)
    }
}

/// An inline call `Tool call: {...}` starting at `p` of `t`: the object runs
/// from its `{` to the first `}` on the same line at which it is well-formed
/// JSON (nested objects included); failing that, to the first `}` on that
/// line. Gives the end.
pub open spec fn inline_at(t: Seq<char>, p: int) -> Option<int> {
    if !occurs_at(t, inline_open(), p) {
        None
    } else {
        let from = p + inline_open().len();
        let nl = find_from(t, newline(), from);
        let limit = if nl == -1 {
            t.len() as int
        } else {
            nl
        };
        let v = valid_close(t, from - 1, from, limit);
        if v != -1 {
            Some(v + 1)
        } else {
            let e = find_from(t, close_brace(), from);
            if e == -1 || (nl != -1 && nl < e) {
                None
            } else {
                Some(e + close_brace().len())
            }
        }
    }
}

/// Scans `t` from `pos` for inline calls: the text outside them, and the
/// objects among them that are well-formed JSON, in order.
pub open spec fn inline_scan(t: Seq<char>, pos: int) -> (Seq<char>, Seq<Seq<char>>)
    decreases t.len() + 1 - pos,
{
    if pos < 0 || pos >= t.len() {
        (Seq::empty(), Seq::empty())
    } else {
        match inline_at(t, pos) {
            Some(end) => if pos < end <= t.len() {
                let rest = inline_scan(t, end);
                let obj = t.subrange(pos + inline_open().len() - 1, end);
                (rest.0, if valid_json(obj) {
                    seq![obj] + rest.1
                } else {
                    rest.1
                })
            } else {
                (Seq::empty(), Seq::empty())
            },
            None => {
                let rest = inline_scan(t, pos + 1);
                (seq![t[pos]] + rest.0, rest.1)
            },
        }
    }
}

/// Relies on `serde_json::from_str::<serde_json::Value>`: whether it accepts
/// `s`, which depends on the characters alone.
#[verifier::external_body]
fn json_is_valid(s: &str) -> (r: bool)
    ensures
        r == valid_json(s@),
{
    serde_json::from_str::<serde_json::Value>(s).is_ok()
}

/// The free text and tool calls of one model response.
pub struct ParsedResponse {
    pub leading_text: String,
    pub tool_calls: Vec<ToolCall>,
}

/// `c` is the markup invocation `(name, ps)`.
pub open spec fn call_is_markup(c: ToolCall, inv: (Seq<char>, Seq<(Seq<char>, Seq<char>)>)) -> bool {
    match c {
        ToolCall::Markup(i) => invocation_is(i, inv.0, inv.1),
        _ => false,
    }
}

/// `c` is the inline call with object text `obj`.
pub open spec fn call_is_inline(c: ToolCall, obj: Seq<char>) -> bool {
    match c {
        ToolCall::Inline(s) => s@ == obj,
        _ => false,
    }
}

/// `r` holds the markup parse `m` of a response.
pub open spec fn holds_markup(
    r: ParsedResponse,
    m: (Seq<char>, Seq<(Seq<char>, Seq<(Seq<char>, Seq<char>)>)>),
) -> bool {
    &&& r.leading_text@ == m.0
    &&& r.tool_calls@.len() == m.1.len()
    &&& forall|i: int| 0 <= i < m.1.len() ==> call_is_markup(#[trigger] r.tool_calls@[i], m.1[i])
}

/// `r` holds the inline scan `s` of a response.
pub open spec fn holds_inline(r: ParsedResponse, s: (Seq<char>, Seq<Seq<char>>)) -> bool {
    &&& r.leading_text@ == trim(s.0)
    &&& r.tool_calls@.len() == s.1.len()
    &&& forall|i: int| 0 <= i < s.1.len() ==> call_is_inline(#[trigger] r.tool_calls@[i], s.1[i])
}

/// The fixed markers, as characters.
struct Markers {
    quote: Vec<char>,
    quote_gt: Vec<char>,
    calls_open: Vec<char>,
    calls_close: Vec<char>,
    invoke_open: Vec<char>,
    invoke_close: Vec<char>,
    param_open: Vec<char>,
    param_stop: Vec<char>,
    param_close: Vec<char>,
    inline_open: Vec<char>,
    close_brace: Vec<char>,
    newline: Vec<char>,
}

impl Markers {
    spec fn wf(&self) -> bool {
        &&& self.quote@ == quote()
        &&& self.quote_gt@ == quote_gt()
        &&& self.calls_open@ == calls_open()
        &&& self.calls_close@ == calls_close()
        &&& self.invoke_open@ == invoke_open()
        &&& self.invoke_close@ == invoke_close()
        &&& self.param_open@ == param_open()
        &&& self.param_stop@ == param_stop()
        &&& self.param_close@ == param_close()
        &&& self.inline_open@ == inline_open()
        &&& self.close_brace@ == close_brace()
        &&& self.newline@ == newline()
    }

    fn new() -> (r: Markers)
        ensures
            r.wf(),
    {
        Markers {
            quote: chars_of("\""),
            quote_gt: chars_of("\">"),
            calls_open: chars_of("<function_calls>"),
            calls_close: chars_of("</function_calls>"),
            invoke_open: chars_of("<invoke name=\""),
            invoke_close: chars_of("</invoke>"),
            param_open: chars_of("<parameter name=\""),
            param_stop: chars_of("<"),
            param_close: chars_of("</parameter>"),
            inline_open: chars_of("Tool call: {"),
            close_brace: chars_of("}"),
            newline: chars_of("\n"),
        }
    }
}

pub open spec fn widen5(r: Option<(usize, usize, usize, usize, usize)>) -> Option<(int, int, int, int, int)> {
    match r {
        Some(m) => Some((m.0 as int, m.1 as int, m.2 as int, m.3 as int, m.4 as int)),
        None => None,
    }
}

pub open spec fn widen4(v: Seq<(usize, usize, usize, usize)>) -> Seq<(int, int, int, int)> {
    v.map_values(|m: (usize, usize, usize, usize)| (m.0 as int, m.1 as int, m.2 as int, m.3 as int))
}

pub open spec fn tag_ordered(m: (usize, usize, usize, usize), n: usize) -> bool {
    m.0 <= m.1 <= m.2 <= m.3 <= n
}

fn tag_at_exec(b: &[char], pos: usize, open: &[char], stop: &[char], close: &[char], mk: &Markers) -> (r:
    Option<(usize, usize, usize, usize, usize)>)
    requires
        mk.wf(),
    ensures
        widen5(r) == tag_at(b@, pos as int, open@, stop@, close@),
        r matches Some(m) ==> m.0 <= m.1 <= m.2 <= m.3 <= m.4 <= b.len(),
        r matches Some(m) ==> tag_ordered((m.0, m.1, m.2, m.3), b.len()),
{
    // Brings the bound on the length into scope for the index arithmetic.
    let _len = b.len();
    if !matches_at(b, open, pos) {
        return None;
    }
    let n0 = pos + open.len();
    let q = match find(b, &mk.quote, n0) {
        Some(q) => q,
        None => return None,
    };
    proof {
        lemma_find_from_bounds(b@, quote(), n0 as int);
    }
    if q == n0 || !matches_at(b, &mk.quote_gt, q) {
        return None;
    }
    let v0 = q + mk.quote_gt.len();
    let e = match find(b, stop, v0) {
        Some(e) => e,
        None => return None,
    };
    proof {
        lemma_find_from_bounds(b@, stop@, v0 as int);
    }
    if !matches_at(b, close, e) {
        return None;
    }
    Some((n0, q, v0, e, e + close.len()))
}

fn scan_tags(b: &[char], open: &[char], stop: &[char], close: &[char], mk: &Markers) -> (r: Vec<
    (usize, usize, usize, usize),
>)
    requires
        mk.wf(),
        open@.len() > 0,
    ensures
        widen4(r@) == tags_from(b@, 0, open@, stop@, close@),
        forall|i: int| 0 <= i < r@.len() ==> tag_ordered(#[trigger] r@[i], b.len()),
{
    let mut r: Vec<(usize, usize, usize, usize)> = Vec::new();
    let mut pos: usize = 0;
    while pos < b.len()
        invariant
            mk.wf(),
            open@.len() > 0,
            pos <= b.len(),
            widen4(r@) + tags_from(b@, pos as int, open@, stop@, close@) == tags_from(
                b@,
                0,
                open@,
                stop@,
                close@,
            ),
            forall|i: int| 0 <= i < r@.len() ==> tag_ordered(#[trigger] r@[i], b.len()),
        decreases b.len() - pos,
    {
        match tag_at_exec(b, pos, open, stop, close, mk) {
            Some(m) => {
                if pos < m.4 && m.4 <= b.len() {
                    let ghost old_r = r@;
                    r.push((m.0, m.1, m.2, m.3));
                    assert(widen4(r@) =~= widen4(old_r).push(
                        (m.0 as int, m.1 as int, m.2 as int, m.3 as int),
                    ));
                    assert(widen4(r@) + tags_from(b@, m.4 as int, open@, stop@, close@) =~= widen4(
                        old_r,
                    ) + tags_from(b@, pos as int, open@, stop@, close@));
                    pos = m.4;
                } else {
                    assert(tags_from(b@, pos as int, open@, stop@, close@) =~= Seq::empty());
                    assert(widen4(r@) + tags_from(b@, b.len() as int, open@, stop@, close@) =~= widen4(
                        r@,
                    ));
                    pos = b.len();
                }
            },
            None => {
                pos = pos + 1;
            },
        }
    }
    assert(tag_at(b@, b.len() as int, open@, stop@, close@) is None);
    assert(tags_from(b@, b.len() + 1, open@, stop@, close@) =~= Seq::empty());
    assert(widen4(r@) + tags_from(b@, pos as int, open@, stop@, close@) =~= widen4(r@));
    r
}

fn parse_params(body: &[char], mk: &Markers) -> (r: Vec<(String, ParamValue)>)
    requires
        mk.wf(),
    ensures
        r@.len() == markup_params(body@).len(),
        forall|i: int|
            0 <= i < r@.len() ==> text_param_at(#[trigger] r@[i], markup_params(body@), i),
{
    proof {
        reveal_strlit("<parameter name=\"");
    }
    let tags = scan_tags(body, &mk.param_open, &mk.param_stop, &mk.param_close, mk);
    let mut r: Vec<(String, ParamValue)> = Vec::new();
    let mut i: usize = 0;
    while i < tags.len()
        invariant
            mk.wf(),
            i <= tags.len(),
            widen4(tags@) == tags_from(body@, 0, param_open(), param_stop(), param_close()),
            forall|k: int| 0 <= k < tags@.len() ==> tag_ordered(#[trigger] tags@[k], body.len()),
            r@.len() == i,
            forall|k: int| 0 <= k < i ==> text_param_at(#[trigger] r@[k], markup_params(body@), k),
        decreases tags.len() - i,
    {
        let t = tags[i];
        let name = slice_string(body, t.0, t.1);
        let value = slice_string(body, t.2, t.3);
        r.push((name, ParamValue::Text(value)));
        i = i + 1;
    }
    r
}

/// `p` is the `i`-th pair of `ps`, as a string parameter.
pub open spec fn text_param_at(p: (String, ParamValue), ps: Seq<(Seq<char>, Seq<char>)>, i: int) -> bool {
    crate::invocation::text_param_is(p, ps[i].0, ps[i].1)
}

} // verus!

verus! {

fn parse_invocations(block: &[char], mk: &Markers) -> (r: Vec<ToolCall>)
    requires
        mk.wf(),
    ensures
        r@.len() == markup_invocations(block@).len(),
        forall|i: int|
            0 <= i < r@.len() ==> call_is_markup(#[trigger] r@[i], markup_invocations(block@)[i]),
{
    proof {
        reveal_strlit("<invoke name=\"");
    }
    let tags = scan_tags(block, &mk.invoke_open, &mk.invoke_close, &mk.invoke_close, mk);
    let mut r: Vec<ToolCall> = Vec::new();
    let mut i: usize = 0;
    while i < tags.len()
        invariant
            mk.wf(),
            i <= tags.len(),
            widen4(tags@) == tags_from(block@, 0, invoke_open(), invoke_close(), invoke_close()),
            forall|k: int| 0 <= k < tags@.len() ==> tag_ordered(#[trigger] tags@[k], block.len()),
            r@.len() == i,
            forall|k: int|
                0 <= k < i ==> call_is_markup(#[trigger] r@[k], markup_invocations(block@)[k]),
        decreases tags.len() - i,
    {
        let t = tags[i];
        let name = slice_string(block, t.0, t.1);
        let parameters = parse_params(&block[t.2..t.3], mk);
        r.push(ToolCall::Markup(ToolInvocation { name, parameters }));
        i = i + 1;
    }
    r
}

fn markup_of(t: &[char], mk: &Markers) -> (r: Option<ParsedResponse>)
    requires
        mk.wf(),
    ensures
        match markup_parse(t@) {
            Some(m) => r matches Some(p) && holds_markup(p, m),
            None => r is None,
        },
{
    // Brings the bound on the length into scope for the index arithmetic.
    let _len = t.len();
    let o = match find(t, &mk.calls_open, 0) {
        Some(o) => o,
        None => return None,
    };
    proof {
        lemma_find_from_bounds(t@, calls_open(), 0);
    }
    let start = o + mk.calls_open.len();
    let c = match find(t, &mk.calls_close, start) {
        Some(c) => c,
        None => return None,
    };
    proof {
        lemma_find_from_bounds(t@, calls_close(), start as int);
    }
    let leading_text = trim_chars(&t[0..o]);
    let tool_calls = parse_invocations(&t[start..c], mk);
    Some(ParsedResponse { leading_text, tool_calls })
}

proof fn lemma_inline_skip(t: Seq<char>, pos: int, k: int)
    requires
        0 <= pos <= k <= t.len(),
        forall|j: int| pos <= j < k ==> !occurs_at(t, inline_open(), j),
    ensures
        inline_scan(t, pos) == (t.subrange(pos, k) + inline_scan(t, k).0, inline_scan(t, k).1),
    decreases k - pos,
{
    if pos == k {
        assert(t.subrange(pos, k) =~= Seq::<char>::empty());
        assert(t.subrange(pos, k) + inline_scan(t, k).0 =~= inline_scan(t, k).0);
    } else {
        lemma_inline_skip(t, pos + 1, k);
        assert(t.subrange(pos, k) =~= seq![t[pos]] + t.subrange(pos + 1, k));
        assert(t.subrange(pos, k) + inline_scan(t, k).0 =~= seq![t[pos]] + (t.subrange(pos + 1, k)
            + inline_scan(t, k).0));
    }
}

fn first_valid_close(t: &[char], j: usize, from: usize, limit: usize) -> (r: Option<usize>)
    requires
        j < from <= limit <= t.len(),
    ensures
        match r {
            Some(k) => valid_close(t@, j as int, from as int, limit as int) == k as int && from <= k
                < limit,
            None => valid_close(t@, j as int, from as int, limit as int) == -1,
        },
{
    let mut k = from;
    while k < limit
        invariant
            j < from <= k <= limit <= t.len(),
            valid_close(t@, j as int, from as int, limit as int) == valid_close(
                t@,
                j as int,
                k as int,
                limit as int,
            ),
        decreases limit - k,
    {
        if t[k] == '}' {
            let obj = slice_string(t, j, k + 1);
            if json_is_valid(obj.as_str()) {
                return Some(k);
            }
        }
        k = k + 1;
    }
    None
}

fn inline_at_exec(t: &[char], p: usize, mk: &Markers) -> (r: Option<usize>)
    requires
        mk.wf(),
    ensures
        match inline_at(t@, p as int) {
            Some(e) => r == Some(e as usize) && p + inline_open().len() < e <= t.len(),
            None => r is None,
        },
{
    // Brings the bound on the length into scope for the index arithmetic.
    let _len = t.len();
    proof {
        reveal_strlit("Tool call: {");
        reveal_strlit("}");
    }
    if !matches_at(t, &mk.inline_open, p) {
        return None;
    }
    let from = p + mk.inline_open.len();
    proof {
        lemma_find_from_bounds(t@, close_brace(), from as int);
        lemma_find_from_bounds(t@, newline(), from as int);
    }
    let nl = find(t, &mk.newline, from);
    let limit = match nl {
        Some(n) => n,
        None => t.len(),
    };
    match first_valid_close(t, from - 1, from, limit) {
        Some(k) => return Some(k + 1),
        None => {},
    }
    let e = match find(t, &mk.close_brace, from) {
        Some(e) => e,
        None => return None,
    };
    match nl {
        Some(n) => {
            if n < e {
                return None;
            }
        },
        None => {},
    }
    Some(e + mk.close_brace.len())
}

fn inline_of(t: &[char], mk: &Markers) -> (r: Option<ParsedResponse>)
    requires
        mk.wf(),
    ensures
        inline_scan(t@, 0).1.len() > 0 ==> (r matches Some(p) && holds_inline(p, inline_scan(t@, 0))),
        inline_scan(t@, 0).1.len() == 0 ==> r is None,
{
    proof {
        reveal_strlit("Tool call: {");
    }
    // Brings the bound on the length into scope for the index arithmetic.
    let _len = t.len();
    let mut rest: Vec<char> = Vec::new();
    let mut calls: Vec<ToolCall> = Vec::new();
    let ghost objs: Seq<Seq<char>> = Seq::empty();
    let mut pos: usize = 0;
    while pos < t.len()
        invariant
            mk.wf(),
            pos <= t.len(),
            rest@ + inline_scan(t@, pos as int).0 == inline_scan(t@, 0).0,
            objs + inline_scan(t@, pos as int).1 == inline_scan(t@, 0).1,
            calls@.len() == objs.len(),
            forall|i: int| 0 <= i < objs.len() ==> call_is_inline(#[trigger] calls@[i], objs[i]),
        decreases t.len() - pos,
    {
        let k = match find(t, &mk.inline_open, pos) {
            Some(k) => k,
            None => t.len(),
        };
        proof {
            lemma_find_from_bounds(t@, inline_open(), pos as int);
            lemma_inline_skip(t@, pos as int, k as int);
        }
        let ghost before = rest@;
        push_range(&mut rest, t, pos, k);
        assert(rest@ + inline_scan(t@, k as int).0 =~= before + (t@.subrange(pos as int, k as int)
            + inline_scan(t@, k as int).0));
        if k >= t.len() {
            pos = k;
        } else {
            match inline_at_exec(t, k, mk) {
                Some(end) => {
                    proof {
                        reveal_strlit("Tool call: {");
                    }
                    let obj = slice_string(t, k + mk.inline_open.len() - 1, end);
                    if json_is_valid(obj.as_str()) {
                        proof {
                            assert(objs.push(obj@) + inline_scan(t@, end as int).1 =~= objs + (seq![
                                obj@,
                            ] + inline_scan(t@, end as int).1));
                            objs = objs.push(obj@);
                        }
                        calls.push(ToolCall::Inline(obj));
                    }
                    pos = end;
                },
                None => {
                    let ghost before2 = rest@;
                    rest.push(t[k]);
                    assert(rest@ + inline_scan(t@, k + 1).0 =~= before2 + (seq![t@[k as int]]
                        + inline_scan(t@, k + 1).0));
                    pos = k + 1;
                },
            }
        }
    }
    assert(rest@ + inline_scan(t@, pos as int).0 =~= rest@);
    assert(objs + inline_scan(t@, pos as int).1 =~= objs);
    if calls.len() == 0 {
        return None;
    }
    let leading_text = trim_chars(&rest);
    Some(ParsedResponse { leading_text, tool_calls: calls })
}

} // verus!

verus! {

/// `r` is what parsing `t` gives: the markup form where a block is closed;
/// else the inline form where a well-formed inline call occurs; else `t`
/// itself with no calls.
pub open spec fn parsed_is(r: ParsedResponse, t: Seq<char>) -> bool {
    match markup_parse(t) {
        Some(m) => holds_markup(r, m),
        None => if inline_scan(t, 0).1.len() > 0 {
            holds_inline(r, inline_scan(t, 0))
        } else {
            r.leading_text@ == t && r.tool_calls@.len() == 0
        },
    }
}

/// The markup form of `response`, where it holds a closed
/// `<function_calls>` block: the trimmed text before the block, and each
/// `<invoke>` of the block in order with its string parameters in order.
pub fn extract_markup_tool_calls(response: &str) -> (r: Option<ParsedResponse>)
    ensures
        match markup_parse(response@) {
            Some(m) => r matches Some(p) && holds_markup(p, m),
            None => r is None,
        },
{
    let mk = Markers::new();
    let t = chars_of(response);
    markup_of(&t, &mk)
}

/// The inline form of `response`, where at least one `Tool call: {...}`
/// object in it is well-formed JSON: the trimmed text outside all such
/// occurrences, and the well-formed objects in order.
pub fn extract_inline_tool_calls(response: &str) -> (r: Option<ParsedResponse>)
    ensures
        inline_scan(response@, 0).1.len() > 0 ==> (r matches Some(p) && holds_inline(
            p,
            inline_scan(response@, 0),
        )),
        inline_scan(response@, 0).1.len() == 0 ==> r is None,
{
    let mk = Markers::new();
    let t = chars_of(response);
    inline_of(&t, &mk)
}

/// Splits a model response into its leading text and its tool calls. Never
/// fails: a response without calls comes back whole, with no calls.
pub fn extract_tool_calls(response: &str) -> (r: ParsedResponse)
    ensures
        parsed_is(r, response@),
{
    let mk = Markers::new();
    let t = chars_of(response);
    match markup_of(&t, &mk) {
        Some(p) => p,
        None => match inline_of(&t, &mk) {
            Some(p) => p,
            None => ParsedResponse { leading_text: response.to_string(), tool_calls: Vec::new() },
        },
    }
}

/// `t` holds tool-call markup of either form: a closed markup block, or a
/// well-formed inline call.
pub open spec fn has_call_markup(t: Seq<char>) -> bool {
    markup_parse(t) is Some || inline_scan(t, 0).1.len() > 0
}

/// The number of tool calls that parsing `t` gives.
pub open spec fn call_count(t: Seq<char>) -> nat {
    match markup_parse(t) {
        Some(m) => m.1.len(),
        None => inline_scan(t, 0).1.len(),
    }
}

/// Parsing `t` gives at least one tool call.
pub open spec fn has_tool_calls(t: Seq<char>) -> bool {
    has_call_markup(t) && call_count(t) > 0
}

/// The leading text of `t` where it holds tool-call markup.
pub open spec fn leading_of(t: Seq<char>) -> Seq<char> {
    match markup_parse(t) {
        Some(m) => m.0,
        None => trim(inline_scan(t, 0).0),
    }
}

/// `calls` are the tool calls of `t`, in order, where it holds markup.
pub open spec fn calls_of(t: Seq<char>, calls: Seq<ToolCall>) -> bool {
    match markup_parse(t) {
        Some(m) => calls.len() == m.1.len() && forall|i: int|
            0 <= i < m.1.len() ==> call_is_markup(#[trigger] calls[i], m.1[i]),
        None => calls.len() == inline_scan(t, 0).1.len() && forall|i: int|
            0 <= i < calls.len() ==> call_is_inline(#[trigger] calls[i], inline_scan(t, 0).1[i]),
    }
}

/// The markup of `response`, where it holds some: the markup form first,
/// the inline form second.
pub fn find_tool_calls(response: &str) -> (r: Option<ParsedResponse>)
    ensures
        has_call_markup(response@) <==> r is Some,
        r matches Some(p) ==> p.leading_text@ == leading_of(response@) && calls_of(
            response@,
            p.tool_calls@,
        ),
{
    let mk = Markers::new();
    let t = chars_of(response);
    match markup_of(&t, &mk) {
        Some(p) => Some(p),
        None => inline_of(&t, &mk),
    }
}

proof fn lemma_no_inline_calls(t: Seq<char>, pos: int)
    requires
        !crate::text::contains(t, inline_open()),
    ensures
        inline_scan(t, pos).1.len() == 0,
    decreases t.len() + 1 - pos,
{
    if pos < 0 || pos >= t.len() {
    } else {
        assert(!occurs_at(t, inline_open(), pos));
        lemma_no_inline_calls(t, pos + 1);
    }
}

/// A response holding neither marker of either form parses to itself with
/// no calls, and parsing that text again gives the same.
pub proof fn lemma_plain_text_unchanged(t: Seq<char>)
    requires
        !crate::text::contains(t, calls_open()),
        !crate::text::contains(t, inline_open()),
    ensures
        forall|r: ParsedResponse|
            parsed_is(r, t) ==> r.leading_text@ == t && r.tool_calls@.len() == 0 && (forall|
                r2: ParsedResponse,
            | parsed_is(r2, r.leading_text@) ==> r2.leading_text@ == r.leading_text@
                && r2.tool_calls@.len() == 0),
{
    lemma_find_from_bounds(t, calls_open(), 0);
    if find_from(t, calls_open(), 0) != -1 {
        assert(occurs_at(t, calls_open(), find_from(t, calls_open(), 0)));
    }
    lemma_no_inline_calls(t, 0);
}

} // verus!
