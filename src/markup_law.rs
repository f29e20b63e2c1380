//! Well-formed markup parses back to what it was written from.
use vstd::prelude::*;

use crate::parser::{
    calls_close, calls_open, invoke_close, invoke_open, markup_invocations, markup_params,
    markup_parse, param_close, param_open, param_stop, quote, quote_gt, tag_at, tags_from,
};
use crate::text::{find_from, occurs_at, trim};

verus! {

/// The text of one parameter written in the markup.
pub open spec fn param_markup(k: Seq<char>, v: Seq<char>) -> Seq<char> {
    param_open() + k + quote_gt() + v + param_close()
}

/// The texts of parameters `ps`, one after another.
pub open spec fn params_markup(ps: Seq<(Seq<char>, Seq<char>)>) -> Seq<char>
    decreases ps.len(),
{
    if ps.len() == 0 {
        Seq::empty()
    } else {
        params_markup(ps.drop_last()) + param_markup(ps.last().0, ps.last().1)
    }
}

/// The text of one invocation written in the markup.
pub open spec fn invoke_markup(n: Seq<char>, ps: Seq<(Seq<char>, Seq<char>)>) -> Seq<char> {
    invoke_open() + n + quote_gt() + params_markup(ps) + invoke_close()
}

/// The texts of invocations `invs`, one after another.
pub open spec fn invokes_markup(invs: Seq<(Seq<char>, Seq<(Seq<char>, Seq<char>)>)>) -> Seq<char>
    decreases invs.len(),
{
    if invs.len() == 0 {
        Seq::empty()
    } else {
        invokes_markup(invs.drop_last()) + invoke_markup(invs.last().0, invs.last().1)
    }
}

/// An invocation the markup can carry: a plain name, and parameters with
/// plain names and values.
pub open spec fn plain_invocation(n: Seq<char>, ps: Seq<(Seq<char>, Seq<char>)>) -> bool {
    &&& plain_name(n)
    &&& forall|j: int| 0 <= j < ps.len() ==> plain_name(#[trigger] ps[j].0) && plain_value(ps[j].1)
}

/// A name the markup can carry: non-empty, without `"` or `<`.
pub open spec fn plain_name(k: Seq<char>) -> bool {
    k.len() > 0 && forall|i: int| 0 <= i < k.len() ==> k[i] != '"' && k[i] != '<'
}

/// A value the markup can carry: without `<`.
pub open spec fn plain_value(v: Seq<char>) -> bool {
    forall|i: int| 0 <= i < v.len() ==> v[i] != '<'
}

proof fn lemma_find_first(s: Seq<char>, p: Seq<char>, from: int, k: int)
    requires
        0 <= from <= k,
        occurs_at(s, p, k),
        forall|j: int| from <= j < k ==> !occurs_at(s, p, j),
    ensures
        find_from(s, p, from) == k,
    decreases k - from,
{
    if from < k {
        lemma_find_first(s, p, from + 1, k);
    }
}

proof fn lemma_params_prefix(ps: Seq<(Seq<char>, Seq<char>)>, i: int, j: int)
    requires
        0 <= i <= j <= ps.len(),
    ensures
        params_markup(ps.subrange(0, j)).subrange(0, params_markup(ps.subrange(0, i)).len() as int)
            == params_markup(ps.subrange(0, i)),
        params_markup(ps.subrange(0, i)).len() <= params_markup(ps.subrange(0, j)).len(),
    decreases j - i,
{
    if i < j {
        lemma_params_prefix(ps, i, j - 1);
        let pj = params_markup(ps.subrange(0, j));
        assert(ps.subrange(0, j).drop_last() =~= ps.subrange(0, j - 1));
        let pj1 = params_markup(ps.subrange(0, j - 1));
        let pi = params_markup(ps.subrange(0, i));
        assert(pj.subrange(0, pi.len() as int) =~= pj1.subrange(0, pi.len() as int));
    } else {
        let pi = params_markup(ps.subrange(0, i));
        assert(pi.subrange(0, pi.len() as int) =~= pi);
    }
}

/// Well-formed markup of one parameter at `pos` of `b` is a tag there.
#[verifier::rlimit(50)]
proof fn lemma_param_at(b: Seq<char>, pos: int, k: Seq<char>, v: Seq<char>)
    requires
        0 <= pos,
        pos + param_markup(k, v).len() <= b.len(),
        forall|x: int| 0 <= x < param_markup(k, v).len() ==> b[pos + x] == param_markup(k, v)[x],
        plain_name(k),
        plain_value(v),
    ensures
        ({
            let n0 = pos + 17;
            let q = n0 + k.len();
            let v0 = q + 2;
            let e = v0 + v.len();
            &&& tag_at(b, pos, param_open(), param_stop(), param_close()) == Some(
                (n0, q, v0, e, pos + param_markup(k, v).len()),
            )
            &&& b.subrange(n0, q) == k
            &&& b.subrange(v0, e) == v
        }),
{
    reveal_strlit("<parameter name=\"");
    reveal_strlit("\">");
    reveal_strlit("\"");
    reveal_strlit("<");
    reveal_strlit("</parameter>");
    let kl = k.len() as int;
    let vl = v.len() as int;
    let piece = param_markup(k, v);
    let n0 = pos + 17;
    let q = n0 + kl;
    let v0 = q + 2;
    let e = v0 + vl;
    let end = e + 12;
    assert(end == pos + piece.len());
    assert(piece.subrange(0, 17) =~= param_open());
    assert(piece.subrange(17, 17 + kl) =~= k);
    assert(piece.subrange(17 + kl, 19 + kl) =~= quote_gt());
    assert(piece.subrange(19 + kl, 19 + kl + vl) =~= v);
    assert(piece.subrange(19 + kl + vl, piece.len() as int) =~= param_close());
    assert forall|x: int| 0 <= x < 17 implies b[pos + x] == param_open()[x] by {
        assert(piece.subrange(0, 17)[x] == piece[x]);
    }
    assert forall|x: int| 0 <= x < kl implies b[n0 + x] == k[x] by {
        assert(piece.subrange(17, 17 + kl)[x] == piece[17 + x]);
    }
    assert forall|x: int| 0 <= x < 2 implies b[q + x] == quote_gt()[x] by {
        assert(piece.subrange(17 + kl, 19 + kl)[x] == piece[17 + kl + x]);
    }
    assert forall|x: int| 0 <= x < vl implies b[v0 + x] == v[x] by {
        assert(piece.subrange(19 + kl, 19 + kl + vl)[x] == piece[19 + kl
            + x]);
    }
    assert forall|x: int| 0 <= x < 12 implies b[e + x] == param_close()[x] by {
        assert(piece.subrange(19 + kl + vl, piece.len() as int)[x] == piece[19
            + kl + vl + x]);
    }
    assert(b.subrange(pos, n0) =~= param_open());
    assert(occurs_at(b, param_open(), pos));
    assert forall|j: int| n0 <= j < q implies !occurs_at(b, quote(), j) by {
        assert(b[n0 + (j - n0)] == k[j - n0]);
        assert(b.subrange(j, j + 1)[0] == b[j]);
    }
    assert(quote_gt()[0] == '"' && quote()[0] == '"' && quote().len() == 1);
    assert(b[q + 0] == quote_gt()[0]);
    assert(b.subrange(q, q + 1) =~= quote());
    lemma_find_first(b, quote(), n0, q);
    assert(b.subrange(q, q + 2) =~= quote_gt());
    assert forall|j: int| v0 <= j < e implies !occurs_at(b, param_stop(), j) by {
        assert(b[v0 + (j - v0)] == v[j - v0]);
        assert(b.subrange(j, j + 1)[0] == b[j]);
    }
    assert(param_close()[0] == '<' && param_stop()[0] == '<' && param_stop().len() == 1);
    assert(b[e + 0] == param_close()[0]);
    assert(b.subrange(e, e + 1) =~= param_stop());
    lemma_find_first(b, param_stop(), v0, e);
    assert(b.subrange(e, end) =~= param_close());
    assert(tag_at(b, pos, param_open(), param_stop(), param_close()) == Some((n0, q, v0, e, end)));
    assert(b.subrange(n0, q) =~= k);
    assert(b.subrange(v0, e) =~= v);
}

/// The scan of well-formed parameter markup, from the start of parameter
/// `i` on, finds the parameters from `i` on.
proof fn lemma_scan_params(ps: Seq<(Seq<char>, Seq<char>)>, i: int)
    requires
        0 <= i <= ps.len(),
        forall|j: int| 0 <= j < ps.len() ==> plain_name(#[trigger] ps[j].0) && plain_value(ps[j].1),
    ensures
        ({
            let b = params_markup(ps);
            tags_from(b, params_markup(ps.subrange(0, i)).len() as int, param_open(), param_stop(),
                param_close()).map_values(
                |t: (int, int, int, int)| (b.subrange(t.0, t.1), b.subrange(t.2, t.3)),
            ) == ps.subrange(i, ps.len() as int)
        }),
    decreases ps.len() - i,
{
    reveal_strlit("<parameter name=\"");
    reveal_strlit("\">");
    reveal_strlit("\"");
    reveal_strlit("<");
    reveal_strlit("</parameter>");
    let b = params_markup(ps);
    let n = ps.len() as int;
    assert(ps.subrange(0, n) =~= ps);
    let pos = params_markup(ps.subrange(0, i)).len() as int;
    let f = |t: (int, int, int, int)| (b.subrange(t.0, t.1), b.subrange(t.2, t.3));
    if i == n {
        assert(pos == b.len());
        assert(tag_at(b, pos, param_open(), param_stop(), param_close()) is None);
        assert(tags_from(b, pos + 1, param_open(), param_stop(), param_close()) =~= Seq::empty());
        assert(tags_from(b, pos, param_open(), param_stop(), param_close()).map_values(f)
            =~= ps.subrange(i, n));
    } else {
        lemma_params_prefix(ps, i + 1, n);
        let next = params_markup(ps.subrange(0, i + 1));
        assert(ps.subrange(0, i + 1).drop_last() =~= ps.subrange(0, i));
        let k = ps[i].0;
        let v = ps[i].1;
        let piece = param_markup(k, v);
        assert(next == params_markup(ps.subrange(0, i)) + piece);
        assert forall|x: int| 0 <= x < piece.len() implies b[pos + x] == piece[x] by {
            assert(b.subrange(0, next.len() as int)[pos + x] == next[pos + x]);
        }
        lemma_params_prefix(ps, i + 1, n);
        lemma_param_at(b, pos, k, v);
        let end = pos + piece.len();
        let n0 = pos + 17;
        let q = n0 + k.len();
        let v0 = q + 2;
        let e = v0 + v.len();
        lemma_scan_params(ps, i + 1);
        assert(tags_from(b, pos, param_open(), param_stop(), param_close()) == seq![(n0, q, v0, e)]
            + tags_from(b, end, param_open(), param_stop(), param_close()));
        let rest = tags_from(b, end, param_open(), param_stop(), param_close());
        assert(next.len() == end);
        assert(rest.map_values(f) == ps.subrange(i + 1, n));
        assert(f((n0, q, v0, e)) == ps[i]);
        assert((seq![(n0, q, v0, e)] + rest).map_values(f) =~= seq![ps[i]] + rest.map_values(f));
        assert(ps.subrange(i, n) =~= seq![ps[i]] + ps.subrange(i + 1, n));
    }
}

/// Parameter markup written from plain names and values parses back to
/// exactly those parameters, in order.
pub proof fn lemma_params_round_trip(ps: Seq<(Seq<char>, Seq<char>)>)
    requires
        forall|j: int| 0 <= j < ps.len() ==> plain_name(#[trigger] ps[j].0) && plain_value(ps[j].1),
    ensures
        markup_params(params_markup(ps)) == ps,
{
    lemma_scan_params(ps, 0);
    assert(ps.subrange(0, 0) =~= Seq::<(Seq<char>, Seq<char>)>::empty());
    assert(ps.subrange(0, ps.len() as int) =~= ps);
}

/// Every `<` of parameter markup opens `<p` or `</p`, within the text.
proof fn lemma_params_tags(ps: Seq<(Seq<char>, Seq<char>)>)
    requires
        forall|j: int| 0 <= j < ps.len() ==> plain_name(#[trigger] ps[j].0) && plain_value(ps[j].1),
    ensures
        forall|j: int|
            0 <= j < params_markup(ps).len() && #[trigger] params_markup(ps)[j] == '<' ==> j + 2
                < params_markup(ps).len() && (params_markup(ps)[j + 1] != '/' || params_markup(
                ps,
            )[j + 2] == 'p'),
    decreases ps.len(),
{
    if ps.len() > 0 {
        reveal_strlit("<parameter name=\"");
        reveal_strlit("\">");
        reveal_strlit("</parameter>");
        let pre = ps.drop_last();
        assert forall|j: int| 0 <= j < pre.len() implies plain_name(#[trigger] pre[j].0)
            && plain_value(pre[j].1) by {
            assert(pre[j] == ps[j]);
        }
        lemma_params_tags(pre);
        let a = params_markup(pre);
        let k = ps.last().0;
        let v = ps.last().1;
        let piece = param_markup(k, v);
        let kl = k.len() as int;
        let vl = v.len() as int;
        let all = params_markup(ps);
        assert(all == a + piece);
        assert forall|j: int| 0 <= j < all.len() && #[trigger] all[j] == '<' implies j + 2 < all.len()
            && (all[j + 1] != '/' || all[j + 2] == 'p') by {
            if j < a.len() {
                assert(a[j] == '<');
            } else {
                let x = j - a.len();
                assert(all[j] == piece[x]);
                if x < 17 {
                    assert(piece[x] == param_open()[x]);
                } else if x < 17 + kl {
                    assert(piece[x] == k[x - 17]);
                } else if x < 19 + kl {
                    assert(piece[x] == quote_gt()[x - 17 - kl]);
                } else if x < 19 + kl + vl {
                    assert(piece[x] == v[x - 19 - kl]);
                } else {
                    assert(piece[x] == param_close()[x - 19 - kl - vl]);
                    assert(all[j + 1] == param_close()[x + 1 - 19 - kl - vl]);
                    assert(all[j + 2] == param_close()[x + 2 - 19 - kl - vl]);
                }
            }
        }
    }
}

/// Well-formed markup of one invocation at `pos` of `b` is a tag there.
#[verifier::rlimit(50)]
proof fn lemma_invoke_at(b: Seq<char>, pos: int, n: Seq<char>, ps: Seq<(Seq<char>, Seq<char>)>)
    requires
        0 <= pos,
        pos + invoke_markup(n, ps).len() <= b.len(),
        forall|x: int| 0 <= x < invoke_markup(n, ps).len() ==> b[pos + x] == invoke_markup(n, ps)[x],
        plain_invocation(n, ps),
    ensures
        ({
            let n0 = pos + 14;
            let q = n0 + n.len();
            let v0 = q + 2;
            let e = v0 + params_markup(ps).len();
            &&& tag_at(b, pos, invoke_open(), invoke_close(), invoke_close()) == Some(
                (n0, q, v0, e, pos + invoke_markup(n, ps).len()),
            )
            &&& b.subrange(n0, q) == n
            &&& b.subrange(v0, e) == params_markup(ps)
        }),
{
    reveal_strlit("<invoke name=\"");
    reveal_strlit("\">");
    reveal_strlit("\"");
    reveal_strlit("</invoke>");
    lemma_params_tags(ps);
    let pm = params_markup(ps);
    let nl = n.len() as int;
    let ml = pm.len() as int;
    let piece = invoke_markup(n, ps);
    let n0 = pos + 14;
    let q = n0 + nl;
    let v0 = q + 2;
    let e = v0 + ml;
    let end = e + 9;
    assert(end == pos + piece.len());
    assert(piece.subrange(0, 14) =~= invoke_open());
    assert(piece.subrange(14, 14 + nl) =~= n);
    assert(piece.subrange(14 + nl, 16 + nl) =~= quote_gt());
    assert(piece.subrange(16 + nl, 16 + nl + ml) =~= pm);
    assert(piece.subrange(16 + nl + ml, piece.len() as int) =~= invoke_close());
    assert forall|x: int| 0 <= x < 14 implies b[pos + x] == invoke_open()[x] by {
        assert(piece.subrange(0, 14)[x] == piece[x]);
    }
    assert forall|x: int| 0 <= x < nl implies b[n0 + x] == n[x] by {
        assert(piece.subrange(14, 14 + nl)[x] == piece[14 + x]);
    }
    assert forall|x: int| 0 <= x < 2 implies b[q + x] == quote_gt()[x] by {
        assert(piece.subrange(14 + nl, 16 + nl)[x] == piece[14 + nl + x]);
    }
    assert forall|x: int| 0 <= x < ml implies b[v0 + x] == pm[x] by {
        assert(piece.subrange(16 + nl, 16 + nl + ml)[x] == piece[16 + nl + x]);
    }
    assert forall|x: int| 0 <= x < 9 implies b[e + x] == invoke_close()[x] by {
        assert(piece.subrange(16 + nl + ml, piece.len() as int)[x] == piece[16 + nl + ml + x]);
    }
    assert(b.subrange(pos, n0) =~= invoke_open());
    assert forall|j: int| n0 <= j < q implies !occurs_at(b, quote(), j) by {
        assert(b[n0 + (j - n0)] == n[j - n0]);
        assert(b.subrange(j, j + 1)[0] == b[j]);
    }
    assert(quote_gt()[0] == '"' && quote()[0] == '"' && quote().len() == 1);
    assert(b[q + 0] == quote_gt()[0]);
    assert(b.subrange(q, q + 1) =~= quote());
    lemma_find_first(b, quote(), n0, q);
    assert(b.subrange(q, q + 2) =~= quote_gt());
    assert forall|j: int| v0 <= j < e implies !occurs_at(b, invoke_close(), j) by {
        if occurs_at(b, invoke_close(), j) {
            let y = j - v0;
            assert(b.subrange(j, j + 9)[0] == b[j]);
            assert(b[v0 + y] == pm[y]);
            assert(pm[y] == '<');
            assert(b.subrange(j, j + 9)[1] == b[j + 1]);
            assert(b.subrange(j, j + 9)[2] == b[j + 2]);
            assert(b[v0 + (y + 1)] == pm[y + 1]);
            assert(b[v0 + (y + 2)] == pm[y + 2]);
        }
    }
    assert(b.subrange(e, end) =~= invoke_close());
    lemma_find_first(b, invoke_close(), v0, e);
    assert(b.subrange(n0, q) =~= n);
    assert(b.subrange(v0, e) =~= pm);
}

proof fn lemma_invokes_prefix(invs: Seq<(Seq<char>, Seq<(Seq<char>, Seq<char>)>)>, i: int, j: int)
    requires
        0 <= i <= j <= invs.len(),
    ensures
        invokes_markup(invs.subrange(0, j)).subrange(0, invokes_markup(invs.subrange(0, i)).len() as int)
            == invokes_markup(invs.subrange(0, i)),
        invokes_markup(invs.subrange(0, i)).len() <= invokes_markup(invs.subrange(0, j)).len(),
    decreases j - i,
{
    if i < j {
        lemma_invokes_prefix(invs, i, j - 1);
        let pj = invokes_markup(invs.subrange(0, j));
        assert(invs.subrange(0, j).drop_last() =~= invs.subrange(0, j - 1));
        let pj1 = invokes_markup(invs.subrange(0, j - 1));
        let pi = invokes_markup(invs.subrange(0, i));
        assert(pj.subrange(0, pi.len() as int) =~= pj1.subrange(0, pi.len() as int));
    } else {
        let pi = invokes_markup(invs.subrange(0, i));
        assert(pi.subrange(0, pi.len() as int) =~= pi);
    }
}

proof fn lemma_scan_invokes(invs: Seq<(Seq<char>, Seq<(Seq<char>, Seq<char>)>)>, i: int)
    requires
        0 <= i <= invs.len(),
        forall|j: int| 0 <= j < invs.len() ==> plain_invocation(#[trigger] invs[j].0, invs[j].1),
    ensures
        ({
            let b = invokes_markup(invs);
            tags_from(b, invokes_markup(invs.subrange(0, i)).len() as int, invoke_open(),
                invoke_close(), invoke_close()).map_values(
                |t: (int, int, int, int)| (b.subrange(t.0, t.1), markup_params(b.subrange(t.2, t.3))),
            ) == invs.subrange(i, invs.len() as int)
        }),
    decreases invs.len() - i,
{
    reveal_strlit("<invoke name=\"");
    reveal_strlit("</invoke>");
    let b = invokes_markup(invs);
    let n = invs.len() as int;
    assert(invs.subrange(0, n) =~= invs);
    let pos = invokes_markup(invs.subrange(0, i)).len() as int;
    let f = |t: (int, int, int, int)| (b.subrange(t.0, t.1), markup_params(b.subrange(t.2, t.3)));
    if i == n {
        assert(pos == b.len());
        assert(tag_at(b, pos, invoke_open(), invoke_close(), invoke_close()) is None);
        assert(tags_from(b, pos + 1, invoke_open(), invoke_close(), invoke_close()) =~= Seq::empty());
        assert(tags_from(b, pos, invoke_open(), invoke_close(), invoke_close()).map_values(f)
            =~= invs.subrange(i, n));
    } else {
        lemma_invokes_prefix(invs, i + 1, n);
        let next = invokes_markup(invs.subrange(0, i + 1));
        assert(invs.subrange(0, i + 1).drop_last() =~= invs.subrange(0, i));
        let nm = invs[i].0;
        let ps = invs[i].1;
        let piece = invoke_markup(nm, ps);
        assert(next == invokes_markup(invs.subrange(0, i)) + piece);
        assert forall|x: int| 0 <= x < piece.len() implies b[pos + x] == piece[x] by {
            assert(b.subrange(0, next.len() as int)[pos + x] == next[pos + x]);
        }
        assert(plain_invocation(nm, ps));
        lemma_invoke_at(b, pos, nm, ps);
        lemma_params_round_trip(ps);
        let end = pos + piece.len();
        let n0 = pos + 14;
        let q = n0 + nm.len();
        let v0 = q + 2;
        let e = v0 + params_markup(ps).len();
        lemma_scan_invokes(invs, i + 1);
        assert(tags_from(b, pos, invoke_open(), invoke_close(), invoke_close()) == seq![
            (n0, q, v0, e),
        ] + tags_from(b, end, invoke_open(), invoke_close(), invoke_close()));
        let rest = tags_from(b, end, invoke_open(), invoke_close(), invoke_close());
        assert(next.len() == end);
        assert(rest.map_values(f) == invs.subrange(i + 1, n));
        assert(f((n0, q, v0, e)) == invs[i]);
        assert((seq![(n0, q, v0, e)] + rest).map_values(f) =~= seq![invs[i]] + rest.map_values(f));
        assert(invs.subrange(i, n) =~= seq![invs[i]] + invs.subrange(i + 1, n));
    }
}

/// A `<function_calls>` block written from invocations with plain names,
/// parameter names and values parses to exactly those invocations: as many,
/// in the same order, each with all its parameters as text, in order.
pub proof fn lemma_markup_round_trip(invs: Seq<(Seq<char>, Seq<(Seq<char>, Seq<char>)>)>)
    requires
        forall|j: int| 0 <= j < invs.len() ==> plain_invocation(#[trigger] invs[j].0, invs[j].1),
    ensures
        markup_invocations(invokes_markup(invs)) == invs,
{
    lemma_scan_invokes(invs, 0);
    assert(invs.subrange(0, 0) =~= Seq::<(Seq<char>, Seq<(Seq<char>, Seq<char>)>)>::empty());
    assert(invs.subrange(0, invs.len() as int) =~= invs);
}

/// Every `<` of invocation markup opens `<x`, `</p` or `</i`, within the text.
proof fn lemma_invokes_tags(invs: Seq<(Seq<char>, Seq<(Seq<char>, Seq<char>)>)>)
    requires
        forall|j: int| 0 <= j < invs.len() ==> plain_invocation(#[trigger] invs[j].0, invs[j].1),
    ensures
        forall|j: int|
            0 <= j < invokes_markup(invs).len() && #[trigger] invokes_markup(invs)[j] == '<' ==> j
                + 2 < invokes_markup(invs).len() && (invokes_markup(invs)[j + 1] != '/'
                || invokes_markup(invs)[j + 2] == 'p' || invokes_markup(invs)[j + 2] == 'i'),
    decreases invs.len(),
{
    if invs.len() > 0 {
        reveal_strlit("<invoke name=\"");
        reveal_strlit("\">");
        reveal_strlit("</invoke>");
        let pre = invs.drop_last();
        assert forall|j: int| 0 <= j < pre.len() implies plain_invocation(
            #[trigger] pre[j].0,
            pre[j].1,
        ) by {
            assert(pre[j] == invs[j]);
        }
        lemma_invokes_tags(pre);
        let nm = invs.last().0;
        let ps = invs.last().1;
        assert(plain_invocation(invs[invs.len() - 1].0, invs[invs.len() - 1].1));
        lemma_params_tags(ps);
        let a = invokes_markup(pre);
        let pm = params_markup(ps);
        let piece = invoke_markup(nm, ps);
        let nl = nm.len() as int;
        let ml = pm.len() as int;
        let all = invokes_markup(invs);
        assert(all == a + piece);
        assert forall|j: int| 0 <= j < all.len() && #[trigger] all[j] == '<' implies j + 2 < all.len()
            && (all[j + 1] != '/' || all[j + 2] == 'p' || all[j + 2] == 'i') by {
            if j < a.len() {
                assert(a[j] == '<');
            } else {
                let x = j - a.len();
                assert(all[j] == piece[x]);
                if x < 14 {
                    assert(piece[x] == invoke_open()[x]);
                } else if x < 14 + nl {
                    assert(piece[x] == nm[x - 14]);
                } else if x < 16 + nl {
                    assert(piece[x] == quote_gt()[x - 14 - nl]);
                } else if x < 16 + nl + ml {
                    let y = x - 16 - nl;
                    assert(piece[x] == pm[y]);
                    assert(all[j + 1] == pm[y + 1]);
                    assert(all[j + 2] == pm[y + 2]);
                } else {
                    assert(piece[x] == invoke_close()[x - 16 - nl - ml]);
                    assert(all[j + 1] == invoke_close()[x + 1 - 16 - nl - ml]);
                    assert(all[j + 2] == invoke_close()[x + 2 - 16 - nl - ml]);
                }
            }
        }
    }
}

/// A response whose first `<function_calls>` block is written from
/// invocations with plain names, parameter names and values parses to the
/// trimmed text before the block and exactly those invocations: as many, in
/// the same order, each with all its parameters as text, in order.
#[verifier::rlimit(50)]
pub proof fn lemma_response_markup(
    lead: Seq<char>,
    invs: Seq<(Seq<char>, Seq<(Seq<char>, Seq<char>)>)>,
    tail: Seq<char>,
)
    requires
        forall|j: int| 0 <= j < invs.len() ==> plain_invocation(#[trigger] invs[j].0, invs[j].1),
        forall|j: int|
            0 <= j < lead.len() ==> !occurs_at(
                lead + calls_open() + invokes_markup(invs) + calls_close() + tail,
                calls_open(),
                j,
            ),
    ensures
        markup_parse(lead + calls_open() + invokes_markup(invs) + calls_close() + tail) == Some(
            (trim(lead), invs),
        ),
{
    reveal_strlit("<function_calls>");
    reveal_strlit("</function_calls>");
    lemma_markup_round_trip(invs);
    lemma_invokes_tags(invs);
    let im = invokes_markup(invs);
    let t = lead + calls_open() + im + calls_close() + tail;
    let o = lead.len() as int;
    let s0 = o + 16;
    let c = s0 + im.len();
    assert(t.subrange(o, s0) =~= calls_open());
    lemma_find_first(t, calls_open(), 0, o);
    assert forall|x: int| 0 <= x < im.len() implies t[s0 + x] == im[x] by {}
    assert forall|x: int| 0 <= x < 17 implies t[c + x] == calls_close()[x] by {}
    assert forall|j: int| s0 <= j < c implies !occurs_at(t, calls_close(), j) by {
        if occurs_at(t, calls_close(), j) {
            let y = j - s0;
            assert(t.subrange(j, j + 17)[0] == t[j]);
            assert(t.subrange(j, j + 17)[1] == t[j + 1]);
            assert(t.subrange(j, j + 17)[2] == t[j + 2]);
            assert(t[s0 + y] == im[y]);
            assert(t[s0 + (y + 1)] == im[y + 1]);
            assert(t[s0 + (y + 2)] == im[y + 2]);
        }
    }
    assert(t.subrange(c, c + 17) =~= calls_close());
    lemma_find_first(t, calls_close(), s0, c);
    assert(t.subrange(0, o) =~= lead);
    assert(t.subrange(s0, c) =~= im);
}

} // verus!
