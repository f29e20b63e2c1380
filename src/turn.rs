//! The decisions of one chat turn: when to query the model, which tool call
//! to run next, what to show and what to log. The caller performs each
//! action and reports back; tool use nests at most two levels deep.
use vstd::prelude::*;

use crate::conversation::ConversationState;
use crate::invocation::ToolCall;
use crate::parser::{call_count, calls_of, find_tool_calls, has_tool_calls, leading_of};
use crate::text::{chars_of, push_str, string_of, trim, trim_bounds, views};

verus! {

/// Where a turn stands. `level` is the nesting depth of tool use: 0 for the
/// first reply, 1 for calls found in it, 2 for calls found in a reply to a
/// level-1 result.
pub enum Phase {
    AwaitReply { level: u8 },
    AwaitTool { level: u8 },
    Done,
}

/// What the caller does next.
pub enum Action {
    /// Query the model with the whole log, and report the reply.
    Query,
    /// Run `current_call`, and report its result.
    Dispatch,
    /// The turn is over.
    Finish,
}

/// The text to show, then the action to take.
pub struct Step {
    pub display: Vec<String>,
    pub action: Action,
}

pub struct Turn {
    pub phase: Phase,
    /// The calls of the first reply; `outer_at` is the one in progress.
    pub outer: Vec<ToolCall>,
    pub outer_at: usize,
    /// The calls of the current follow-up reply; `inner_at` is the one in progress.
    pub inner: Vec<ToolCall>,
    pub inner_at: usize,
}

/// The leading text of a reply is shown where it is not blank.
pub open spec fn shown_leading(t: Seq<char>) -> Seq<Seq<char>> {
    if trim(leading_of(t)).len() > 0 {
        seq![leading_of(t)]
    } else {
        Seq::empty()
    }
}

/// The text fed back for a tool's result.
pub open spec fn result_text(result: Result<String, String>) -> Seq<char> {
    match result {
        Ok(s) => s@,
        Err(e) => "Error executing tool call: "@ + e@,
    }
}

fn is_blank(s: &str) -> (r: bool)
    ensures
        r == (trim(s@).len() == 0),
{
    let cs = chars_of(s);
    let (a, b) = trim_bounds(&cs);
    a == b
}

impl Turn {
    pub open spec fn wf(&self) -> bool {
        &&& self.outer_at <= self.outer@.len()
        &&& self.inner_at <= self.inner@.len()
        &&& match self.phase {
            Phase::AwaitReply { level } => level <= 2 && (level >= 1 ==> self.outer_at
                < self.outer@.len()) && (level == 2 ==> self.inner_at < self.inner@.len()),
            Phase::AwaitTool { level } => 1 <= level <= 2 && self.outer_at < self.outer@.len() && (
            level == 2 ==> self.inner_at < self.inner@.len()),
            Phase::Done => true,
        }
    }

    /// Begins a turn on the user's `input`: logs it and asks for a query.
    pub fn start(history: &mut ConversationState, input: &str) -> (r: (Turn, Step))
        ensures
            r.0.wf(),
            r.0.phase == (Phase::AwaitReply { level: 0 }),
            final(history)@ == old(history)@.push(("user"@, input@)),
            r.1.display@.len() == 0,
            r.1.action is Query,
    {
        history.add_user_message(input);
        (
            Turn { phase: Phase::AwaitReply { level: 0 }, outer: Vec::new(), outer_at: 0, inner: Vec::new(), inner_at: 0 },
            Step { display: Vec::new(), action: Action::Query },
        )
    }

    /// The call to run when the action is `Dispatch`.
    pub fn current_call(&self) -> (r: &ToolCall)
        requires
            self.wf(),
            self.phase is AwaitTool,
        ensures
            self.phase == (Phase::AwaitTool { level: 1 }) ==> r == self.outer@[self.outer_at as int],
            self.phase == (Phase::AwaitTool { level: 2 }) ==> r == self.inner@[self.inner_at as int],
    {
        match self.phase {
            Phase::AwaitTool { level } => if level == 1 {
                &self.outer[self.outer_at]
            } else {
                &self.inner[self.inner_at]
            },
            _ => &self.outer[self.outer_at],
        }
    }

    /// Moves past the level-1 call in progress.
    fn next_outer(&mut self) -> (a: Action)
        requires
            old(self).outer_at < old(self).outer@.len(),
            old(self).inner_at <= old(self).inner@.len(),
        ensures
            final(self).wf(),
            final(self).outer == old(self).outer,
            final(self).outer_at == old(self).outer_at + 1,
            final(self).inner == old(self).inner,
            final(self).inner_at == old(self).inner_at,
            final(self).outer_at < final(self).outer@.len() ==> final(self).phase == (Phase::AwaitTool {
                level: 1,
            }) && a is Dispatch,
            final(self).outer_at == final(self).outer@.len() ==> final(self).phase is Done
                && a is Finish,
    {
        let n = self.outer.len();
        self.outer_at = self.outer_at + 1;
        if self.outer_at < n {
            self.phase = Phase::AwaitTool { level: 1 };
            Action::Dispatch
        } else {
            self.phase = Phase::Done;
            Action::Finish
        }
    }

    /// Moves past the level-2 call in progress (or past none, where `skip`).
    fn next_inner(&mut self, skip: bool) -> (a: Action)
        requires
            old(self).outer_at < old(self).outer@.len(),
            skip ==> old(self).inner_at <= old(self).inner@.len(),
            !skip ==> old(self).inner_at < old(self).inner@.len(),
        ensures
            final(self).wf(),
            final(self).outer == old(self).outer,
            final(self).inner == old(self).inner,
            ({
                let k = if skip {
                    old(self).inner_at as int
                } else {
                    old(self).inner_at + 1
                };
                if k < old(self).inner@.len() {
                    final(self).inner_at == k && final(self).outer_at == old(self).outer_at
                        && final(self).phase == (Phase::AwaitTool { level: 2 }) && a is Dispatch
                } else {
                    final(self).inner_at == k && final(self).outer_at == old(self).outer_at + 1 && (
                    if final(self).outer_at < final(self).outer@.len() {
                        final(self).phase == (Phase::AwaitTool { level: 1 }) && a is Dispatch
                    } else {
                        final(self).phase is Done && a is Finish
                    })
                }
            }),
    {
        let n = self.inner.len();
        if !skip {
            self.inner_at = self.inner_at + 1;
        }
        if self.inner_at < self.inner.len() {
            self.phase = Phase::AwaitTool { level: 2 };
            Action::Dispatch
        } else {
            self.next_outer()
        }
    }
}

} // verus!

verus! {

/// `t` has moved past its level-1 call in progress, to the next or to the end.
pub open spec fn moved_outer(o: Turn, t: Turn, a: Action) -> bool {
    &&& t.outer == o.outer
    &&& t.outer_at == o.outer_at + 1
    &&& if t.outer_at < t.outer@.len() {
        t.phase == (Phase::AwaitTool { level: 1 }) && a is Dispatch
    } else {
        t.phase is Done && a is Finish
    }
}

/// `t` holds the calls found in `reply` at `level`, and goes to the first.
pub open spec fn took_calls(o: Turn, t: Turn, a: Action, level: u8, reply: Seq<char>) -> bool {
    &&& a is Dispatch
    &&& if level == 0 {
        &&& calls_of(reply, t.outer@)
        &&& t.outer_at == 0
        &&& t.phase == (Phase::AwaitTool { level: 1 })
    } else {
        &&& calls_of(reply, t.inner@)
        &&& t.inner_at == 0
        &&& t.outer == o.outer
        &&& t.outer_at == o.outer_at
        &&& t.phase == (Phase::AwaitTool { level: 2 })
    }
}

/// What a reply does at `level`. At levels 0 and 1 a reply from which
/// parsing gives at least one call is not logged: its leading text is shown
/// and its calls are taken up. A reply that gives no call (markup without
/// invocations included), and every reply at level 2 whatever it holds, is
/// shown and logged whole, and the turn moves on.
pub open spec fn after_reply(
    o: Turn,
    t: Turn,
    h0: Seq<(Seq<char>, Seq<char>)>,
    h1: Seq<(Seq<char>, Seq<char>)>,
    reply: Seq<char>,
    s: Step,
) -> bool {
    let level = o.phase->AwaitReply_level;
    if level < 2 && has_tool_calls(reply) {
        &&& views(s.display@) == shown_leading(reply)
        &&& h1 == h0
        &&& took_calls(o, t, s.action, level, reply)
    } else {
        &&& views(s.display@) == seq![reply]
        &&& h1 == h0.push(("assistant"@, reply))
        &&& if level == 0 {
            t.phase is Done && s.action is Finish
        } else if level == 1 {
            moved_outer(o, t, s.action)
        } else {
            &&& t.inner == o.inner
            &&& t.outer == o.outer
            &&& t.inner_at == o.inner_at + 1
            &&& if t.inner_at < t.inner@.len() {
                t.outer_at == o.outer_at && t.phase == (Phase::AwaitTool { level: 2 })
                    && s.action is Dispatch
            } else {
                moved_outer(o, t, s.action)
            }
        }
    }
}

/// What the result of the call in progress does: the call and its result
/// are logged, an error is shown, and the model is queried at the same level.
pub open spec fn after_result(
    o: Turn,
    t: Turn,
    h0: Seq<(Seq<char>, Seq<char>)>,
    h1: Seq<(Seq<char>, Seq<char>)>,
    call_text: Seq<char>,
    result: Result<String, String>,
    s: Step,
) -> bool {
    &&& t.outer == o.outer
    &&& t.outer_at == o.outer_at
    &&& t.inner == o.inner
    &&& t.inner_at == o.inner_at
    &&& t.phase == (Phase::AwaitReply { level: o.phase->AwaitTool_level })
    &&& h1 == h0.push(("assistant"@, "Tool call: "@ + call_text)).push(
        ("user"@, "Tool result: "@ + result_text(result)),
    )
    &&& views(s.display@) == (if result is Err {
        seq![result_text(result)]
    } else {
        Seq::empty()
    })
    &&& s.action is Query
}

impl Turn {
    /// Takes the model's reply.
    pub fn on_reply(&mut self, history: &mut ConversationState, reply: &str) -> (s: Step)
        requires
            old(self).wf(),
            old(self).phase is AwaitReply,
        ensures
            final(self).wf(),
            after_reply(*old(self), *final(self), old(history)@, final(history)@, reply@, s),
    {
        let level = match self.phase {
            Phase::AwaitReply { level } => level,
            _ => 0,
        };
        let found = if level < 2 {
            match find_tool_calls(reply) {
                Some(p) => if p.tool_calls.len() > 0 {
                    Some(p)
                } else {
                    None
                },
                None => None,
            }
        } else {
            None
        };
        match found {
            Some(p) => {
                let mut display: Vec<String> = Vec::new();
                if !is_blank(p.leading_text.as_str()) {
                    display.push(p.leading_text);
                }
                proof {
                    assert(views(display@) =~= shown_leading(reply@));
                }
                if level == 0 {
                    self.outer = p.tool_calls;
                    self.outer_at = 0;
                    self.phase = Phase::AwaitTool { level: 1 };
                } else {
                    self.inner = p.tool_calls;
                    self.inner_at = 0;
                    self.phase = Phase::AwaitTool { level: 2 };
                }
                Step { display, action: Action::Dispatch }
            },
            None => {
                history.add_assistant_message(reply);
                let mut display: Vec<String> = Vec::new();
                display.push(reply.to_string());
                proof {
                    assert(views(display@) =~= seq![reply@]);
                }
                let action = if level == 0 {
                    self.phase = Phase::Done;
                    Action::Finish
                } else if level == 1 {
                    self.next_outer()
                } else {
                    self.next_inner(false)
                };
                Step { display, action }
            },
        }
    }

    /// Takes the result of the call in progress: logs the call and its
    /// result, shows an error, and asks for a query.
    pub fn on_tool_result(
        &mut self,
        history: &mut ConversationState,
        call_text: &str,
        result: Result<String, String>,
    ) -> (s: Step)
        requires
            old(self).wf(),
            old(self).phase is AwaitTool,
        ensures
            final(self).wf(),
            after_result(*old(self), *final(self), old(history)@, final(history)@, call_text@, result, s),
    {
        let level = match self.phase {
            Phase::AwaitTool { level } => level,
            _ => 1,
        };
        let mut display: Vec<String> = Vec::new();
        let text = match result {
            Ok(s) => s,
            Err(e) => {
                let mut out: Vec<char> = Vec::new();
                push_str(&mut out, "Error executing tool call: ");
                push_str(&mut out, e.as_str());
                let m = string_of(out.as_slice());
                display.push(string_of(out.as_slice()));
                m
            },
        };
        proof {
            assert(text@ == result_text(result));
            assert(views(display@) =~= (if result is Err {
                seq![result_text(result)]
            } else {
                Seq::empty()
            }));
        }
        let mut call: Vec<char> = Vec::new();
        push_str(&mut call, "Tool call: ");
        push_str(&mut call, call_text);
        let mut res: Vec<char> = Vec::new();
        push_str(&mut res, "Tool result: ");
        push_str(&mut res, text.as_str());
        history.add_assistant_message(string_of(call.as_slice()).as_str());
        history.add_user_message(string_of(res.as_slice()).as_str());
        self.phase = Phase::AwaitReply { level };
        Step { display, action: Action::Query }
    }
}

} // verus!

verus! {

/// A reply at the second level of nesting is shown and logged whole, and
/// none of the calls it may hold is taken up: the calls still to run are
/// those found before it.
pub proof fn lemma_second_level_reply_not_parsed(
    o: Turn,
    t: Turn,
    h0: Seq<(Seq<char>, Seq<char>)>,
    h1: Seq<(Seq<char>, Seq<char>)>,
    reply: Seq<char>,
    s: Step,
)
    requires
        o.phase == (Phase::AwaitReply { level: 2 }),
        after_reply(o, t, h0, h1, reply, s),
    ensures
        views(s.display@) == seq![reply],
        h1 == h0.push(("assistant"@, reply)),
        t.outer == o.outer,
        t.inner == o.inner,
        t.inner_at == o.inner_at + 1,
{
}

} // verus!

verus! {

/// A turn whose first reply asks for two calls, where the reply to the first
/// call's result asks for none and the reply to the second's asks for a
/// third: the two calls run in order at level 1, the third at level 2, the
/// model is queried after each, and the reply after the third is shown and
/// logged whole and ends the turn, whatever calls it holds.
pub proof fn lemma_nested_run(
    t: Seq<Turn>,
    h: Seq<Seq<(Seq<char>, Seq<char>)>>,
    s: Seq<Step>,
    replies: Seq<Seq<char>>,
    call_texts: Seq<Seq<char>>,
    results: Seq<Result<String, String>>,
)
    requires
        t.len() == 8,
        h.len() == 8,
        s.len() == 8,
        replies.len() == 4,
        call_texts.len() == 3,
        results.len() == 3,
        t[0].phase == (Phase::AwaitReply { level: 0 }),
        has_tool_calls(replies[0]) && call_count(replies[0]) == 2,
        !has_tool_calls(replies[1]),
        has_tool_calls(replies[2]) && call_count(replies[2]) == 1,
        after_reply(t[0], t[1], h[0], h[1], replies[0], s[1]),
        after_result(t[1], t[2], h[1], h[2], call_texts[0], results[0], s[2]),
        after_reply(t[2], t[3], h[2], h[3], replies[1], s[3]),
        after_result(t[3], t[4], h[3], h[4], call_texts[1], results[1], s[4]),
        after_reply(t[4], t[5], h[4], h[5], replies[2], s[5]),
        after_result(t[5], t[6], h[5], h[6], call_texts[2], results[2], s[6]),
        after_reply(t[6], t[7], h[6], h[7], replies[3], s[7]),
    ensures
        calls_of(replies[0], t[1].outer@),
        t[1].outer@.len() == 2,
        s[1].action is Dispatch && t[1].phase == (Phase::AwaitTool { level: 1 }) && t[1].outer_at
            == 0,
        s[3].action is Dispatch && t[3].phase == (Phase::AwaitTool { level: 1 }) && t[3].outer
            == t[1].outer && t[3].outer_at == 1,
        calls_of(replies[2], t[5].inner@),
        t[5].inner@.len() == 1,
        s[5].action is Dispatch && t[5].phase == (Phase::AwaitTool { level: 2 }) && t[5].inner_at
            == 0,
        s[2].action is Query && s[4].action is Query && s[6].action is Query,
        views(s[7].display@) == seq![replies[3]],
        h[7] == h[6].push(("assistant"@, replies[3])),
        s[7].action is Finish && t[7].phase is Done,
{
}

} // verus!
