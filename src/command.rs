//! What a line typed at the prompt asks for.
use vstd::prelude::*;

use crate::text::{chars_of, slice_string, trim, trim_chars};

verus! {

pub enum InputKind {
    /// Show the help text.
    Help,
    /// Start a new conversation.
    Clear,
    /// Leave the session.
    Quit,
    /// Run the rest of the line as a shell command.
    Shell(String),
    /// Send the line to the model.
    Chat,
}

/// `/help`, `/clear` and `/quit` are recognised with white space around
/// them; a line that starts with `!` is a shell command; any other is chat.
pub open spec fn kind_is(input: Seq<char>, k: InputKind) -> bool {
    if trim(input) == "/help"@ {
        k is Help
    } else if trim(input) == "/clear"@ {
        k is Clear
    } else if trim(input) == "/quit"@ {
        k is Quit
    } else if input.len() > 0 && input[0] == '!' {
        k matches InputKind::Shell(c) && c@ == input.drop_first()
    } else {
        k is Chat
    }
}

pub fn classify_input(input: &str) -> (k: InputKind)
    ensures
        kind_is(input@, k),
{
    let cs = chars_of(input);
    let t = trim_chars(&cs);
    if t.eq(&"/help".to_string()) {
        InputKind::Help
    } else if t.eq(&"/clear".to_string()) {
        InputKind::Clear
    } else if t.eq(&"/quit".to_string()) {
        InputKind::Quit
    } else if cs.len() > 0 && cs[0] == '!' {
        let rest = slice_string(&cs, 1, cs.len());
        assert(cs@.subrange(1, cs@.len() as int) =~= cs@.drop_first());
        InputKind::Shell(rest)
    } else {
        InputKind::Chat
    }
}

} // verus!
