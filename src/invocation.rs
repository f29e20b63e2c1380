//! Tool invocations as recovered from a model response.
use vstd::prelude::*;

verus! {

/// The value of one named parameter of an invocation.
pub enum ParamValue {
    /// A string value.
    Text(String),
    /// An integer that fits in `i64`.
    Integer(i64),
    /// Any other value (a boolean, a fraction, an array, an object, null).
    Other,
}

/// A named tool call with its parameters, in the order they were written.
/// Where a name occurs more than once the last occurrence counts.
pub struct ToolInvocation {
    pub name: String,
    pub parameters: Vec<(String, ParamValue)>,
}

/// One tool call found in a model response: either an invocation written in
/// the structured markup, or the text of an inline JSON object.
pub enum ToolCall {
    Markup(ToolInvocation),
    Inline(String),
}

/// `p` is the string parameter named `name` with value `value`.
pub open spec fn text_param_is(p: (String, ParamValue), name: Seq<char>, value: Seq<char>) -> bool {
    p.0@ == name && match p.1 {
        ParamValue::Text(v) => v@ == value,
        _ => false,
    }
}

/// `inv` is named `name` and holds exactly the string parameters `ps`, in order.
pub open spec fn invocation_is(
    inv: ToolInvocation,
    name: Seq<char>,
    ps: Seq<(Seq<char>, Seq<char>)>,
) -> bool {
    &&& inv.name@ == name
    &&& inv.parameters@.len() == ps.len()
    &&& forall|i: int| 0 <= i < ps.len() ==> text_param_is(inv.parameters@[i], ps[i].0, ps[i].1)
}

} // verus!
