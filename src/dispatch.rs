//! Maps a tool invocation to a typed request for one tool.
use vstd::prelude::*;

use crate::invocation::{ParamValue, ToolInvocation};
use crate::text::{push_str, string_of};

verus! {

/// The string parameter `key` of `ps`, the last one where it repeats; `None`
/// where it is absent or not a string.
pub open spec fn param_text(ps: Seq<(String, ParamValue)>, key: Seq<char>) -> Option<Seq<char>>
    decreases ps.len(),
{
    if ps.len() == 0 {
        None
    } else if ps.last().0@ == key {
        match ps.last().1 {
            ParamValue::Text(s) => Some(s@),
            _ => None,
        }
    } else {
        param_text(ps.drop_last(), key)
    }
}

/// The integer parameter `key` of `ps`, as `param_text` finds it.
pub open spec fn param_int(ps: Seq<(String, ParamValue)>, key: Seq<char>) -> Option<i64>
    decreases ps.len(),
{
    if ps.len() == 0 {
        None
    } else if ps.last().0@ == key {
        match ps.last().1 {
            ParamValue::Integer(v) => Some(v),
            _ => None,
        }
    } else {
        param_int(ps.drop_last(), key)
    }
}

pub open spec fn text_or(ps: Seq<(String, ParamValue)>, key: Seq<char>, default: Seq<char>) -> Seq<char> {
    match param_text(ps, key) {
        Some(s) => s,
        None => default,
    }
}

pub open spec fn int_or(ps: Seq<(String, ParamValue)>, key: Seq<char>, default: i64) -> i64 {
    match param_int(ps, key) {
        Some(v) => v,
        None => default,
    }
}

/// What one invocation asks a tool to do.
pub enum ToolRequest {
    ExecuteBash { command: String },
    ReadLines { path: String, start_line: i32, end_line: i32 },
    ListDirectory { path: String },
    Search { path: String, pattern: String, context_lines: Option<usize> },
    Create { path: String, file_text: String },
    Replace { path: String, old_str: String, new_str: String },
    Append { path: String, content: String },
    Insert { path: String, insert_line: usize, content: String },
    UseAws {
        service_name: String,
        operation_name: String,
        region: String,
        parameters: String,
        profile_name: Option<String>,
        label: String,
    },
}

/// Why an invocation names no request.
pub enum DispatchError {
    UnknownTool(String),
    InvalidReadMode(String),
    InvalidWriteCommand(String),
}

impl DispatchError {
    pub open spec fn message_spec(&self) -> Seq<char> {
        match self {
            DispatchError::UnknownTool(s) => "Unknown tool: "@ + s@,
            DispatchError::InvalidReadMode(s) => "Invalid fs_read mode: "@ + s@,
            DispatchError::InvalidWriteCommand(s) => "Invalid fs_write command: "@ + s@,
        }
    }

    /// The text reported for this error.
    pub fn message(&self) -> (r: String)
        ensures
            r@ == self.message_spec(),
    {
        let mut out: Vec<char> = Vec::new();
        match self {
            DispatchError::UnknownTool(s) => {
                push_str(&mut out, "Unknown tool: ");
                push_str(&mut out, s.as_str());
            },
            DispatchError::InvalidReadMode(s) => {
                push_str(&mut out, "Invalid fs_read mode: ");
                push_str(&mut out, s.as_str());
            },
            DispatchError::InvalidWriteCommand(s) => {
                push_str(&mut out, "Invalid fs_write command: ");
                push_str(&mut out, s.as_str());
            },
        }
        string_of(out.as_slice())
    }
}

fn lookup(ps: &Vec<(String, ParamValue)>, key: &str) -> (r: Option<usize>)
    ensures
        match r {
            Some(i) => i < ps.len() && ps@[i as int].0@ == key@ && param_text(ps@, key@)
                == match ps@[i as int].1 {
                ParamValue::Text(s) => Some(s@),
                _ => None::<Seq<char>>,
            } && param_int(ps@, key@) == match ps@[i as int].1 {
                ParamValue::Integer(v) => Some(v),
                _ => None::<i64>,
            },
            None => param_text(ps@, key@) is None && param_int(ps@, key@) is None,
        },
{
    let k = key.to_string();
    let mut i = ps.len();
    assert(ps@.subrange(0, ps.len() as int) =~= ps@);
    while i > 0
        invariant
            k@ == key@,
            i <= ps.len(),
            param_text(ps@, key@) == param_text(ps@.subrange(0, i as int), key@),
            param_int(ps@, key@) == param_int(ps@.subrange(0, i as int), key@),
        decreases i,
    {
        let ghost pre = ps@.subrange(0, i as int);
        assert(pre.drop_last() =~= ps@.subrange(0, i - 1));
        if ps[i - 1].0.eq(&k) {
            return Some(i - 1);
        }
        i = i - 1;
    }
    None
}

/// The string parameter `key`, or `default`.
fn get_text(ps: &Vec<(String, ParamValue)>, key: &str, default: &str) -> (r: String)
    ensures
        r@ == text_or(ps@, key@, default@),
{
    match lookup(ps, key) {
        Some(i) => match &ps[i].1 {
            ParamValue::Text(s) => s.clone(),
            _ => default.to_string(),
        },
        None => default.to_string(),
    }
}

/// The integer parameter `key`, where present.
fn get_int(ps: &Vec<(String, ParamValue)>, key: &str) -> (r: Option<i64>)
    ensures
        r == param_int(ps@, key@),
{
    match lookup(ps, key) {
        Some(i) => match &ps[i].1 {
            ParamValue::Integer(v) => Some(*v),
            _ => None,
        },
        None => None,
    }
}

} // verus!

verus! {

fn same(s: &String, lit: &str) -> (r: bool)
    ensures
        r == (s@ == lit@),
{
    let l = lit.to_string();
    s.eq(&l)
}

/// `r` is the plan for a call of tool `name` with parameters `ps`. Absent or
/// mistyped parameters take their defaults: `""` for text, line 1 to the
/// last line for a range, mode `Line`, line 0 for an insertion.
pub open spec fn plan_is(
    name: Seq<char>,
    ps: Seq<(String, ParamValue)>,
    r: Result<ToolRequest, DispatchError>,
) -> bool {
    let path = text_or(ps, "path"@, ""@);
    if name == "execute_bash"@ {
        (r matches Ok(ToolRequest::ExecuteBash { command }) && command@ == text_or(
            ps,
            "command"@,
            ""@,
        ))
    } else if name == "fs_read"@ {
        let mode = text_or(ps, "mode"@, "Line"@);
        if mode == "Line"@ {
            (r matches Ok(ToolRequest::ReadLines { path: p, start_line, end_line }) && p@ == path
                && start_line == int_or(ps, "start_line"@, 1) as i32 && end_line == int_or(
                ps,
                "end_line"@,
                -1i64,
            ) as i32)
        } else if mode == "Directory"@ {
            (r matches Ok(ToolRequest::ListDirectory { path: p }) && p@ == path)
        } else if mode == "Search"@ {
            (r matches Ok(ToolRequest::Search { path: p, pattern, context_lines }) && p@ == path
                && pattern@ == text_or(ps, "pattern"@, ""@) && context_lines == match param_int(
                ps,
                "context_lines"@,
            ) {
                Some(v) => Some(v as usize),
                None => None::<usize>,
            })
        } else {
            (r matches Err(DispatchError::InvalidReadMode(m)) && m@ == mode)
        }
    } else if name == "fs_write"@ {
        let command = text_or(ps, "command"@, ""@);
        let new_str = text_or(ps, "new_str"@, ""@);
        if command == "create"@ {
            (r matches Ok(ToolRequest::Create { path: p, file_text }) && p@ == path && file_text@
                == text_or(ps, "file_text"@, ""@))
        } else if command == "str_replace"@ {
            (r matches Ok(ToolRequest::Replace { path: p, old_str, new_str: n }) && p@ == path
                && old_str@ == text_or(ps, "old_str"@, ""@) && n@ == new_str)
        } else if command == "append"@ {
            (r matches Ok(ToolRequest::Append { path: p, content }) && p@ == path && content@
                == new_str)
        } else if command == "insert"@ {
            (r matches Ok(ToolRequest::Insert { path: p, insert_line, content }) && p@ == path
                && insert_line == int_or(ps, "insert_line"@, 0) as usize && content@ == new_str)
        } else {
            (r matches Err(DispatchError::InvalidWriteCommand(c)) && c@ == command)
        }
    } else if name == "use_aws"@ {
        (r matches Ok(
            ToolRequest::UseAws {
                service_name,
                operation_name,
                region,
                parameters,
                profile_name,
                label,
            },
        ) && service_name@ == text_or(ps, "service_name"@, ""@) && operation_name@ == text_or(
            ps,
            "operation_name"@,
            ""@,
        ) && region@ == text_or(ps, "region"@, ""@) && parameters@ == text_or(
            ps,
            "parameters"@,
            ""@,
        ) && label@ == text_or(ps, "label"@, ""@) && match param_text(ps, "profile_name"@) {
            Some(p) => profile_name matches Some(q) && q@ == p,
            None => profile_name is None,
        })
    } else {
        (r matches Err(DispatchError::UnknownTool(n)) && n@ == name)
    }
}

/// Decides which tool request an invocation makes.
pub fn plan_tool_call(inv: &ToolInvocation) -> (r: Result<ToolRequest, DispatchError>)
    ensures
        plan_is(inv.name@, inv.parameters@, r),
{
    let ps = &inv.parameters;
    let path = get_text(ps, "path", "");
    if same(&inv.name, "execute_bash") {
        Ok(ToolRequest::ExecuteBash { command: get_text(ps, "command", "") })
    } else if same(&inv.name, "fs_read") {
        let mode = get_text(ps, "mode", "Line");
        if same(&mode, "Line") {
            let start_line = match get_int(ps, "start_line") {
                Some(v) => v,
                None => 1,
            };
            let end_line = match get_int(ps, "end_line") {
                Some(v) => v,
                None => -1,
            };
            Ok(ToolRequest::ReadLines { path, start_line: start_line as i32, end_line: end_line as i32 })
        } else if same(&mode, "Directory") {
            Ok(ToolRequest::ListDirectory { path })
        } else if same(&mode, "Search") {
            let context_lines = match get_int(ps, "context_lines") {
                Some(v) => Some(v as usize),
                None => None,
            };
            Ok(ToolRequest::Search { path, pattern: get_text(ps, "pattern", ""), context_lines })
        } else {
            Err(DispatchError::InvalidReadMode(mode))
        }
    } else if same(&inv.name, "fs_write") {
        let command = get_text(ps, "command", "");
        let new_str = get_text(ps, "new_str", "");
        if same(&command, "create") {
            Ok(ToolRequest::Create { path, file_text: get_text(ps, "file_text", "") })
        } else if same(&command, "str_replace") {
            Ok(ToolRequest::Replace { path, old_str: get_text(ps, "old_str", ""), new_str })
        } else if same(&command, "append") {
            Ok(ToolRequest::Append { path, content: new_str })
        } else if same(&command, "insert") {
            let insert_line = match get_int(ps, "insert_line") {
                Some(v) => v,
                None => 0,
            };
            Ok(ToolRequest::Insert { path, insert_line: insert_line as usize, content: new_str })
        } else {
            Err(DispatchError::InvalidWriteCommand(command))
        }
    } else if same(&inv.name, "use_aws") {
        let profile_name = match lookup(ps, "profile_name") {
            Some(i) => match &ps[i].1 {
                ParamValue::Text(s) => Some(s.clone()),
                _ => None,
            },
            None => None,
        };
        Ok(
            ToolRequest::UseAws {
                service_name: get_text(ps, "service_name", ""),
                operation_name: get_text(ps, "operation_name", ""),
                region: get_text(ps, "region", ""),
                parameters: get_text(ps, "parameters", ""),
                profile_name,
                label: get_text(ps, "label", ""),
            },
        )
    } else {
        Err(DispatchError::UnknownTool(inv.name.clone()))
    }
}

} // verus!

verus! {

/// The error text of a failed read names a missing file or directory.
pub fn mentions_not_found(error: &str) -> (r: bool)
    ensures
        r == crate::text::contains(error@, "not found"@),
{
    let e = crate::text::chars_of(error);
    let p = crate::text::chars_of("not found");
    proof {
        crate::text::lemma_find_from_bounds(e@, p@, 0);
    }
    crate::text::find(&e, &p, 0).is_some()
}

/// What a failed read reports instead, where the directory around the
/// missing path could be listed.
pub fn with_directory_listing(error: &str, listing: &str) -> (r: String)
    ensures
        r@ == "Error: "@ + error@ + ".\n\nAvailable files in directory:\n"@ + listing@,
{
    let mut out: Vec<char> = Vec::new();
    push_str(&mut out, "Error: ");
    push_str(&mut out, error);
    push_str(&mut out, ".\n\nAvailable files in directory:\n");
    push_str(&mut out, listing);
    string_of(out.as_slice())
}

/// What listing a directory that had to be created reports.
pub fn directory_created(path: &str) -> (r: String)
    ensures
        r@ == "Directory created: "@ + path@ + "\nThe directory is empty."@,
{
    let mut out: Vec<char> = Vec::new();
    push_str(&mut out, "Directory created: ");
    push_str(&mut out, path);
    push_str(&mut out, "\nThe directory is empty.");
    string_of(out.as_slice())
}

} // verus!
