//! What the shell and cloud-CLI tools compute around running a process.
use vstd::prelude::*;

use crate::text::{chars_of, push_str, string_of, trim, trim_bounds, views};

verus! {

/// `s` with a `\n` added where it is non-empty and does not end in one.
pub open spec fn ends_line(s: Seq<char>) -> Seq<char> {
    if s.len() > 0 && s.last() != '\n' {
        s + "\n"@
    } else {
        s
    }
}

/// The text a shell command reports: its standard output, then its error
/// output on a line of its own (after `Error: ` where the command failed);
/// where a failed command printed nothing, `Command failed with exit code: `
/// and its status; always ending in a line break where non-empty.
pub open spec fn combined_output(stdout: Seq<char>, stderr: Seq<char>, success: bool, status: Seq<char>) -> Seq<char> {
    let with_err = if stderr.len() > 0 {
        ends_line(stdout) + (if success {
            Seq::empty()
        } else {
            "Error: "@
        }) + stderr
    } else {
        stdout
    };
    let text = if !success && with_err.len() == 0 {
        "Command failed with exit code: "@ + status
    } else {
        with_err
    };
    ends_line(text)
}

fn push_line_end(out: &mut Vec<char>)
    ensures
        final(out)@ == ends_line(old(out)@),
{
    let n = out.len();
    if n > 0 && out[n - 1] != '\n' {
        push_str(out, "\n");
    }
}

/// Combines what a finished shell command printed into one text.
pub fn combine_output(stdout: &str, stderr: &str, success: bool, status: &str) -> (r: String)
    ensures
        r@ == combined_output(stdout@, stderr@, success, status@),
{
    let mut out: Vec<char> = Vec::new();
    push_str(&mut out, stdout);
    assert(out@ =~= stdout@);
    let err = chars_of(stderr);
    if err.len() > 0 {
        push_line_end(&mut out);
        if !success {
            push_str(&mut out, "Error: ");
        }
        crate::text::push_range(&mut out, &err, 0, err.len());
        assert(err@.subrange(0, err@.len() as int) =~= err@);
    }
    if !success && out.len() == 0 {
        out = Vec::new();
        push_str(&mut out, "Command failed with exit code: ");
        push_str(&mut out, status);
    }
    push_line_end(&mut out);
    assert(out@ =~= combined_output(stdout@, stderr@, success, status@));
    string_of(out.as_slice())
}

/// A command of nothing but white space is refused.
pub fn command_is_empty(command: &str) -> (r: bool)
    ensures
        r == (trim(command@).len() == 0),
{
    let cs = chars_of(command);
    let (a, b) = trim_bounds(&cs);
    a == b
}

/// The value of one cloud-CLI parameter.
pub enum AwsValue {
    /// A string, passed as it is; an empty one makes a bare flag.
    Text(String),
    /// A number, a boolean, an array or an object, already in its text form.
    Literal(String),
    /// Null: the parameter is left out.
    Null,
}

/// `--` and the key with each `_` turned into `-`.
pub open spec fn flag_of(key: Seq<char>) -> Seq<char> {
    "--"@ + key.map_values(|c: char| if c == '_' {
        '-'
    } else {
        c
    })
}

/// The arguments one parameter adds.
pub open spec fn param_args(key: Seq<char>, v: AwsValue) -> Seq<Seq<char>> {
    match v {
        AwsValue::Text(s) => if s@.len() == 0 {
            seq![flag_of(key)]
        } else {
            seq![flag_of(key), s@]
        },
        AwsValue::Literal(s) => seq![flag_of(key), s@],
        AwsValue::Null => Seq::empty(),
    }
}

pub open spec fn params_args(ps: Seq<(String, AwsValue)>) -> Seq<Seq<char>>
    decreases ps.len(),
{
    if ps.len() == 0 {
        Seq::empty()
    } else {
        params_args(ps.drop_last()) + param_args(ps.last().0@, ps.last().1)
    }
}

fn flag(key: &String) -> (r: String)
    ensures
        r@ == flag_of(key@),
{
    let cs = chars_of(key.as_str());
    let mut out: Vec<char> = Vec::new();
    push_str(&mut out, "--");
    let ghost start = out@;
    let mut i: usize = 0;
    while i < cs.len()
        invariant
            i <= cs.len(),
            cs@ == key@,
            out@ == start + cs@.subrange(0, i as int).map_values(|c: char| if c == '_' {
                '-'
            } else {
                c
            }),
        decreases cs.len() - i,
    {
        out.push(if cs[i] == '_' { '-' } else { cs[i] });
        assert(cs@.subrange(0, i + 1) =~= cs@.subrange(0, i as int).push(cs@[i as int]));
        assert(out@ =~= start + cs@.subrange(0, i + 1).map_values(|c: char| if c == '_' {
            '-'
        } else {
            c
        }));
        i = i + 1;
    }
    assert(cs@.subrange(0, cs.len() as int) =~= cs@);
    string_of(out.as_slice())
}

/// The arguments of a cloud-CLI call: service, operation, `--region`, the
/// profile where one is named, then each parameter as a flag.
pub fn aws_arguments(
    service_name: &str,
    operation_name: &str,
    region: &str,
    profile_name: Option<&str>,
    parameters: &Vec<(String, AwsValue)>,
) -> (r: Vec<String>)
    ensures
        views(r@) == seq![service_name@, operation_name@, "--region"@, region@] + (match profile_name {
            Some(p) => seq!["--profile"@, p@],
            None => Seq::empty(),
        }) + params_args(parameters@),
{
    let mut r: Vec<String> = Vec::new();
    r.push(service_name.to_string());
    r.push(operation_name.to_string());
    r.push("--region".to_string());
    r.push(region.to_string());
    match profile_name {
        Some(p) => {
            r.push("--profile".to_string());
            r.push(p.to_string());
        },
        None => {},
    }
    let ghost head = views(r@);
    assert(head =~= seq![service_name@, operation_name@, "--region"@, region@] + (match profile_name {
        Some(p) => seq!["--profile"@, p@],
        None => Seq::empty(),
    }));
    let mut i: usize = 0;
    while i < parameters.len()
        invariant
            i <= parameters.len(),
            views(r@) == head + params_args(parameters@.subrange(0, i as int)),
        decreases parameters.len() - i,
    {
        let ghost before = views(r@);
        let (key, value) = (&parameters[i].0, &parameters[i].1);
        match value {
            AwsValue::Text(s) => {
                r.push(flag(key));
                if !s.as_str().is_empty() {
                    r.push(s.clone());
                }
            },
            AwsValue::Literal(s) => {
                r.push(flag(key));
                r.push(s.clone());
            },
            AwsValue::Null => {},
        }
        assert(parameters@.subrange(0, i + 1).drop_last() =~= parameters@.subrange(0, i as int));
        assert(views(r@) =~= before + param_args(parameters@[i as int].0@, parameters@[i as int].1));
        i = i + 1;
    }
    assert(parameters@.subrange(0, parameters.len() as int) =~= parameters@);
    r
}

} // verus!
