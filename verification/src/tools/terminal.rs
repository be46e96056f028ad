//! `run_command` and `get_diagnostics`.
use vstd::prelude::*;
use crate::rules::prompt::{join, push_join};
use crate::text::{contains, find_exec, lines_of, push_decimal, push_str, str_lines, decimal, chars_of};
use crate::json::texts;

verus! {

broadcast use vstd::seq_lib::group_seq_properties;

/// Executes a shell command.
pub struct RunCommand;

/// Gets compiler errors and warnings.
pub struct GetDiagnostics;

impl RunCommand {
    pub fn name(&self) -> (r: &'static str)
        ensures
            r@ == "run_command"@,
    {
        "run_command"
    }

    pub fn description(&self) -> (r: &'static str)
        ensures
            r@ == "Execute a shell command"@,
    {
        "Execute a shell command"
    }

    /// The parameters' JSON schema.
    pub fn parameters_schema(&self) -> (r: &'static str)
        ensures
            r@ == "{\"properties\":{\"command\":{\"type\":\"string\"},\"cwd\":{\"type\":\"string\"},\"timeout_ms\":{\"type\":\"integer\"}},\"required\":[\"command\"],\"type\":\"object\"}"@,
    {
        "{\"properties\":{\"command\":{\"type\":\"string\"},\"cwd\":{\"type\":\"string\"},\"timeout_ms\":{\"type\":\"integer\"}},\"required\":[\"command\"],\"type\":\"object\"}"
    }
}

impl GetDiagnostics {
    pub fn name(&self) -> (r: &'static str)
        ensures
            r@ == "get_diagnostics"@,
    {
        "get_diagnostics"
    }

    pub fn description(&self) -> (r: &'static str)
        ensures
            r@ == "Get compiler errors and warnings"@,
    {
        "Get compiler errors and warnings"
    }

    /// The parameters' JSON schema.
    pub fn parameters_schema(&self) -> (r: &'static str)
        ensures
            r@ == "{\"properties\":{\"path\":{\"type\":\"string\"}},\"type\":\"object\"}"@,
    {
        "{\"properties\":{\"path\":{\"type\":\"string\"}},\"type\":\"object\"}"
    }
}

/// How long a command may run when its arguments do not say, in milliseconds.
pub fn default_timeout() -> (r: u64)
    ensures
        r == 30000,
{
    30_000
}

/// How long the diagnostics may run, in milliseconds.
pub fn diagnostics_timeout_ms() -> (r: u64)
    ensures
        r == 60000,
{
    60_000
}

/// What a command printed, as the tool reports it: its output, then its
/// error output after a separator when there was output before it, then its
/// exit code when it failed (-1 when it has none, as when a signal ended it).
pub open spec fn command_report(stdout: Seq<char>, stderr: Seq<char>, success: bool, code: Option<i32>) -> Seq<char> {
    let out = stdout;
    let with_err = if stderr.len() > 0 {
        if out.len() > 0 { out + "\n--- stderr ---\n"@ + stderr } else { out + stderr }
    } else {
        out
    };
    if !success {
        let c: int = match code { Some(c) => c as int, None => -1 };
        with_err + "\n[exit code: "@ + (if c < 0 { "-"@ + decimal((-c) as nat) } else { decimal(c as nat) }) + "]"@
    } else {
        with_err
    }
}

pub fn command_output(stdout: &str, stderr: &str, success: bool, code: Option<i32>) -> (r: String)
    ensures
        r@ == command_report(stdout@, stderr@, success, code),
{
    let mut result = String::new();
    push_str(&mut result, stdout);
    if !stderr.is_empty() {
        if !stdout.is_empty() {
            push_str(&mut result, "\n--- stderr ---\n");
        }
        push_str(&mut result, stderr);
    }
    if !success {
        let c: i32 = match code {
            Some(c) => c,
            None => -1,
        };
        push_str(&mut result, "\n[exit code: ");
        if c < 0 {
            push_str(&mut result, "-");
            let mag: u64 = if c == i32::MIN { 2147483648u64 } else { (-c) as u64 };
            push_decimal(&mut result, mag);
        } else {
            push_decimal(&mut result, c as u64);
        }
        push_str(&mut result, "]");
    }
    result
}

/// The diagnostic lines of a compiler's error output: those mentioning an
/// error or a warning.
pub open spec fn diagnostic_lines(stderr: Seq<char>) -> Seq<Seq<char>> {
    str_lines(stderr).filter(|l: Seq<char>| contains(l, "error"@) || contains(l, "warning"@))
}

/// What the diagnostics tool reports: the diagnostic lines, or a note that
/// there are none.
pub open spec fn diagnostics_report(stderr: Seq<char>) -> Seq<char> {
    if diagnostic_lines(stderr).len() == 0 {
        "No errors or warnings"@
    } else {
        join(diagnostic_lines(stderr), "\n"@)
    }
}

fn mentions(line: &str, word: &str) -> (r: bool)
    ensures
        r == contains(line@, word@),
{
    let lc = chars_of(line);
    let wc = chars_of(word);
    find_exec(&lc, &wc, 0).is_some()
}

pub fn diagnostics_output(stderr: &str) -> (r: String)
    ensures
        r@ == diagnostics_report(stderr@),
{
    let all = lines_of(stderr);
    let ghost ls = all@.map_values(|l: String| l@);
    let ghost keep = |l: Seq<char>| contains(l, "error"@) || contains(l, "warning"@);
    let mut kept: Vec<String> = Vec::new();
    let mut i: usize = 0;
    while i < all.len()
        invariant
            i <= all.len(),
            ls == all@.map_values(|l: String| l@),
            ls == str_lines(stderr@),
            keep == (|l: Seq<char>| contains(l, "error"@) || contains(l, "warning"@)),
            texts(kept@) == ls.take(i as int).filter(keep),
        decreases all.len() - i,
    {
        let ok = mentions(all[i].as_str(), "error") || mentions(all[i].as_str(), "warning");
        proof {
            assert(ls.take(i + 1).drop_last() =~= ls.take(i as int));
            assert(ls.take(i + 1).last() == all@[i as int]@);
            reveal(Seq::filter);
        }
        if ok {
            kept.push(all[i].clone());
            assert(texts(kept@) =~= texts(kept@).drop_last().push(all@[i as int]@));
        }
        i = i + 1;
    }
    assert(ls.take(i as int) =~= ls);
    if kept.len() == 0 {
        String::from_str("No errors or warnings")
    } else {
        let mut out = String::new();
        push_join(&mut out, &kept, "\n");
        out
    }
}

} // verus!
