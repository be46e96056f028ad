//! The git tools: the `git` command lines they run. Their output is git's
//! own, reported as it is.
use vstd::prelude::*;
use crate::json::texts;
use crate::text::{decimal, push_decimal};

verus! {

broadcast use vstd::seq_lib::group_seq_properties;

/// Shows the working tree status.
pub struct GitStatus;

/// Shows a unified diff.
pub struct GitDiff;

/// Creates a commit.
pub struct GitCommit;

/// Shows the recent commit history.
pub struct GitLog;

/// Shows a commit's details.
pub struct GitShow;

impl GitStatus {
    pub fn name(&self) -> (r: &'static str) ensures r@ == "git_status"@, { "git_status" }
    pub fn description(&self) -> (r: &'static str) ensures r@ == "Show working tree status"@, { "Show working tree status" }
    pub fn parameters_schema(&self) -> (r: &'static str)
        ensures
            r@ == "{\"properties\":{},\"type\":\"object\"}"@,
    {
        "{\"properties\":{},\"type\":\"object\"}"
    }
}

impl GitDiff {
    pub fn name(&self) -> (r: &'static str) ensures r@ == "git_diff"@, { "git_diff" }
    pub fn description(&self) -> (r: &'static str) ensures r@ == "Show unified diff"@, { "Show unified diff" }
    pub fn parameters_schema(&self) -> (r: &'static str)
        ensures
            r@ == "{\"properties\":{\"path\":{\"type\":\"string\"},\"staged\":{\"type\":\"boolean\"}},\"type\":\"object\"}"@,
    {
        "{\"properties\":{\"path\":{\"type\":\"string\"},\"staged\":{\"type\":\"boolean\"}},\"type\":\"object\"}"
    }
}

impl GitCommit {
    pub fn name(&self) -> (r: &'static str) ensures r@ == "git_commit"@, { "git_commit" }
    pub fn description(&self) -> (r: &'static str) ensures r@ == "Create a commit"@, { "Create a commit" }
    pub fn parameters_schema(&self) -> (r: &'static str)
        ensures
            r@ == "{\"properties\":{\"files\":{\"items\":{\"type\":\"string\"},\"type\":\"array\"},\"message\":{\"type\":\"string\"}},\"required\":[\"message\"],\"type\":\"object\"}"@,
    {
        "{\"properties\":{\"files\":{\"items\":{\"type\":\"string\"},\"type\":\"array\"},\"message\":{\"type\":\"string\"}},\"required\":[\"message\"],\"type\":\"object\"}"
    }
}

impl GitLog {
    pub fn name(&self) -> (r: &'static str) ensures r@ == "git_log"@, { "git_log" }
    pub fn description(&self) -> (r: &'static str) ensures r@ == "Recent commit history"@, { "Recent commit history" }
    pub fn parameters_schema(&self) -> (r: &'static str)
        ensures
            r@ == "{\"properties\":{\"limit\":{\"type\":\"integer\"}},\"type\":\"object\"}"@,
    {
        "{\"properties\":{\"limit\":{\"type\":\"integer\"}},\"type\":\"object\"}"
    }
}

impl GitShow {
    pub fn name(&self) -> (r: &'static str) ensures r@ == "git_show"@, { "git_show" }
    pub fn description(&self) -> (r: &'static str) ensures r@ == "Show commit details"@, { "Show commit details" }
    pub fn parameters_schema(&self) -> (r: &'static str)
        ensures
            r@ == "{\"properties\":{\"ref\":{\"type\":\"string\"}},\"required\":[\"ref\"],\"type\":\"object\"}"@,
    {
        "{\"properties\":{\"ref\":{\"type\":\"string\"}},\"required\":[\"ref\"],\"type\":\"object\"}"
    }
}

/// How many commits the log shows when its arguments do not say.
pub fn default_limit() -> (r: u32)
    ensures
        r == 10,
{
    10
}

fn s(text: &str) -> (r: String)
    ensures
        r@ == text@,
{
    String::from_str(text)
}

/// `git status --porcelain`.
pub fn status_args() -> (r: Vec<String>)
    ensures
        texts(r@) == seq!["status"@, "--porcelain"@],
{
    let r = vec![s("status"), s("--porcelain")];
    assert(texts(r@) =~= seq!["status"@, "--porcelain"@]);
    r
}

pub open spec fn diff_command(staged: bool, path: Option<Seq<char>>) -> Seq<Seq<char>> {
    seq!["diff"@] + (if staged { seq!["--staged"@] } else { Seq::empty() })
        + match path { Some(p) => seq![p], None => Seq::empty() }
}

/// `git diff`, of the staged changes if asked, of one path if given.
pub fn diff_args(staged: bool, path: Option<&str>) -> (r: Vec<String>)
    ensures
        texts(r@) == diff_command(staged, match path { Some(p) => Some(p@), None => None }),
{
    let mut r = vec![s("diff")];
    if staged {
        r.push(s("--staged"));
    }
    if let Some(p) = path {
        r.push(s(p));
    }
    assert(texts(r@) =~= diff_command(staged, match path { Some(p) => Some(p@), None => None }));
    r
}

pub open spec fn add_command(files: Option<Seq<Seq<char>>>) -> Seq<Seq<char>> {
    match files {
        Some(f) => seq!["add"@] + f,
        None => seq!["add"@, "-A"@],
    }
}

/// `git add` of the given files, or of everything.
pub fn add_args(files: Option<&Vec<String>>) -> (r: Vec<String>)
    ensures
        texts(r@) == add_command(match files { Some(f) => Some(texts(f@)), None => None }),
{
    match files {
        Some(f) => {
            let mut r = vec![s("add")];
            let mut i: usize = 0;
            while i < f.len()
                invariant
                    i <= f.len(),
                    texts(r@) == seq!["add"@] + texts(f@).take(i as int),
                decreases f.len() - i,
            {
                let ghost before = r@;
                r.push(f[i].clone());
                assert(texts(r@) =~= texts(before).push(f@[i as int]@));
                assert(texts(f@).take(i + 1) =~= texts(f@).take(i as int).push(f@[i as int]@));
                assert(texts(r@) =~= seq!["add"@] + texts(f@).take(i + 1));
                i = i + 1;
            }
            assert(texts(f@).take(i as int) =~= texts(f@));
            r
        },
        None => {
            let r = vec![s("add"), s("-A")];
            assert(texts(r@) =~= seq!["add"@, "-A"@]);
            r
        },
    }
}

/// `git commit -m <message>`.
pub fn commit_args(message: &str) -> (r: Vec<String>)
    ensures
        texts(r@) == seq!["commit"@, "-m"@, message@],
{
    let r = vec![s("commit"), s("-m"), s(message)];
    assert(texts(r@) =~= seq!["commit"@, "-m"@, message@]);
    r
}

/// `git log --oneline -n <limit>`.
pub fn log_args(limit: u32) -> (r: Vec<String>)
    ensures
        texts(r@) == seq!["log"@, "--oneline"@, "-n"@, decimal(limit as nat)],
{
    let mut n = String::new();
    push_decimal(&mut n, limit as u64);
    let r = vec![s("log"), s("--oneline"), s("-n"), n];
    assert(texts(r@) =~= seq!["log"@, "--oneline"@, "-n"@, decimal(limit as nat)]);
    r
}

/// `git show <ref>`.
pub fn show_args(reference: &str) -> (r: Vec<String>)
    ensures
        texts(r@) == seq!["show"@, reference@],
{
    let r = vec![s("show"), s(reference)];
    assert(texts(r@) =~= seq!["show"@, reference@]);
    r
}

} // verus!
