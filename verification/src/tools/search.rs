//! `grep_code`: the lines of files that match a regular expression.
use vstd::prelude::*;
use crate::cdp::discovery::joined_path;
use crate::json::texts;
use crate::rules::prompt::{join, push_join};
use crate::text::{chars_of, contains, decimal, lines_of, push_decimal, push_str, str_lines, trim, trim_string};
use crate::traits::ToolError;

verus! {

broadcast use vstd::seq_lib::group_seq_properties;

#[verifier::external_type_specification]
#[verifier::external_body]
pub struct ExRegex(regex::Regex);

/// The message of the error `regex::Regex::new` gives for a pattern (`None`
/// when it compiles).
pub uninterp spec fn regex_compile_error(pattern: Seq<char>) -> Option<Seq<char>>;

/// Whether the regex compiled from a pattern matches somewhere in a text.
pub uninterp spec fn regex_matches(pattern: Seq<char>, text: Seq<char>) -> bool;

/// Calls `regex::Regex::new`. The contract claims that it fails exactly
/// when `regex_compile_error` names an error, with that error's message.
#[verifier::external_body]
fn compile_regex(pattern: &str) -> (r: Result<regex::Regex, String>)
    ensures
        r is Ok <==> regex_compile_error(pattern@) is None,
        r matches Err(e) ==> regex_compile_error(pattern@) == Some(e@),
{
    regex::Regex::new(pattern).map_err(|e| e.to_string())
}

/// A compiled regular expression with the pattern it was compiled from.
/// `LineMatcher::new` is the only way to build one, so the regex is always
/// the pattern's.
pub struct LineMatcher {
    pattern: String,
    re: regex::Regex,
}

impl LineMatcher {
    pub closed spec fn pattern(&self) -> Seq<char> {
        self.pattern@
    }

    /// Compiles a pattern; a pattern that does not compile is an invalid
    /// argument.
    pub fn new(pattern: &str) -> (r: Result<LineMatcher, ToolError>)
        ensures
            r matches Ok(m) ==> m.pattern() == pattern@ && regex_compile_error(pattern@) is None,
            r matches Err(e) ==> regex_compile_error(pattern@) matches Some(msg)
                && e matches ToolError::InvalidArgs(t) && t@ == "invalid regex: "@ + msg,
            r is Ok <==> regex_compile_error(pattern@) is None,
    {
        match compile_regex(pattern) {
            Ok(re) => Ok(LineMatcher { pattern: String::from_str(pattern), re }),
            Err(e) => {
                let mut m = String::from_str("invalid regex: ");
                push_str(&mut m, e.as_str());
                Err(ToolError::InvalidArgs(m))
            },
        }
    }

    /// Calls `regex::Regex::is_match` on the matcher's regex. The contract
    /// claims that the answer is `regex_matches` of the matcher's pattern.
    #[verifier::external_body]
    pub fn is_match(&self, text: &str) -> (r: bool)
        ensures
            r == regex_matches(self.pattern(), text@),
    {
        self.re.is_match(text)
    }
}

/// Searches file contents using a regex.
pub struct GrepCode;

impl GrepCode {
    pub fn name(&self) -> (r: &'static str) ensures r@ == "grep_code"@, { "grep_code" }
    pub fn description(&self) -> (r: &'static str) ensures r@ == "Search file contents using regex"@, { "Search file contents using regex" }
    pub fn parameters_schema(&self) -> (r: &'static str)
        ensures
            r@ == "{\"properties\":{\"glob\":{\"type\":\"string\"},\"path\":{\"type\":\"string\"},\"pattern\":{\"type\":\"string\"}},\"required\":[\"pattern\"],\"type\":\"object\"}"@,
    {
        "{\"properties\":{\"glob\":{\"type\":\"string\"},\"path\":{\"type\":\"string\"},\"pattern\":{\"type\":\"string\"}},\"required\":[\"pattern\"],\"type\":\"object\"}"
    }
}

/// The glob the search walks: the search directory (the working directory,
/// or a path under it) when it holds a `*` itself, else the directory and
/// the file glob (`**/*` unless given).
pub open spec fn search_glob(working_dir: Seq<char>, path: Option<Seq<char>>, glob: Option<Seq<char>>) -> Seq<char> {
    let dir = match path { Some(p) => joined_path(working_dir, p), None => working_dir };
    if contains(dir, "*"@) {
        dir
    } else {
        dir + "/"@ + match glob { Some(g) => g, None => "**/*"@ }
    }
}

pub fn grep_glob(working_dir: &str, path: Option<&str>, glob: Option<&str>) -> (r: String)
    ensures
        r@ == search_glob(working_dir@, match path { Some(p) => Some(p@), None => None },
            match glob { Some(g) => Some(g@), None => None }),
{
    let dir = match path {
        Some(p) => crate::cdp::discovery::join_paths(working_dir, p),
        None => String::from_str(working_dir),
    };
    let dc = chars_of(dir.as_str());
    let star = vec!['*'];
    proof {
        reveal_strlit("*");
    }
    assert(star@ =~= "*"@);
    if crate::text::find_exec(&dc, &star, 0).is_some() {
        return dir;
    }
    let mut out = dir;
    push_str(&mut out, "/");
    match glob {
        Some(g) => push_str(&mut out, g),
        None => push_str(&mut out, "**/*"),
    }
    out
}

/// One reported match: the file, the line's number and the trimmed line.
pub open spec fn hit_line(rel: Seq<char>, number: nat, line: Seq<char>) -> Seq<char> {
    rel + ":"@ + decimal(number) + ": "@ + trim(line)
}

/// The matches among `lines` (numbered from 1) that the pattern matches.
pub open spec fn grep_hits(pattern: Seq<char>, rel: Seq<char>, lines: Seq<Seq<char>>) -> Seq<Seq<char>>
    decreases lines.len(),
{
    if lines.len() == 0 {
        Seq::empty()
    } else {
        grep_hits(pattern, rel, lines.drop_last()) + if regex_matches(pattern, lines.last()) {
            seq![hit_line(rel, lines.len(), lines.last())]
        } else {
            Seq::empty()
        }
    }
}

/// Adds the matches of one file's contents (`rel` names the file).
pub fn grep_content(matcher: &LineMatcher, rel: &str, content: &str, matches: &mut Vec<String>)
    ensures
        texts(final(matches)@) == texts(old(matches)@) + grep_hits(matcher.pattern(), rel@, str_lines(content@)),
{
    let lines = lines_of(content);
    let ghost ls = lines@.map_values(|l: String| l@);
    let ghost start = texts(matches@);
    let mut i: usize = 0;
    while i < lines.len()
        invariant
            i <= lines.len(),
            ls == lines@.map_values(|l: String| l@),
            texts(matches@) == start + grep_hits(matcher.pattern(), rel@, ls.take(i as int)),
        decreases lines.len() - i,
    {
        assert(ls.take(i + 1).drop_last() =~= ls.take(i as int));
        assert(ls.take(i + 1).last() == lines@[i as int]@);
        if matcher.is_match(lines[i].as_str()) {
            let mut hit = String::new();
            push_str(&mut hit, rel);
            push_str(&mut hit, ":");
            push_decimal(&mut hit, (i + 1) as u64);
            push_str(&mut hit, ": ");
            let lc = chars_of(lines[i].as_str());
            let t = trim_string(&lc, 0, lc.len());
            assert(lc@.subrange(0, lc@.len() as int) =~= lc@);
            push_str(&mut hit, t.as_str());
            let ghost before = texts(matches@);
            matches.push(hit);
            assert(texts(matches@) =~= before.push(hit_line(rel@, (i + 1) as nat, lines@[i as int]@)));
        }
        i = i + 1;
    }
    assert(ls.take(i as int) =~= ls);
}

/// The search stops once it holds more than 500 matches.
pub fn grep_full(count: usize) -> (r: bool)
    ensures
        r == (count > 500),
{
    count > 500
}

/// What the search reports: the matches, one per line, or a note that there
/// are none.
pub fn grep_report(matches: &Vec<String>) -> (r: String)
    ensures
        r@ == if matches@.len() == 0 { "No matches found"@ } else { join(texts(matches@), "\n"@) },
{
    if matches.len() == 0 {
        String::from_str("No matches found")
    } else {
        let mut out = String::new();
        push_join(&mut out, matches, "\n");
        out
    }
}

} // verus!
