//! Which tools may run and which paths are blocked, by the rules section.
//! Entries are shell-style glob patterns (`git_*`, `secrets/*`); a path is
//! also checked in canonical form, so `./secrets/x` and `src/../secrets/x`
//! are caught as `secrets/x` is.
use vstd::prelude::*;
use crate::rules::config::ChatApiConfig;
use crate::paths::{canonical_path, canonical_path_of};
use crate::text::{chars_of, find, find_exec, starts_with, string_of};

verus! {

broadcast use vstd::seq_lib::group_seq_properties;

/// Whether `text` matches the glob `pattern` under glob's default match
/// options; `None` when the pattern does not compile.
pub uninterp spec fn glob_match(pattern: Seq<char>, text: Seq<char>) -> Option<bool>;

/// A pattern with no glob metacharacter and no path separator: it stands for
/// itself alone.
pub open spec fn is_literal_pattern(p: Seq<char>) -> bool {
    forall|i: int| 0 <= i < p.len() ==> #[trigger] p[i] != '?' && p[i] != '*' && p[i] != '['
        && p[i] != '/' && p[i] != '\\'
}

/// Compiles `pattern` with `glob::Pattern::new` and matches `text` with
/// `Pattern::matches`. The contract claims that the result is `glob_match`
/// of the two, and, as glob's tokenizer and matcher show, that a pattern made
/// of plain characters compiles and matches exactly the text equal to it.
#[verifier::external_body]
fn glob_match_exec(pattern: &str, text: &str) -> (r: Option<bool>)
    ensures
        r == glob_match(pattern@, text@),
        is_literal_pattern(pattern@) ==> r == Some(pattern@ == text@),
{
    match glob::Pattern::new(pattern) {
        Ok(p) => Some(p.matches(text)),
        Err(_) => None,
    }
}

/// One allowed-tools entry admits a tool name: by glob, or by equality when
/// the entry is no valid glob.
pub open spec fn pattern_admits(pattern: Seq<char>, name: Seq<char>) -> bool {
    match glob_match(pattern, name) {
        Some(m) => m,
        None => pattern == name,
    }
}

pub open spec fn tool_allowed(allowed: Seq<Seq<char>>, name: Seq<char>) -> bool {
    allowed.len() == 0 || exists|i: int| 0 <= i < allowed.len() && pattern_admits(#[trigger] allowed[i], name)
}

pub open spec fn strings(v: Seq<String>) -> Seq<Seq<char>> {
    v.map_values(|s: String| s@)
}

/// Checks whether a tool is allowed by the rules: an empty list allows every
/// tool, else some entry must admit the name.
pub fn is_tool_allowed(tool_name: &str, config: &ChatApiConfig) -> (r: bool)
    ensures
        r == tool_allowed(strings(config.rules.allowed_tools@), tool_name@),
        config.rules.allowed_tools@.len() == 0 ==> r,
{
    let allowed = &config.rules.allowed_tools;
    if allowed.len() == 0 {
        return true;
    }
    let ghost ps = strings(allowed@);
    let name = String::from_str(tool_name);
    let mut i: usize = 0;
    while i < allowed.len()
        invariant
            ps == strings(allowed@),
            ps == strings(config.rules.allowed_tools@),
            name@ == tool_name@,
            i <= allowed.len(),
            forall|j: int| 0 <= j < i ==> !pattern_admits(#[trigger] ps[j], tool_name@),
        decreases allowed.len() - i,
    {
        let admits = match glob_match_exec(allowed[i].as_str(), tool_name) {
            Some(m) => m,
            None => allowed[i] == name,
        };
        if admits {
            assert(ps[i as int] == allowed@[i as int]@);
            assert(pattern_admits(ps[i as int], tool_name@));
            assert(0 <= i < ps.len());
            assert(tool_allowed(ps, tool_name@));
            return true;
        }
        i = i + 1;
    }
    false
}

/// The path with `\` turned into `/`.
pub open spec fn slash_normalized(path: Seq<char>) -> Seq<char> {
    path.map_values(|c: char| if c == '\\' { '/' } else { c })
}

/// The pattern with every `*` taken out.
pub open spec fn without_stars(pattern: Seq<char>) -> Seq<char> {
    pattern.filter(not_star())
}

pub open spec fn not_star() -> spec_fn(char) -> bool {
    |c: char| c != '*'
}

/// One blocked-paths entry blocks a path. The path is looked at as given,
/// with its slashes normalized, and in canonical form (`./` stripped, `..`
/// resolved, see `canonical_path`). A valid glob blocks each form it matches
/// and each of the normalized and canonical forms that starts with its
/// star-less text; an entry that is no valid glob blocks a path when some
/// form contains it.
pub open spec fn pattern_blocks(pattern: Seq<char>, path: Seq<char>) -> bool {
    let normalized = slash_normalized(path);
    let canonical = canonical_path(normalized);
    match glob_match(pattern, normalized) {
        Some(m) => m || glob_match(pattern, path) == Some(true) || glob_match(pattern, canonical) == Some(true)
            || starts_with(normalized, without_stars(pattern)) || starts_with(canonical, without_stars(pattern)),
        None => find(normalized, pattern) is Some || find(path, pattern) is Some || find(canonical, pattern) is Some,
    }
}

pub open spec fn path_blocked(blocked: Seq<Seq<char>>, path: Seq<char>) -> bool {
    exists|i: int| 0 <= i < blocked.len() && pattern_blocks(#[trigger] blocked[i], path)
}

fn slash_normalize_exec(path: &Vec<char>) -> (r: Vec<char>)
    ensures
        r@ == slash_normalized(path@),
{
    let mut out: Vec<char> = Vec::new();
    let mut i: usize = 0;
    while i < path.len()
        invariant
            i <= path.len(),
            out@ == slash_normalized(path@.take(i as int)),
        decreases path.len() - i,
    {
        let c = path[i];
        out.push(if c == '\\' { '/' } else { c });
        assert(path@.take(i + 1) =~= path@.take(i as int).push(c));
        i = i + 1;
    }
    assert(path@.take(i as int) =~= path@);
    out
}

fn without_stars_exec(pattern: &Vec<char>) -> (r: Vec<char>)
    ensures
        r@ == without_stars(pattern@),
{
    let mut out: Vec<char> = Vec::new();
    let mut i: usize = 0;
    while i < pattern.len()
        invariant
            i <= pattern.len(),
            out@ == without_stars(pattern@.take(i as int)),
        decreases pattern.len() - i,
    {
        let c = pattern[i];
        assert(pattern@.take(i + 1) =~= pattern@.take(i as int).push(c));
        proof {
            pattern@.take(i as int).lemma_filter_push(c, not_star());
        }
        if c != '*' {
            out.push(c);
        }
        i = i + 1;
    }
    assert(pattern@.take(i as int) =~= pattern@);
    out
}

fn starts_with_exec(s: &Vec<char>, p: &Vec<char>) -> (r: bool)
    ensures
        r == starts_with(s@, p@),
{
    if p.len() > s.len() {
        return false;
    }
    let mut k: usize = 0;
    while k < p.len()
        invariant
            p.len() <= s.len(),
            k <= p.len(),
            forall|j: int| 0 <= j < k ==> s@[j] == p@[j],
        decreases p.len() - k,
    {
        if s[k] != p[k] {
            assert(s@.subrange(0, p.len() as int)[k as int] != p@[k as int]);
            return false;
        }
        k = k + 1;
    }
    assert(s@.subrange(0, p.len() as int) =~= p@);
    true
}

fn pattern_blocks_exec(pattern: &str, path: &str) -> (r: bool)
    ensures
        r == pattern_blocks(pattern@, path@),
{
    let pat = chars_of(pattern);
    let raw = chars_of(path);
    let norm = slash_normalize_exec(&raw);
    let norm_s = string_of(&norm, 0, norm.len());
    assert(norm@.subrange(0, norm@.len() as int) =~= norm@);
    let canon = canonical_path_of(norm_s.as_str());
    let canon_cs = chars_of(canon.as_str());
    match glob_match_exec(pattern, norm_s.as_str()) {
        Some(m) => {
            if m {
                return true;
            }
            if glob_match_exec(pattern, path) == Some(true) {
                return true;
            }
            if glob_match_exec(pattern, canon.as_str()) == Some(true) {
                return true;
            }
            let stem = without_stars_exec(&pat);
            starts_with_exec(&norm, &stem) || starts_with_exec(&canon_cs, &stem)
        },
        None => {
            find_exec(&norm, &pat, 0).is_some() || find_exec(&raw, &pat, 0).is_some()
                || find_exec(&canon_cs, &pat, 0).is_some()
        },
    }
}

/// Checks whether a path is blocked by the rules: an empty list blocks
/// nothing, else some entry must block it.
pub fn is_path_blocked(path: &str, config: &ChatApiConfig) -> (r: bool)
    ensures
        r == path_blocked(strings(config.rules.blocked_paths@), path@),
        config.rules.blocked_paths@.len() == 0 ==> !r,
{
    let blocked = &config.rules.blocked_paths;
    let ghost ps = strings(blocked@);
    let mut i: usize = 0;
    while i < blocked.len()
        invariant
            ps == strings(blocked@),
            ps == strings(config.rules.blocked_paths@),
            i <= blocked.len(),
            forall|j: int| 0 <= j < i ==> !pattern_blocks(#[trigger] ps[j], path@),
        decreases blocked.len() - i,
    {
        if pattern_blocks_exec(blocked[i].as_str(), path) {
            assert(ps[i as int] == blocked@[i as int]@);
            assert(pattern_blocks(ps[i as int], path@));
            assert(0 <= i < ps.len());
            assert(path_blocked(ps, path@));
            return true;
        }
        i = i + 1;
    }
    false
}

/// A tool whose name is listed as a plain entry of the allowed tools is
/// allowed.
pub proof fn law_listed_tool_is_allowed(allowed: Seq<Seq<char>>, name: Seq<char>, i: int)
    requires
        0 <= i < allowed.len(),
        allowed[i] == name,
        is_literal_pattern(name),
        glob_match(name, name) == Some(true),
    ensures
        tool_allowed(allowed, name),
{
    assert(pattern_admits(allowed[i], name));
}

} // verus!
