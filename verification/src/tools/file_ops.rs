//! The file tools: reading, writing and editing files, listing directories,
//! and planning a unified diff's application.
use vstd::prelude::*;
use crate::json::texts;
use crate::rules::prompt::{byte_len, join, push_join};
use crate::text::{
    chars_of, contains, decimal, find_exec, lines_of, occurs_at, occurs_at_exec, push_decimal, push_str,
    replace_all, replace_text, starts_with, str_lines, string_of,
};
use crate::traits::{tool_error_text, ToolError, ToolResult};

verus! {

broadcast use vstd::seq_lib::group_seq_properties;

/// Reads file contents.
pub struct ReadFile;

/// Writes or creates a file.
pub struct WriteFile;

/// Edits a file by replacing old text with new text.
pub struct EditFile;

/// Lists directory contents.
pub struct ListDir;

/// Applies a unified diff with conflict detection.
pub struct ApplyPatch;

impl ReadFile {
    pub fn name(&self) -> (r: &'static str) ensures r@ == "read_file"@, { "read_file" }
    pub fn description(&self) -> (r: &'static str) ensures r@ == "Read file contents"@, { "Read file contents" }
    pub fn parameters_schema(&self) -> (r: &'static str)
        ensures
            r@ == "{\"properties\":{\"path\":{\"type\":\"string\"}},\"required\":[\"path\"],\"type\":\"object\"}"@,
    {
        "{\"properties\":{\"path\":{\"type\":\"string\"}},\"required\":[\"path\"],\"type\":\"object\"}"
    }
}

impl WriteFile {
    pub fn name(&self) -> (r: &'static str) ensures r@ == "write_file"@, { "write_file" }
    pub fn description(&self) -> (r: &'static str) ensures r@ == "Write or create a file"@, { "Write or create a file" }
    pub fn parameters_schema(&self) -> (r: &'static str)
        ensures
            r@ == "{\"properties\":{\"content\":{\"type\":\"string\"},\"path\":{\"type\":\"string\"}},\"required\":[\"path\",\"content\"],\"type\":\"object\"}"@,
    {
        "{\"properties\":{\"content\":{\"type\":\"string\"},\"path\":{\"type\":\"string\"}},\"required\":[\"path\",\"content\"],\"type\":\"object\"}"
    }
}

impl EditFile {
    pub fn name(&self) -> (r: &'static str) ensures r@ == "edit_file"@, { "edit_file" }
    pub fn description(&self) -> (r: &'static str) ensures r@ == "Edit file by replacing old_text with new_text"@, { "Edit file by replacing old_text with new_text" }
    pub fn parameters_schema(&self) -> (r: &'static str)
        ensures
            r@ == "{\"properties\":{\"new_text\":{\"type\":\"string\"},\"old_text\":{\"type\":\"string\"},\"path\":{\"type\":\"string\"}},\"required\":[\"path\",\"old_text\",\"new_text\"],\"type\":\"object\"}"@,
    {
        "{\"properties\":{\"new_text\":{\"type\":\"string\"},\"old_text\":{\"type\":\"string\"},\"path\":{\"type\":\"string\"}},\"required\":[\"path\",\"old_text\",\"new_text\"],\"type\":\"object\"}"
    }
}

impl ListDir {
    pub fn name(&self) -> (r: &'static str) ensures r@ == "list_dir"@, { "list_dir" }
    pub fn description(&self) -> (r: &'static str) ensures r@ == "List directory contents"@, { "List directory contents" }
    pub fn parameters_schema(&self) -> (r: &'static str)
        ensures
            r@ == "{\"properties\":{\"path\":{\"type\":\"string\"},\"recursive\":{\"type\":\"boolean\"}},\"required\":[\"path\"],\"type\":\"object\"}"@,
    {
        "{\"properties\":{\"path\":{\"type\":\"string\"},\"recursive\":{\"type\":\"boolean\"}},\"required\":[\"path\"],\"type\":\"object\"}"
    }
}

impl ApplyPatch {
    pub fn name(&self) -> (r: &'static str) ensures r@ == "apply_patch"@, { "apply_patch" }
    pub fn description(&self) -> (r: &'static str) ensures r@ == "Apply unified diff with conflict detection"@, { "Apply unified diff with conflict detection" }
    pub fn parameters_schema(&self) -> (r: &'static str)
        ensures
            r@ == "{\"properties\":{\"diff\":{\"type\":\"string\"}},\"required\":[\"diff\"],\"type\":\"object\"}"@,
    {
        "{\"properties\":{\"diff\":{\"type\":\"string\"}},\"required\":[\"diff\"],\"type\":\"object\"}"
    }
}

// ── write_file and edit_file ───────────────────────────────────────────

/// What writing a file reports: the content's size in bytes and the path.
pub fn write_report(content: &str, path: &str) -> (r: String)
    requires
        byte_len(content@) <= usize::MAX,
    ensures
        r@ == "Wrote "@ + decimal(byte_len(content@) as nat) + " bytes to "@ + path@,
{
    let mut out = String::from_str("Wrote ");
    push_decimal(&mut out, content.len() as u64);
    push_str(&mut out, " bytes to ");
    push_str(&mut out, path);
    out
}

/// An edit of a file's content: every occurrence of `old_text` replaced by
/// `new_text`, reported as a diff; content without `old_text` cannot be
/// edited.
pub fn edit_content(path: &str, content: String, old_text: &str, new_text: &str) -> (r: Result<ToolResult, ToolError>)
    ensures
        !contains(content@, old_text@) ==> (r matches Err(ToolError::ExecutionFailed(m))
            && m@ == "old_text not found in "@ + path@),
        contains(content@, old_text@) ==> (r matches Ok(ToolResult::Diff { old, new, path: p })
            && old == content && new@ == replace_all(content@, old_text@, new_text@) && p@ == path@),
{
    let cs = chars_of(content.as_str());
    let oc = chars_of(old_text);
    if find_exec(&cs, &oc, 0).is_none() {
        let mut m = String::from_str("old_text not found in ");
        push_str(&mut m, path);
        return Err(ToolError::ExecutionFailed(m));
    }
    let new_content = replace_text(content.as_str(), old_text, new_text);
    Ok(ToolResult::Diff { old: content, new: new_content, path: String::from_str(path) })
}

// ── list_dir ───────────────────────────────────────────────────────────

/// One line of a listing: indented two spaces per level, a directory's name
/// followed by `/`.
pub open spec fn entry_text(name: Seq<char>, is_dir: bool, depth: nat) -> Seq<char>
    decreases depth,
{
    if depth == 0 {
        name + if is_dir { "/"@ } else { Seq::empty() }
    } else {
        "  "@ + entry_text(name, is_dir, (depth - 1) as nat)
    }
}

pub fn entry_line(name: &str, is_dir: bool, depth: usize) -> (r: String)
    ensures
        r@ == entry_text(name@, is_dir, depth as nat),
{
    let mut out = String::new();
    let mut k: usize = 0;
    while k < depth
        invariant
            k <= depth,
            out@.len() == 2 * k,
            forall|j: int| 0 <= j < out@.len() ==> out@[j] == ' ',
        decreases depth - k,
    {
        push_str(&mut out, "  ");
        proof {
            reveal_strlit("  ");
        }
        k = k + 1;
    }
    let ghost indent = out@;
    push_str(&mut out, name);
    if is_dir {
        push_str(&mut out, "/");
    }
    proof {
        lemma_entry_text(name@, is_dir, depth as nat, indent);
        if !is_dir {
            assert(out@ =~= indent + name@ + Seq::<char>::empty());
        }
    }
    out
}

proof fn lemma_entry_text(name: Seq<char>, is_dir: bool, depth: nat, indent: Seq<char>)
    requires
        indent.len() == 2 * depth,
        forall|j: int| 0 <= j < indent.len() ==> indent[j] == ' ',
    ensures
        entry_text(name, is_dir, depth) == indent + name + if is_dir { "/"@ } else { Seq::empty() },
    decreases depth,
{
    reveal_strlit("  ");
    if depth == 0 {
        assert(indent =~= Seq::<char>::empty());
        assert(entry_text(name, is_dir, depth) =~= indent + name + if is_dir { "/"@ } else { Seq::<char>::empty() });
    } else {
        lemma_entry_text(name, is_dir, (depth - 1) as nat, indent.skip(2));
        assert(indent =~= "  "@ + indent.skip(2));
        assert(entry_text(name, is_dir, depth) =~= indent + name + if is_dir { "/"@ } else { Seq::<char>::empty() });
    }
}

/// Names compared character by character (code point order, which is the
/// byte order of their UTF-8 that `String`'s `Ord` compares).
pub open spec fn chars_lt(a: Seq<char>, b: Seq<char>) -> bool
    decreases a.len(),
{
    if a.len() == 0 {
        b.len() > 0
    } else if b.len() == 0 {
        false
    } else if a[0] != b[0] {
        a[0] < b[0]
    } else {
        chars_lt(a.drop_first(), b.drop_first())
    }
}

/// The order of (name, is-directory) pairs: by name, then files first.
pub open spec fn entry_lt(a: (Seq<char>, bool), b: (Seq<char>, bool)) -> bool {
    chars_lt(a.0, b.0) || (a.0 == b.0 && !a.1 && b.1)
}

pub open spec fn entries_view(v: Seq<(String, bool)>) -> Seq<(Seq<char>, bool)> {
    v.map_values(|e: (String, bool)| (e.0@, e.1))
}

pub open spec fn entries_sorted(v: Seq<(Seq<char>, bool)>) -> bool {
    forall|i: int, j: int| 0 <= i < j < v.len() ==> !entry_lt(v[j], v[i])
}

proof fn lemma_chars_irrefl(a: Seq<char>)
    ensures
        !chars_lt(a, a),
    decreases a.len(),
{
    if a.len() > 0 {
        lemma_chars_irrefl(a.drop_first());
    }
}

proof fn lemma_chars_asym(a: Seq<char>, b: Seq<char>)
    ensures
        chars_lt(a, b) ==> !chars_lt(b, a),
    decreases a.len(),
{
    if a.len() > 0 && b.len() > 0 && a[0] == b[0] {
        lemma_chars_asym(a.drop_first(), b.drop_first());
    }
}

proof fn lemma_chars_total(a: Seq<char>, b: Seq<char>)
    ensures
        a != b ==> chars_lt(a, b) || chars_lt(b, a),
    decreases a.len(),
{
    if a.len() > 0 && b.len() > 0 && a[0] == b[0] {
        lemma_chars_total(a.drop_first(), b.drop_first());
        if a.drop_first() == b.drop_first() {
            assert(a =~= seq![a[0]] + a.drop_first());
            assert(b =~= seq![b[0]] + b.drop_first());
        }
    }
    if a.len() == 0 && b.len() == 0 {
        assert(a =~= b);
    }
}

proof fn lemma_chars_trans(a: Seq<char>, b: Seq<char>, c: Seq<char>)
    ensures
        chars_lt(a, b) && chars_lt(b, c) ==> chars_lt(a, c),
    decreases a.len(),
{
    if a.len() > 0 && b.len() > 0 && c.len() > 0 {
        lemma_chars_trans(a.drop_first(), b.drop_first(), c.drop_first());
    }
}

pub proof fn lemma_chars_lt(a: Seq<char>, b: Seq<char>, c: Seq<char>)
    ensures
        !chars_lt(a, a),
        chars_lt(a, b) ==> !chars_lt(b, a),
        a != b ==> chars_lt(a, b) || chars_lt(b, a),
        chars_lt(a, b) && chars_lt(b, c) ==> chars_lt(a, c),
{
    lemma_chars_irrefl(a);
    lemma_chars_asym(a, b);
    lemma_chars_total(a, b);
    lemma_chars_trans(a, b, c);
}

proof fn lemma_entry_lt(a: (Seq<char>, bool), b: (Seq<char>, bool), c: (Seq<char>, bool))
    ensures
        !entry_lt(a, a),
        a != b ==> entry_lt(a, b) || entry_lt(b, a),
        entry_lt(a, b) && entry_lt(b, c) ==> entry_lt(a, c),
        entry_lt(a, b) && !entry_lt(c, b) ==> entry_lt(a, c),
{
    lemma_chars_lt(a.0, b.0, c.0);
    lemma_chars_lt(b.0, a.0, c.0);
    lemma_chars_lt(a.0, c.0, b.0);
    lemma_chars_lt(c.0, b.0, a.0);
    lemma_chars_lt(b.0, c.0, a.0);
    lemma_chars_lt(c.0, a.0, b.0);
}

fn name_lt(a: &String, b: &String) -> (r: bool)
    ensures
        r == chars_lt(a@, b@),
{
    let ac = chars_of(a.as_str());
    let bc = chars_of(b.as_str());
    let mut k: usize = 0;
    while k < ac.len() && k < bc.len() && ac[k] == bc[k]
        invariant
            k <= ac.len(),
            k <= bc.len(),
            chars_lt(a@, b@) == chars_lt(ac@.skip(k as int), bc@.skip(k as int)),
            ac@ == a@,
            bc@ == b@,
        decreases ac.len() - k,
    {
        assert(ac@.skip(k as int).drop_first() =~= ac@.skip(k + 1));
        assert(bc@.skip(k as int).drop_first() =~= bc@.skip(k + 1));
        k = k + 1;
    }
    if k == ac.len() {
        k < bc.len()
    } else if k == bc.len() {
        false
    } else {
        ac[k] < bc[k]
    }
}

fn entry_less(a: &(String, bool), b: &(String, bool)) -> (r: bool)
    ensures
        r == entry_lt((a.0@, a.1), (b.0@, b.1)),
{
    if name_lt(&a.0, &b.0) {
        return true;
    }
    a.0 == b.0 && !a.1 && b.1
}

/// A directory's entries in order: by name, files before directories of
/// the same name (the order of `(String, bool)` pairs).
pub fn sort_entries(items: &Vec<(String, bool)>) -> (r: Vec<(String, bool)>)
    ensures
        entries_sorted(entries_view(r@)),
        entries_view(r@).to_multiset() == entries_view(items@).to_multiset(),
{
    broadcast use vstd::seq_lib::group_to_multiset_ensures;
    let mut out: Vec<(String, bool)> = Vec::new();
    let ghost iv = entries_view(items@);
    let mut i: usize = 0;
    assert(iv.take(0) =~= Seq::<(Seq<char>, bool)>::empty());
    assert(entries_view(out@) =~= Seq::<(Seq<char>, bool)>::empty());
    while i < items.len()
        invariant
            i <= items.len(),
            iv == entries_view(items@),
            entries_sorted(entries_view(out@)),
            entries_view(out@).to_multiset() == iv.take(i as int).to_multiset(),
        decreases items.len() - i,
    {
        let x = (items[i].0.clone(), items[i].1);
        let ghost xv = (x.0@, x.1);
        assert(xv == iv[i as int]);
        let mut p: usize = 0;
        while p < out.len() && !entry_less(&x, &out[p])
            invariant
                p <= out.len(),
                xv == (x.0@, x.1),
                forall|j: int| 0 <= j < p ==> !entry_lt(xv, #[trigger] entries_view(out@)[j]),
            decreases out.len() - p,
        {
            p = p + 1;
        }
        let ghost ov = entries_view(out@);
        out.insert(p, x);
        proof {
            let nv = entries_view(out@);
            assert(nv =~= ov.insert(p as int, xv));
            assert forall|a: int, b: int| 0 <= a < b < nv.len() implies !entry_lt(nv[b], nv[a]) by {
                if a < p && b < p {
                    assert(nv[a] == ov[a] && nv[b] == ov[b]);
                } else if a < p && b == p {
                    assert(nv[a] == ov[a] && nv[b] == xv);
                    assert(!entry_lt(xv, entries_view(out@)[a]) || true);
                    lemma_entry_lt(xv, ov[a], ov[a]);
                    lemma_entry_lt(ov[a], xv, xv);
                } else if a < p && b > p {
                    assert(nv[b] == ov[b - 1]);
                } else if a == p {
                    assert(nv[a] == xv && nv[b] == ov[b - 1]);
                    assert(entry_lt(xv, ov[p as int]));
                    lemma_entry_lt(ov[b - 1], xv, ov[p as int]);
                    lemma_entry_lt(ov[p as int], ov[p as int], ov[p as int]);
                } else {
                    assert(nv[a] == ov[a - 1] && nv[b] == ov[b - 1]);
                }
            }
            assert(nv.remove(p as int) =~= ov);
            assert(iv.take(i + 1) =~= iv.take(i as int).push(xv));
            assert(nv.to_multiset().remove(xv) =~= ov.to_multiset());
            assert(nv.to_multiset().count(xv) > 0) by {
                assert(nv[p as int] == xv);
            }
            assert(nv.to_multiset() =~= ov.to_multiset().insert(xv));
        }
        i = i + 1;
    }
    assert(iv.take(i as int) =~= iv);
    out
}

// ── apply_patch ────────────────────────────────────────────────────────

/// Where a diff's reading stands: the file being patched, its hunk lines so
/// far, and the files already planned with their hunks.
pub struct PatchState {
    pub current: Option<Seq<char>>,
    pub hunks: Seq<Seq<char>>,
    pub plan: Seq<(Seq<char>, Seq<Seq<char>>)>,
}

pub open spec fn flush_plan(st: PatchState) -> Seq<(Seq<char>, Seq<Seq<char>>)> {
    if st.current is Some && st.hunks.len() > 0 { st.plan.push((st.current->Some_0, st.hunks)) } else { st.plan }
}

/// One line of a diff read: `--- ` headers are passed over; a `+++ ` header
/// (its `b/` taken off) names the next file, the hunks read so far going to
/// the file before; `@@ ` opens a hunk; a `diff` line closes the file; a
/// line starting with a space, `+` or `-` belongs to the current hunk.
pub open spec fn patch_step(st: PatchState, line: Seq<char>) -> PatchState {
    if starts_with(line, "--- "@) {
        st
    } else if starts_with(line, "+++ "@) {
        let flushed = st.current is Some && st.hunks.len() > 0;
        PatchState {
            current: Some(if starts_with(line, "+++ b/"@) { line.skip(6) } else { line.skip(4) }),
            hunks: if flushed { Seq::empty() } else { st.hunks },
            plan: flush_plan(st),
        }
    } else if starts_with(line, "@@ "@) {
        PatchState { hunks: st.hunks.push(line), ..st }
    } else if starts_with(line, "diff --git"@) || starts_with(line, "diff "@) {
        let flushed = st.current is Some && st.hunks.len() > 0;
        PatchState {
            current: None,
            hunks: if flushed { Seq::empty() } else { st.hunks },
            plan: flush_plan(st),
        }
    } else if line.len() > 0 && (line[0] == ' ' || line[0] == '+' || line[0] == '-') {
        PatchState { hunks: st.hunks.push(line), ..st }
    } else {
        st
    }
}

pub open spec fn patch_fold(lines: Seq<Seq<char>>) -> PatchState
    decreases lines.len(),
{
    if lines.len() == 0 {
        PatchState { current: None, hunks: Seq::empty(), plan: Seq::empty() }
    } else {
        patch_step(patch_fold(lines.drop_last()), lines.last())
    }
}

/// The files a unified diff patches, in order, each with its hunk lines.
pub open spec fn patch_files(diff: Seq<char>) -> Seq<(Seq<char>, Seq<Seq<char>>)> {
    flush_plan(patch_fold(str_lines(diff)))
}

pub open spec fn plan_view(v: Seq<(String, Vec<String>)>) -> Seq<(Seq<char>, Seq<Seq<char>>)> {
    v.map_values(|e: (String, Vec<String>)| (e.0@, texts(e.1@)))
}

fn has_prefix(cs: &Vec<char>, p: &str) -> (r: bool)
    ensures
        r == starts_with(cs@, p@),
{
    let pc = chars_of(p);
    let r = occurs_at_exec(cs, &pc, 0);
    proof {
        if r {
            assert(starts_with(cs@, p@));
        } else {
            assert(!starts_with(cs@, p@));
        }
    }
    r
}

/// Reads a unified diff into the files it patches, each with its hunk lines.
pub fn patch_plan(diff: &str) -> (r: Vec<(String, Vec<String>)>)
    ensures
        plan_view(r@) == patch_files(diff@),
{
    let lines = lines_of(diff);
    let ghost ls = lines@.map_values(|l: String| l@);
    let mut current: Option<String> = None;
    let mut hunks: Vec<String> = Vec::new();
    let mut plan: Vec<(String, Vec<String>)> = Vec::new();
    let mut i: usize = 0;
    assert(ls.take(0) =~= Seq::<Seq<char>>::empty());
    assert(texts(hunks@) =~= Seq::<Seq<char>>::empty());
    assert(plan_view(plan@) =~= Seq::<(Seq<char>, Seq<Seq<char>>)>::empty());
    proof {
        reveal_strlit("+++ ");
    }
    while i < lines.len()
        invariant
            i <= lines.len(),
            ls == lines@.map_values(|l: String| l@),
            ls == str_lines(diff@),
            patch_fold(ls.take(i as int)) == (PatchState {
                current: match current { Some(c) => Some(c@), None => None },
                hunks: texts(hunks@),
                plan: plan_view(plan@),
            }),
        decreases lines.len() - i,
    {
        assert(ls.take(i + 1).drop_last() =~= ls.take(i as int));
        assert(ls.take(i + 1).last() == lines@[i as int]@);
        let line = &lines[i];
        let cs = chars_of(line.as_str());
        let ghost hv = texts(hunks@);
        if has_prefix(&cs, "--- ") {
        } else if has_prefix(&cs, "+++ ") {
            proof {
                reveal_strlit("+++ ");
                reveal_strlit("+++ b/");
            }
            if current.is_some() && hunks.len() > 0 {
                let ghost pv = plan_view(plan@);
                let file = current.unwrap();
                let taken = hunks;
                hunks = Vec::new();
                plan.push((file, taken));
                assert(plan_view(plan@) =~= pv.push((file@, hv)));
                assert(texts(hunks@) =~= Seq::<Seq<char>>::empty());
            }
            if has_prefix(&cs, "+++ b/") {
                current = Some(string_of(&cs, 6, cs.len()));
                assert(cs@.subrange(6, cs.len() as int) =~= line@.skip(6));
            } else {
                current = Some(string_of(&cs, 4, cs.len()));
                assert(cs@.subrange(4, cs.len() as int) =~= line@.skip(4));
            }
        } else if has_prefix(&cs, "@@ ") {
            hunks.push(line.clone());
            assert(texts(hunks@) =~= hv.push(line@));
        } else if has_prefix(&cs, "diff --git") || has_prefix(&cs, "diff ") {
            if current.is_some() && hunks.len() > 0 {
                let ghost pv = plan_view(plan@);
                let file = current.unwrap();
                let taken = hunks;
                hunks = Vec::new();
                plan.push((file, taken));
                assert(plan_view(plan@) =~= pv.push((file@, hv)));
                assert(texts(hunks@) =~= Seq::<Seq<char>>::empty());
            }
            current = None;
        } else if cs.len() > 0 && (cs[0] == ' ' || cs[0] == '+' || cs[0] == '-') {
            hunks.push(line.clone());
            assert(texts(hunks@) =~= hv.push(line@));
        }
        i = i + 1;
    }
    assert(ls.take(i as int) =~= ls);
    if current.is_some() && hunks.len() > 0 {
        let ghost pv = plan_view(plan@);
        let ghost hv = texts(hunks@);
        let file = current.unwrap();
        plan.push((file, hunks));
        assert(plan_view(plan@) =~= pv.push((file@, hv)));
    }
    plan
}

// ── Applying a file's hunks ────────────────────────────────────────────

/// A hunk line's text, ending in a newline.
pub open spec fn line_body(l: Seq<char>) -> Seq<char> {
    l.skip(1) + seq!['\n']
}

/// One hunk line read into the hunks so far, each a pair of the text it
/// expects (context and `-` lines) and the text it leaves (context and `+`
/// lines): `@@ ` opens a new hunk, and a body line before any header opens
/// the first.
pub open spec fn hunk_step(acc: Seq<(Seq<char>, Seq<char>)>, l: Seq<char>) -> Seq<(Seq<char>, Seq<char>)> {
    if starts_with(l, "@@ "@) {
        acc.push((Seq::empty(), Seq::empty()))
    } else if l.len() > 0 && (l[0] == ' ' || l[0] == '-' || l[0] == '+') {
        let cur: (Seq<char>, Seq<char>) = if acc.len() == 0 { (Seq::empty(), Seq::empty()) } else { acc.last() };
        let base = if acc.len() == 0 { acc } else { acc.drop_last() };
        let b = line_body(l);
        base.push(if l[0] == ' ' {
            (cur.0 + b, cur.1 + b)
        } else if l[0] == '-' {
            (cur.0 + b, cur.1)
        } else {
            (cur.0, cur.1 + b)
        })
    } else {
        acc
    }
}

/// A file's hunk lines as (expected text, replacement text) pairs, in order.
pub open spec fn hunk_blocks(lines: Seq<Seq<char>>) -> Seq<(Seq<char>, Seq<char>)>
    decreases lines.len(),
{
    if lines.len() == 0 {
        Seq::empty()
    } else {
        hunk_step(hunk_blocks(lines.drop_last()), lines.last())
    }
}

/// The first position at or after `from` where `p` occurs in `s` at the
/// start of a line.
pub open spec fn find_line(s: Seq<char>, p: Seq<char>, from: int) -> Option<int>
    decreases s.len() + 1 - from,
{
    if from < 0 || from + p.len() > s.len() {
        None
    } else if occurs_at(s, p, from) && (from == 0 || s[from - 1] == '\n') {
        Some(from)
    } else {
        find_line(s, p, from + 1)
    }
}

/// `s` with its `len` characters at `at` replaced by `r`.
pub open spec fn splice(s: Seq<char>, at: int, len: int, r: Seq<char>) -> Seq<char> {
    s.take(at) + r + s.skip(at + len)
}

/// Applies the hunks from the `j`-th on, each at the first line start at or
/// after `pos` where its expected text stands, the next searched from the
/// end of its replacement; or the index of the first hunk whose expected
/// text is found nowhere: a conflict.
pub open spec fn apply_blocks(s: Seq<char>, blocks: Seq<(Seq<char>, Seq<char>)>, j: int, pos: int) -> Result<Seq<char>, int>
    decreases blocks.len() - j,
{
    if j < 0 || j >= blocks.len() {
        Ok(s)
    } else {
        match find_line(s, blocks[j].0, pos) {
            None => Err(j),
            Some(i) => apply_blocks(
                splice(s, i, blocks[j].0.len() as int, blocks[j].1),
                blocks,
                j + 1,
                i + blocks[j].1.len(),
            ),
        }
    }
}

/// A file's content with its hunks applied, or the first conflicting hunk.
pub open spec fn patched(content: Seq<char>, hunks: Seq<Seq<char>>) -> Result<Seq<char>, int> {
    apply_blocks(content, hunk_blocks(hunks), 0, 0)
}

pub open spec fn blocks_view(v: Seq<(Vec<char>, Vec<char>)>) -> Seq<(Seq<char>, Seq<char>)> {
    v.map_values(|b: (Vec<char>, Vec<char>)| (b.0@, b.1@))
}

fn line_body_exec(l: &Vec<char>) -> (r: Vec<char>)
    requires
        l.len() > 0,
    ensures
        r@ == line_body(l@),
{
    let mut out: Vec<char> = Vec::new();
    let mut i: usize = 1;
    while i < l.len()
        invariant
            1 <= i <= l.len(),
            out@ == l@.subrange(1, i as int),
        decreases l.len() - i,
    {
        out.push(l[i]);
        assert(l@.subrange(1, i + 1) =~= l@.subrange(1, i as int).push(l@[i as int]));
        i = i + 1;
    }
    out.push('\n');
    assert(out@ =~= line_body(l@));
    out
}

fn append_chars(a: &Vec<char>, b: &Vec<char>) -> (r: Vec<char>)
    ensures
        r@ == a@ + b@,
{
    let mut out = a.clone();
    let mut i: usize = 0;
    while i < b.len()
        invariant
            i <= b.len(),
            out@ == a@ + b@.take(i as int),
        decreases b.len() - i,
    {
        out.push(b[i]);
        assert(b@.take(i + 1) =~= b@.take(i as int).push(b@[i as int]));
        i = i + 1;
    }
    assert(b@.take(i as int) =~= b@);
    out
}

fn hunk_blocks_of(hunks: &Vec<String>) -> (r: Vec<(Vec<char>, Vec<char>)>)
    ensures
        blocks_view(r@) == hunk_blocks(texts(hunks@)),
{
    proof {
        reveal_strlit("@@ ");
    }
    let ghost hv = texts(hunks@);
    let mut out: Vec<(Vec<char>, Vec<char>)> = Vec::new();
    let mut i: usize = 0;
    assert(hv.take(0) =~= Seq::<Seq<char>>::empty());
    assert(blocks_view(out@) =~= Seq::<(Seq<char>, Seq<char>)>::empty());
    while i < hunks.len()
        invariant
            i <= hunks.len(),
            hv == texts(hunks@),
            blocks_view(out@) == hunk_blocks(hv.take(i as int)),
        decreases hunks.len() - i,
    {
        let ghost acc = blocks_view(out@);
        assert(hv.take(i + 1).drop_last() =~= hv.take(i as int));
        assert(hv.take(i + 1).last() == hunks@[i as int]@);
        let l = chars_of(hunks[i].as_str());
        assert(hunk_blocks(hv.take(i + 1)) == hunk_step(acc, l@));
        if has_prefix(&l, "@@ ") {
            out.push((Vec::new(), Vec::new()));
            assert(blocks_view(out@) =~= acc.push((Seq::<char>::empty(), Seq::<char>::empty())));
        } else if l.len() > 0 && (l[0] == ' ' || l[0] == '-' || l[0] == '+') {
            let b = line_body_exec(&l);
            let cur: (Vec<char>, Vec<char>) = if out.len() == 0 {
                (Vec::new(), Vec::new())
            } else {
                let c = out.pop().unwrap();
                c
            };
            let ghost base = blocks_view(out@);
            assert(base == (if acc.len() == 0 { acc } else { acc.drop_last() }));
            assert((cur.0@, cur.1@) == (if acc.len() == 0 { (Seq::<char>::empty(), Seq::<char>::empty()) } else { acc.last() }));
            let next = if l[0] == ' ' {
                (append_chars(&cur.0, &b), append_chars(&cur.1, &b))
            } else if l[0] == '-' {
                (append_chars(&cur.0, &b), cur.1)
            } else {
                (cur.0, append_chars(&cur.1, &b))
            };
            let ghost nv = (next.0@, next.1@);
            out.push(next);
            assert(blocks_view(out@) =~= base.push(nv));
        }
        i = i + 1;
    }
    assert(hv.take(i as int) =~= hv);
    out
}

fn find_line_exec(s: &Vec<char>, p: &Vec<char>, from: usize) -> (r: Option<usize>)
    ensures
        r matches Some(k) ==> find_line(s@, p@, from as int) == Some(k as int),
        r is None ==> find_line(s@, p@, from as int) is None,
        r matches Some(k) ==> k + p@.len() <= s@.len(),
{
    let mut i = from;
    while i <= s.len() && p.len() <= s.len() - i
        invariant
            from <= i,
            find_line(s@, p@, from as int) == find_line(s@, p@, i as int),
        decreases s.len() + 1 - i,
    {
        if occurs_at_exec(s, p, i) && (i == 0 || s[i - 1] == '\n') {
            return Some(i);
        }
        if i == s.len() {
            assert(find_line(s@, p@, i + 1) is None);
            return None;
        }
        i = i + 1;
    }
    None
}

fn splice_exec(s: &Vec<char>, at: usize, len: usize, r: &Vec<char>) -> (out: Vec<char>)
    requires
        at + len <= s.len(),
    ensures
        out@ == splice(s@, at as int, len as int, r@),
{
    let mut out: Vec<char> = Vec::new();
    let mut i: usize = 0;
    while i < at
        invariant
            i <= at,
            at + len <= s.len(),
            out@ == s@.take(i as int),
        decreases at - i,
    {
        out.push(s[i]);
        assert(s@.take(i + 1) =~= s@.take(i as int).push(s@[i as int]));
        i = i + 1;
    }
    let out = append_chars(&out, r);
    let mut out = out;
    let mut k: usize = at + len;
    while k < s.len()
        invariant
            at + len <= k <= s.len(),
            out@ == s@.take(at as int) + r@ + s@.subrange(at + len, k as int),
        decreases s.len() - k,
    {
        out.push(s[k]);
        assert(s@.subrange(at + len, k + 1) =~= s@.subrange(at + len, k as int).push(s@[k as int]));
        k = k + 1;
    }
    assert(s@.subrange(at + len, s.len() as int) =~= s@.skip(at + len));
    out
}

/// Applies a file's hunk lines to its content: each hunk's context and `-`
/// lines must stand, whole lines, after the previous hunk, and are replaced
/// by its context and `+` lines; a hunk found nowhere is a conflict.
pub fn apply_hunks(content: &str, hunks: &Vec<String>) -> (r: Result<String, ToolError>)
    ensures
        match patched(content@, texts(hunks@)) {
            Ok(t) => r matches Ok(s) && s@ == t,
            Err(k) => r matches Err(ToolError::ExecutionFailed(m)) && m@ == "hunk "@ + decimal((k + 1) as nat) + " does not apply"@,
        },
{
    let blocks = hunk_blocks_of(hunks);
    let ghost bv = blocks_view(blocks@);
    let mut text = chars_of(content);
    let mut pos: usize = 0;
    let mut j: usize = 0;
    while j < blocks.len()
        invariant
            j <= blocks.len(),
            bv == blocks_view(blocks@),
            bv == hunk_blocks(texts(hunks@)),
            patched(content@, texts(hunks@)) == apply_blocks(text@, bv, j as int, pos as int),
        decreases blocks.len() - j,
    {
        let old_text = &blocks[j].0;
        let new_text = &blocks[j].1;
        assert(bv[j as int] == (old_text@, new_text@));
        match find_line_exec(&text, old_text, pos) {
            None => {
                let mut m = String::from_str("hunk ");
                push_decimal(&mut m, (j + 1) as u64);
                push_str(&mut m, " does not apply");
                return Err(ToolError::ExecutionFailed(m));
            },
            Some(i) => {
                let tail = text.len() - i - old_text.len();
                let next = splice_exec(&text, i, old_text.len(), new_text);
                let next_len = next.len();
                assert(next_len == i + new_text@.len() + tail);
                pos = next_len - tail;
                text = next;
            },
        }
        j = j + 1;
    }
    let s = string_of(&text, 0, text.len());
    assert(text@.subrange(0, text@.len() as int) =~= text@);
    Ok(s)
}

/// A file that could not be patched, with the error.
pub fn conflict_line(file: &str, error: &ToolError) -> (r: String)
    ensures
        r@ == file@ + ": "@ + tool_error_text(*error),
{
    let mut out = String::from_str(file);
    push_str(&mut out, ": ");
    let e = error.display_text();
    push_str(&mut out, e.as_str());
    out
}

/// What applying a diff reports: success when no file conflicted, else a
/// recoverable error listing the conflicts.
pub fn patch_report(applied: usize, conflicts: &Vec<String>) -> (r: ToolResult)
    ensures
        conflicts@.len() == 0 ==> (r matches ToolResult::Text(t)
            && t@ == "Applied "@ + decimal(applied as nat) + " patch(es) successfully"@),
        conflicts@.len() > 0 ==> (r matches ToolResult::Error { message, recoverable }
            && message@ == "Applied "@ + decimal(applied as nat) + ", conflicts: "@ + join(texts(conflicts@), "; "@)
            && recoverable),
{
    let mut out = String::from_str("Applied ");
    push_decimal(&mut out, applied as u64);
    if conflicts.len() == 0 {
        push_str(&mut out, " patch(es) successfully");
        ToolResult::Text(out)
    } else {
        push_str(&mut out, ", conflicts: ");
        push_join(&mut out, conflicts, "; ");
        ToolResult::Error { message: out, recoverable: true }
    }
}

pub open spec fn hunks_present(plan: Seq<(Seq<char>, Seq<Seq<char>>)>) -> bool {
    forall|i: int| 0 <= i < plan.len() ==> (#[trigger] plan[i]).1.len() > 0
}

proof fn lemma_fold_hunks_present(lines: Seq<Seq<char>>)
    ensures
        hunks_present(patch_fold(lines).plan),
    decreases lines.len(),
{
    if lines.len() > 0 {
        lemma_fold_hunks_present(lines.drop_last());
        let st = patch_fold(lines.drop_last());
        assert(hunks_present(flush_plan(st))) by {
            if st.current is Some && st.hunks.len() > 0 {
                assert forall|i: int| 0 <= i < flush_plan(st).len() implies (#[trigger] flush_plan(st)[i]).1.len() > 0 by {
                    if i < st.plan.len() {
                        assert(flush_plan(st)[i] == st.plan[i]);
                    }
                }
            }
        }
    }
}

/// A diff plans no file without hunk lines: every file it patches comes
/// with at least one.
pub proof fn law_planned_files_have_hunks(diff: Seq<char>)
    ensures
        hunks_present(patch_files(diff)),
{
    let st = patch_fold(str_lines(diff));
    lemma_fold_hunks_present(str_lines(diff));
    if st.current is Some && st.hunks.len() > 0 {
        assert forall|i: int| 0 <= i < patch_files(diff).len() implies (#[trigger] patch_files(diff)[i]).1.len() > 0 by {
            if i < st.plan.len() {
                assert(patch_files(diff)[i] == st.plan[i]);
            }
        }
    }
}

} // verus!
