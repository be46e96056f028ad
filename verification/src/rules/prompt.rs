//! The system prompt: the configured prompt, the tool instructions, the
//! workspace files, and the working directory, in that order.
use vstd::prelude::*;
use vstd::utf8::encode_utf8;
use crate::rules::config::ChatApiConfig;
use crate::text::push_str;

verus! {

broadcast use vstd::seq_lib::group_seq_properties;

/// The length of a text in UTF-8 bytes (what `str::len` counts).
pub open spec fn byte_len(s: Seq<char>) -> int {
    encode_utf8(s).len() as int
}

/// The budget a context file takes: its path, its content and 20 for the
/// formatting around them.
pub open spec fn file_cost(f: (String, String)) -> int {
    byte_len(f.0@) + byte_len(f.1@) + 20
}

/// The cost of the files of one group from position `i` on.
pub open spec fn group_cost(files: Seq<(String, String)>, i: int) -> int
    decreases files.len() - i,
{
    if i < 0 || i >= files.len() {
        0
    } else {
        file_cost(files[i]) + group_cost(files, i + 1)
    }
}

/// The cost of all groups from group `g` on.
pub open spec fn groups_cost(groups: Seq<Vec<(String, String)>>, g: int) -> int
    decreases groups.len() - g,
{
    if g < 0 || g >= groups.len() {
        0
    } else {
        group_cost(groups[g]@, 0) + groups_cost(groups, g + 1)
    }
}

proof fn lemma_group_cost_nonneg(files: Seq<(String, String)>, i: int)
    ensures
        group_cost(files, i) >= 0,
    decreases files.len() - i,
{
    if 0 <= i < files.len() {
        lemma_group_cost_nonneg(files, i + 1);
    }
}

proof fn lemma_groups_cost_nonneg(groups: Seq<Vec<(String, String)>>, g: int)
    ensures
        groups_cost(groups, g) >= 0,
    decreases groups.len() - g,
{
    if 0 <= g < groups.len() {
        lemma_group_cost_nonneg(groups[g]@, 0);
        lemma_groups_cost_nonneg(groups, g + 1);
    }
}

/// The files taken from one group, from position `i` on, with `total` spent so
/// far: a file that would take the total past a non-zero budget `max` ends
/// the group. Gives the files taken and the new total.
pub open spec fn take_from(files: Seq<(String, String)>, i: int, max: int, total: int) -> (Seq<(String, String)>, int)
    decreases files.len() - i,
{
    if i < 0 || i >= files.len() {
        (Seq::empty(), total)
    } else if max > 0 && total + file_cost(files[i]) > max {
        (Seq::empty(), total)
    } else {
        let rest = take_from(files, i + 1, max, total + file_cost(files[i]));
        (seq![files[i]] + rest.0, rest.1)
    }
}

/// The files taken from all groups, from group `g` on.
pub open spec fn take_groups(groups: Seq<Vec<(String, String)>>, g: int, max: int, total: int) -> Seq<(String, String)>
    decreases groups.len() - g,
{
    if g < 0 || g >= groups.len() {
        Seq::empty()
    } else {
        let first = take_from(groups[g]@, 0, max, total);
        first.0 + take_groups(groups, g + 1, max, first.1)
    }
}

pub open spec fn join(parts: Seq<Seq<char>>, sep: Seq<char>) -> Seq<char>
    decreases parts.len(),
{
    if parts.len() == 0 {
        Seq::empty()
    } else if parts.len() == 1 {
        parts[0]
    } else {
        join(parts.drop_last(), sep) + sep + parts.last()
    }
}

pub open spec fn tools_intro() -> Seq<char> {
    "You have access to the following tools. To call a tool, output a JSON code block:\n\n```json\n{\"name\": \"function_name\", \"arguments\": {\"param\": \"value\"}}\n```\n\nFor multiple calls, use an array.\n\nAvailable tools:\n"@
}

pub open spec fn file_block(f: (String, String)) -> Seq<char> {
    "### "@ + f.0@ + "\n```\n"@ + f.1@ + "\n```"@
}

/// The context budget in characters: about four per token, none when no
/// token limit is set.
pub open spec fn context_budget(config: ChatApiConfig) -> int {
    match config.rules.context {
        Some(c) => match c.max_context_tokens { Some(t) => t * 4, None => 0 },
        None => 0,
    }
}

pub open spec fn prompt_parts(
    config: ChatApiConfig,
    tools_json: Option<String>,
    groups: Seq<Vec<(String, String)>>,
    working_dir: Seq<char>,
) -> Seq<Seq<char>> {
    let p1: Seq<Seq<char>> = match config.rules.system_prompt {
        Some(p) => if p@.len() > 0 { seq![p@] } else { Seq::empty() },
        None => Seq::empty(),
    };
    let p2: Seq<Seq<char>> = match tools_json {
        Some(t) => seq![tools_intro() + t@],
        None => Seq::empty(),
    };
    let max: int = context_budget(config);
    let files: Seq<(String, String)> = match config.rules.context {
        Some(c) => if c.include_files@.len() > 0 { take_groups(groups, 0, max, 0) } else { Seq::empty() },
        None => Seq::empty(),
    };
    let p3: Seq<Seq<char>> = if files.len() > 0 {
        seq!["Workspace context:\n\n"@ + join(files.map_values(|f: (String, String)| file_block(f)), "\n\n"@)]
    } else {
        Seq::empty()
    };
    p1 + p2 + p3 + seq!["Working directory: "@ + working_dir]
}

pub fn push_join(out: &mut String, parts: &Vec<String>, sep: &str)
    ensures
        final(out)@ == old(out)@ + join(parts@.map_values(|p: String| p@), sep@),
{
    let ghost ps = parts@.map_values(|p: String| p@);
    let ghost start = out@;
    let mut i: usize = 0;
    while i < parts.len()
        invariant
            i <= parts.len(),
            ps == parts@.map_values(|p: String| p@),
            out@ == start + join(ps.take(i as int), sep@),
        decreases parts.len() - i,
    {
        assert(ps.take(i + 1).drop_last() =~= ps.take(i as int));
        if i > 0 {
            push_str(out, sep);
        }
        push_str(out, parts[i].as_str());
        assert(ps.take(i + 1).last() == parts@[i as int]@);
        i = i + 1;
    }
    assert(ps.take(i as int) =~= ps);
}

/// Builds the system prompt. `tools_json` is the tool definitions in pretty
/// JSON (`None` when there are no tools); `groups` holds, for each include
/// pattern in order, the files that matched it and could be read, as (path,
/// content); `working_dir` is the directory's display form.
pub fn build_system_prompt(
    config: &ChatApiConfig,
    tools_json: Option<String>,
    groups: &Vec<Vec<(String, String)>>,
    working_dir: &str,
) -> (r: String)
    requires
        groups_cost(groups@, 0) <= usize::MAX,
        config.rules.context matches Some(c) ==> (c.max_context_tokens matches Some(t) ==> t * 4 <= usize::MAX),
    ensures
        r@ == join(prompt_parts(*config, tools_json, groups@, working_dir@), "\n\n"@),
{
    let ghost tj = tools_json;
    let mut parts: Vec<String> = Vec::new();
    // 1. User-defined system prompt
    if let Some(p) = &config.rules.system_prompt {
        if p.as_str().unicode_len() > 0 {
            parts.push(p.clone());
        }
    }
    // 2. Tool definitions
    if let Some(t) = tools_json {
        let mut s = String::new();
        push_str(&mut s, "You have access to the following tools. To call a tool, output a JSON code block:\n\n```json\n{\"name\": \"function_name\", \"arguments\": {\"param\": \"value\"}}\n```\n\nFor multiple calls, use an array.\n\nAvailable tools:\n");
        push_str(&mut s, t.as_str());
        parts.push(s);
    }
    // 3. Context files
    let mut taken: Vec<(String, String)> = Vec::new();
    let ghost max_spec: int = context_budget(*config);
    if let Some(ctx) = &config.rules.context {
        if ctx.include_files.len() > 0 {
            let max_chars: usize = match ctx.max_context_tokens {
                Some(t) => (t as usize) * 4,
                None => 0,
            };
            assert(max_chars == max_spec);
            let mut total: usize = 0;
            let mut g: usize = 0;
            while g < groups.len()
                invariant
                    g <= groups.len(),
                    max_chars == max_spec,
                    total + groups_cost(groups@, g as int) <= usize::MAX,
                    take_groups(groups@, 0, max_spec, 0) == taken@ + take_groups(groups@, g as int, max_spec, total as int),
                decreases groups.len() - g,
            {
                let files = &groups[g];
                proof {
                    assert(groups_cost(groups@, g as int) == group_cost(files@, 0) + groups_cost(groups@, g + 1));
                }
                let ghost first = take_from(files@, 0, max_spec, total as int);
                let ghost before = taken@;
                let ghost t0 = total;
                let mut i: usize = 0;
                let mut done = false;
                while i < files.len() && !done
                    invariant
                        i <= files.len(),
                        max_chars == max_spec,
                        files@ == groups@[g as int]@,
                        total + group_cost(files@, i as int) + groups_cost(groups@, g + 1) <= usize::MAX,
                        !done ==> first == (taken@.subrange(before.len() as int, taken@.len() as int) + take_from(files@, i as int, max_spec, total as int).0,
                            take_from(files@, i as int, max_spec, total as int).1),
                        done ==> first == (taken@.subrange(before.len() as int, taken@.len() as int), total as int),
                        taken@.subrange(0, before.len() as int) == before,
                        before.len() <= taken@.len(),
                    decreases files.len() - i + (if done { 0int } else { 1int }),
                {
                    proof {
                        lemma_group_cost_nonneg(files@, i + 1);
                        lemma_groups_cost_nonneg(groups@, g + 1);
                        assert(group_cost(files@, i as int) == file_cost(files@[i as int]) + group_cost(files@, i + 1));
                    }
                    let cost = files[i].0.as_str().len() + files[i].1.as_str().len() + 20;
                    assert(cost == file_cost(files@[i as int]));
                    if max_chars > 0 && total + cost > max_chars {
                        done = true;
                    } else {
                        total = total + cost;
                        let ghost tk = taken@;
                        taken.push((files[i].0.clone(), files[i].1.clone()));
                        assert(taken@.subrange(before.len() as int, taken@.len() as int)
                            =~= tk.subrange(before.len() as int, tk.len() as int).push(files@[i as int]));
                        assert(taken@.subrange(0, before.len() as int) =~= tk.subrange(0, before.len() as int));
                        i = i + 1;
                    }
                }
                proof {
                    lemma_group_cost_nonneg(files@, i as int);
                    if !done {
                        assert(take_from(files@, i as int, max_spec, total as int).0 =~= Seq::<(String, String)>::empty());
                    }
                    assert(taken@ =~= before + taken@.subrange(before.len() as int, taken@.len() as int));
                }
                g = g + 1;
            }
        }
    }
    if taken.len() > 0 {
        let mut blocks: Vec<String> = Vec::new();
        let mut k: usize = 0;
        while k < taken.len()
            invariant
                k <= taken.len(),
                blocks@.map_values(|p: String| p@) == taken@.take(k as int).map_values(|f: (String, String)| file_block(f)),
            decreases taken.len() - k,
        {
            let mut b = String::new();
            push_str(&mut b, "### ");
            push_str(&mut b, taken[k].0.as_str());
            push_str(&mut b, "\n```\n");
            push_str(&mut b, taken[k].1.as_str());
            push_str(&mut b, "\n```");
            let ghost ob = blocks@;
            blocks.push(b);
            assert(blocks@.map_values(|p: String| p@) =~= ob.map_values(|p: String| p@).push(b@));
            assert(taken@.take(k + 1) =~= taken@.take(k as int).push(taken@[k as int]));
            assert(blocks@.map_values(|p: String| p@) =~= taken@.take(k + 1).map_values(|f: (String, String)| file_block(f)));
            k = k + 1;
        }
        assert(taken@.take(k as int) =~= taken@);
        let mut s = String::new();
        push_str(&mut s, "Workspace context:\n\n");
        push_join(&mut s, &blocks, "\n\n");
        parts.push(s);
    }
    // 4. Working directory
    let mut w = String::new();
    push_str(&mut w, "Working directory: ");
    push_str(&mut w, working_dir);
    parts.push(w);
    let mut out = String::new();
    push_join(&mut out, &parts, "\n\n");
    assert(parts@.map_values(|p: String| p@) =~= prompt_parts(*config, tj, groups@, working_dir@));
    out
}

} // verus!
