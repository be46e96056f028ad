use chatapi::tools::file_ops::{
    apply_hunks, conflict_line, edit_content, entry_line, patch_plan, patch_report, sort_entries, write_report, ApplyPatch, EditFile,
    ListDir, ReadFile, WriteFile,
};
use chatapi::tools::git_ops::{
    add_args, commit_args, default_limit, diff_args, log_args, show_args, status_args, GitCommit, GitDiff, GitLog,
    GitShow, GitStatus,
};
use chatapi::tools::registry::tool_index;
use chatapi::tools::search::{grep_content, grep_full, grep_glob, grep_report, GrepCode, LineMatcher};
use chatapi::tools::terminal::{
    command_output, default_timeout, diagnostics_output, diagnostics_timeout_ms, GetDiagnostics, RunCommand,
};
use chatapi::traits::{ToolError, ToolResult};

fn strings(v: &[&str]) -> Vec<String> {
    v.iter().map(|s| s.to_string()).collect()
}

#[test]
fn tools_name_themselves() {
    assert_eq!(ReadFile.name(), "read_file");
    assert_eq!(WriteFile.description(), "Write or create a file");
    assert_eq!(EditFile.name(), "edit_file");
    assert_eq!(ListDir.name(), "list_dir");
    assert_eq!(ApplyPatch.description(), "Apply unified diff with conflict detection");
    assert_eq!(GitStatus.name(), "git_status");
    assert_eq!(GitDiff.name(), "git_diff");
    assert_eq!(GitCommit.name(), "git_commit");
    assert_eq!(GitLog.description(), "Recent commit history");
    assert_eq!(GitShow.name(), "git_show");
    assert_eq!(GrepCode.name(), "grep_code");
    assert_eq!(RunCommand.name(), "run_command");
    assert_eq!(GetDiagnostics.description(), "Get compiler errors and warnings");
}

#[test]
fn schemas_are_json() {
    let schemas = [
        ReadFile.parameters_schema(), WriteFile.parameters_schema(), EditFile.parameters_schema(),
        ListDir.parameters_schema(), ApplyPatch.parameters_schema(), GitStatus.parameters_schema(),
        GitDiff.parameters_schema(), GitCommit.parameters_schema(), GitLog.parameters_schema(),
        GitShow.parameters_schema(), GrepCode.parameters_schema(), RunCommand.parameters_schema(),
        GetDiagnostics.parameters_schema(),
    ];
    for s in schemas {
        let v: serde_json::Value = serde_json::from_str(s).unwrap();
        assert_eq!(v["type"], "object");
    }
    let v: serde_json::Value = serde_json::from_str(RunCommand.parameters_schema()).unwrap();
    assert_eq!(v["required"][0], "command");
}

#[test]
fn defaults() {
    assert_eq!(default_limit(), 10);
    assert_eq!(default_timeout(), 30000);
    assert_eq!(diagnostics_timeout_ms(), 60000);
}

#[test]
fn write_and_edit() {
    assert_eq!(write_report("h\u{e9}llo", "a.txt"), "Wrote 6 bytes to a.txt");
    match edit_content("f", "a b a".into(), "a", "X") {
        Ok(ToolResult::Diff { old, new, path }) => {
            assert_eq!(old, "a b a");
            assert_eq!(new, "X b X");
            assert_eq!(path, "f");
        }
        other => panic!("unexpected {:?}", other),
    }
    match edit_content("f", "aaa".into(), "aa", "b") {
        Ok(ToolResult::Diff { new, .. }) => assert_eq!(new, "aaa".replace("aa", "b")),
        other => panic!("unexpected {:?}", other),
    }
    match edit_content("f", "ab".into(), "", "-") {
        Ok(ToolResult::Diff { new, .. }) => assert_eq!(new, "-a-b-"),
        other => panic!("unexpected {:?}", other),
    }
    match edit_content("src/x.rs", "abc".into(), "zz", "y") {
        Err(ToolError::ExecutionFailed(m)) => assert_eq!(m, "old_text not found in src/x.rs"),
        other => panic!("unexpected {:?}", other),
    }
}

#[test]
fn listings() {
    assert_eq!(entry_line("src", true, 2), "    src/");
    assert_eq!(entry_line("a.rs", false, 0), "a.rs");
    let items = vec![("b".to_string(), false), ("a".to_string(), true), ("a".to_string(), false), ("B".to_string(), true)];
    let sorted = sort_entries(&items);
    let mut expected = items.clone();
    expected.sort();
    assert_eq!(sorted, expected);
    assert_eq!(sorted[0], ("B".to_string(), true));
}

#[test]
fn patch_planning() {
    let diff = "--- x.rs\n+++ x.rs\n@@ -1 +1 @@\n-old\n+new\n";
    let plan = patch_plan(diff);
    assert_eq!(plan.len(), 1);
    assert_eq!(plan[0].0, "x.rs");
    assert_eq!(plan[0].1, strings(&["@@ -1 +1 @@", "-old", "+new"]));
    let git_style = "diff --git a/x.rs b/x.rs\n--- a/x.rs\n+++ b/x.rs\n@@ -1 +1 @@\n-old\n+new\n";
    let plan = patch_plan(git_style);
    assert_eq!(plan.len(), 1);
    assert_eq!(plan[0].0, "x.rs");
    assert_eq!(plan[0].1, strings(&["@@ -1 +1 @@", "-old", "+new"]));
    let two = "+++ a\n@@ h\n diff ctx\ndiff x\n+++ b\n+line\n";
    let plan = patch_plan(two);
    assert_eq!(plan.len(), 2);
    assert_eq!(plan[0].0, "a");
    assert_eq!(plan[0].1, strings(&["@@ h", " diff ctx"]));
    assert_eq!(plan[1].0, "b");
    assert_eq!(plan[1].1, strings(&["+line"]));
}

#[test]
fn patch_reports() {
    match patch_report(2, &Vec::new()) {
        ToolResult::Text(t) => assert_eq!(t, "Applied 2 patch(es) successfully"),
        other => panic!("unexpected {:?}", other),
    }
    let c = vec![conflict_line("f", &ToolError::ExecutionFailed("no".into())), "g: x".to_string()];
    assert_eq!(c[0], "f: execution failed: no");
    match patch_report(0, &c) {
        ToolResult::Error { message, recoverable } => {
            assert_eq!(message, "Applied 0, conflicts: f: execution failed: no; g: x");
            assert!(recoverable);
        }
        other => panic!("unexpected {:?}", other),
    }
}

#[test]
fn git_command_lines() {
    assert_eq!(status_args(), strings(&["status", "--porcelain"]));
    assert_eq!(diff_args(true, Some("a.rs")), strings(&["diff", "--staged", "a.rs"]));
    assert_eq!(diff_args(false, None), strings(&["diff"]));
    let files = strings(&["a", "b"]);
    assert_eq!(add_args(Some(&files)), strings(&["add", "a", "b"]));
    assert_eq!(add_args(None), strings(&["add", "-A"]));
    assert_eq!(commit_args("msg"), strings(&["commit", "-m", "msg"]));
    assert_eq!(log_args(10), strings(&["log", "--oneline", "-n", "10"]));
    assert_eq!(show_args("HEAD~1"), strings(&["show", "HEAD~1"]));
}

#[test]
fn command_outputs() {
    assert_eq!(command_output("out", "err", false, Some(2)), "out\n--- stderr ---\nerr\n[exit code: 2]");
    assert_eq!(command_output("", "err", true, None), "err");
    assert_eq!(command_output("", "", false, None), "\n[exit code: -1]");
    assert_eq!(command_output("ok\n", "", true, Some(0)), "ok\n");
}

#[test]
fn diagnostics() {
    assert_eq!(diagnostics_output("warning: x\nnote\nerror[E1]: y\n"), "warning: x\nerror[E1]: y");
    assert_eq!(diagnostics_output("Compiling\nFinished\n"), "No errors or warnings");
    assert_eq!(diagnostics_output(""), "No errors or warnings");
}

#[test]
fn grep_matches_lines() {
    match LineMatcher::new("(") {
        Err(ToolError::InvalidArgs(m)) => assert!(m.starts_with("invalid regex: "), "{}", m),
        Err(e) => panic!("unexpected {:?}", e),
        Ok(_) => panic!("should not compile"),
    }
    let m = LineMatcher::new(r"fn \w+").unwrap();
    let mut hits = Vec::new();
    grep_content(&m, "a.rs", "fn main() {}\n  let x;\n  fn helper()\n", &mut hits);
    assert_eq!(hits, strings(&["a.rs:1: fn main() {}", "a.rs:3: fn helper()"]));
    grep_content(&m, "b.rs", "nothing here", &mut hits);
    assert_eq!(hits.len(), 2);
    assert_eq!(grep_report(&hits), "a.rs:1: fn main() {}\na.rs:3: fn helper()");
    assert_eq!(grep_report(&Vec::new()), "No matches found");
    assert!(grep_full(501));
    assert!(!grep_full(500));
}

#[test]
fn grep_globs() {
    assert_eq!(grep_glob("/w", None, None), "/w/**/*");
    assert_eq!(grep_glob("/w", Some("src"), Some("*.rs")), "/w/src/*.rs");
    assert_eq!(grep_glob("/w", Some("src/*"), None), "/w/src/*");
    assert_eq!(grep_glob("/w", Some("/abs"), None), "/abs/**/*");
}

#[test]
fn registry_lookup() {
    let names = strings(&["a", "b", "b"]);
    assert_eq!(tool_index(&names, "b").unwrap(), 1);
    match tool_index(&names, "c") {
        Err(ToolError::NotFound(n)) => assert_eq!(n, "c"),
        other => panic!("unexpected {:?}", other),
    }
    assert_eq!(ToolError::NotFound("c".into()).display_text(), "tool not found: c");
}

#[test]
fn hunks_are_applied() {
    let diff = "--- a/f.txt\n+++ b/f.txt\n@@ -1,2 +1,2 @@\n a\n-b\n+c\n";
    let plan = patch_plan(diff);
    assert_eq!(plan.len(), 1);
    assert_eq!(plan[0].0, "f.txt");
    assert_eq!(apply_hunks("a\nb\n", &plan[0].1).unwrap(), "a\nc\n");
    // Two hunks, the second found after the first.
    let hunks = strings(&["@@ -1 +1 @@", "-x", "+y", "@@ -3 +3 @@", "-x", "+z"]);
    assert_eq!(apply_hunks("x\nk\nx\n", &hunks).unwrap(), "y\nk\nz\n");
    // Context must stand at the start of a line.
    match apply_hunks("ab\n", &strings(&["@@ -1 +1 @@", "-b", "+c"])) {
        Err(ToolError::ExecutionFailed(m)) => assert_eq!(m, "hunk 1 does not apply"),
        other => panic!("unexpected {:?}", other),
    }
    match apply_hunks("a\nb\n", &hunks) {
        Err(ToolError::ExecutionFailed(m)) => assert_eq!(m, "hunk 1 does not apply"),
        other => panic!("unexpected {:?}", other),
    }
    match apply_hunks("x\n", &hunks) {
        Err(ToolError::ExecutionFailed(m)) => assert_eq!(m, "hunk 2 does not apply"),
        other => panic!("unexpected {:?}", other),
    }
}
