use dotty::classify::{classify, TargetProbe, TargetState};
use dotty::color::Colorize;
use dotty::decision::Decision;
use dotty::plan::{plan_outcome, Action, Options, Outcome, WalkCounts};
use dotty::report::summary_line;
use dotty::script::evaluate_descriptor;
use dotty::walk::{plan_file, walk, Entry, SourceFile, Step};
use mlua::Lua;

fn opts(dry_run: bool, override_identical: bool) -> Options {
    Options { dry_run, override_identical, verbose: false, color: Colorize(false) }
}

fn rel(parts: &[&str]) -> Vec<String> {
    parts.iter().map(|s| s.to_string()).collect()
}

fn file_at(parts: &[&str], content: &str, decision: Decision, probe: TargetProbe) -> Entry {
    let rel_path = rel(parts);
    Entry::File(SourceFile {
        source_path: format!("/src/{}", rel_path.join("/")),
        rel_path,
        source_content: Some(content.as_bytes().to_vec()),
        decision,
        probe,
    })
}

fn regular(bytes: &str) -> TargetProbe {
    TargetProbe {
        present: true,
        link_target: None,
        is_file: true,
        content: Some(bytes.as_bytes().to_vec()),
    }
}

fn link_to(target: &str, bytes: &str) -> TargetProbe {
    TargetProbe {
        present: true,
        link_target: Some(target.to_string()),
        is_file: true,
        content: Some(bytes.as_bytes().to_vec()),
    }
}

fn directory() -> TargetProbe {
    TargetProbe { present: true, link_target: None, is_file: false, content: None }
}

fn run(tree: &Entry, o: &Options) -> (WalkCounts, Vec<Step>) {
    let mut steps = Vec::new();
    let c = walk(tree, o, &mut steps);
    (c, steps)
}

fn transformed(text: &str) -> Decision {
    Decision { keep: true, rename_to: None, transform: Some(text.to_string()) }
}

#[test]
fn dry_run_reports_plans_conflicts_and_skips() {
    let tree = Entry::Dir(vec![
        file_at(&["a.txt"], "A", Decision::linked(), TargetProbe::absent()),
        file_at(&["b.txt"], "B", Decision::from_bool(false), TargetProbe::absent()),
        file_at(&["c.txt"], "C", Decision::linked(), regular("existing")),
    ]);
    let (c, steps) = run(&tree, &opts(true, false));
    assert_eq!(c, WalkCounts { planned: 1, conflicts: 1, skips: 1, overrides: 0 });
    assert_eq!(steps.len(), 3);
    assert_eq!(steps[0].outcome, Outcome::Create);
    assert_eq!(steps[0].action, Action::Nothing);
    assert_eq!(steps[1].outcome, Outcome::Skipped);
    assert_eq!(steps[1].state, None);
    assert_eq!(steps[2].outcome, Outcome::Conflict);
    assert_eq!(steps[2].state, Some(TargetState::Differs));
    assert_eq!(
        summary_line(&c, true, Colorize(false)),
        "Summary: 1 planned, 1 conflict, 1 skipped by lua, 0 overrides"
    );
}

#[test]
fn dry_run_conflict_identical_regular_file() {
    let tree = Entry::Dir(vec![file_at(&["a.txt"], "SAME", Decision::linked(), regular("SAME"))]);
    let (c, steps) = run(&tree, &opts(true, false));
    assert_eq!(steps[0].state, Some(TargetState::Identical));
    assert_eq!(steps[0].outcome, Outcome::Conflict);
    assert_eq!(c, WalkCounts { planned: 0, conflicts: 1, skips: 0, overrides: 0 });
}

#[test]
fn dry_run_conflict_identical_symlink_points_to_source() {
    let tree = Entry::Dir(vec![file_at(
        &["b.txt"],
        "DATA",
        Decision::linked(),
        link_to("/src/b.txt", "DATA"),
    )]);
    let (c, steps) = run(&tree, &opts(true, false));
    assert_eq!(steps[0].state, Some(TargetState::InPlace));
    assert_eq!(steps[0].outcome, Outcome::InPlace);
    assert_eq!(c, WalkCounts { planned: 1, conflicts: 0, skips: 0, overrides: 0 });
}

#[test]
fn nested_counts_aggregate_across_subdirs() {
    let tree = Entry::Dir(vec![
        file_at(&["a.txt"], "A", Decision::linked(), TargetProbe::absent()),
        file_at(&["b.txt"], "B", Decision::from_bool(false), TargetProbe::absent()),
        Entry::Dir(vec![Entry::Dir(vec![file_at(
            &[".config", "kitty", "kitty.conf"],
            "conf",
            Decision::linked(),
            regular("existing"),
        )])]),
    ]);
    let (c, steps) = run(&tree, &opts(true, false));
    assert_eq!(c, WalkCounts { planned: 1, conflicts: 1, skips: 1, overrides: 0 });
    assert_eq!(steps[2].target, rel(&[".config", "kitty", "kitty.conf"]));
    assert_eq!(
        summary_line(&c, true, Colorize(false)),
        "Summary: 1 planned, 1 conflict, 1 skipped by lua, 0 overrides"
    );
}

#[test]
fn skip_in_sibling_subdir_sums_with_deep_conflict() {
    let tree = Entry::Dir(vec![
        file_at(&["top.txt"], "T", Decision::linked(), TargetProbe::absent()),
        Entry::Dir(vec![Entry::Dir(vec![file_at(
            &["x", "y", "deep.txt"],
            "D",
            Decision::linked(),
            directory(),
        )])]),
        Entry::Dir(vec![file_at(&["z", "skip.txt"], "S", Decision::from_bool(false), regular("S"))]),
    ]);
    let (c, _) = run(&tree, &opts(false, true));
    assert_eq!(c, WalkCounts { planned: 1, conflicts: 1, skips: 1, overrides: 0 });
}

#[test]
fn dry_run_rename_to_plans_symlink_with_new_name() {
    let d = Decision { keep: true, rename_to: Some("renamed.txt".to_string()), transform: None };
    let tree = Entry::Dir(vec![file_at(&["orig.txt"], "content", d, TargetProbe::absent())]);
    let (c, steps) = run(&tree, &opts(true, false));
    assert_eq!(steps[0].target, rel(&["renamed.txt"]));
    assert_eq!(steps[0].outcome, Outcome::Create);
    assert_eq!(steps[0].write, None);
    assert_eq!(c.planned, 1);
}

#[test]
fn dry_run_transform_plans_write() {
    let tree = Entry::Dir(vec![file_at(
        &["config.txt"],
        "email = old @example.com",
        transformed("email = new @example.com"),
        TargetProbe::absent(),
    )]);
    let (_, steps) = run(&tree, &opts(true, false));
    assert_eq!(steps[0].outcome, Outcome::Create);
    assert_eq!(steps[0].action, Action::Nothing);
    assert_eq!(steps[0].write.as_deref(), Some("email = new @example.com"));
}

#[test]
fn actual_run_transform_writes_file() {
    let tree = Entry::Dir(vec![file_at(
        &["config.txt"],
        "email = old @example.com",
        transformed("email = new @example.com"),
        TargetProbe::absent(),
    )]);
    let (c, steps) = run(&tree, &opts(false, false));
    assert_eq!(steps[0].action, Action::Create);
    assert_eq!(steps[0].write.as_deref(), Some("email = new @example.com"));
    assert_eq!(c.planned, 1);
}

#[test]
fn transform_over_existing_different_file_is_a_conflict() {
    let f = SourceFile {
        rel_path: rel(&["config.txt"]),
        source_path: "/src/config.txt".to_string(),
        source_content: None,
        decision: transformed("new"),
        probe: regular("pre-existing"),
    };
    let s = plan_file(&f, &opts(false, false));
    assert_eq!(s.state, Some(TargetState::Differs));
    assert_eq!(s.outcome, Outcome::Conflict);
    assert_eq!(s.action, Action::Nothing);
}

#[test]
fn transform_skips_writing_identical_file() {
    let f = SourceFile {
        rel_path: rel(&["config.txt"]),
        source_path: "/src/config.txt".to_string(),
        source_content: Some(b"old".to_vec()),
        decision: transformed("new"),
        probe: regular("new"),
    };
    let s = plan_file(&f, &opts(true, false));
    assert_eq!(s.state, Some(TargetState::InPlace));
    assert_eq!(s.outcome, Outcome::InPlace);
}

#[test]
fn transform_without_rename_to_uses_original_name() {
    let tree = Entry::Dir(vec![file_at(
        &["original_name.txt"],
        "input",
        transformed("output"),
        TargetProbe::absent(),
    )]);
    let (_, steps) = run(&tree, &opts(false, false));
    assert_eq!(steps[0].target, rel(&["original_name.txt"]));
    assert_eq!(steps[0].write.as_deref(), Some("output"));
}

#[test]
fn transformed_file_in_a_directory_is_a_conflict() {
    let f = SourceFile {
        rel_path: rel(&["config.txt"]),
        source_path: "/src/config.txt".to_string(),
        source_content: None,
        decision: transformed("new"),
        probe: directory(),
    };
    assert_eq!(plan_file(&f, &opts(false, true)).outcome, Outcome::Conflict);
}

#[test]
fn identical_file_is_overridden_only_when_enabled_and_not_dry_run() {
    let f = SourceFile {
        rel_path: rel(&["a.txt"]),
        source_path: "/src/a.txt".to_string(),
        source_content: Some(b"SAME".to_vec()),
        decision: Decision::linked(),
        probe: regular("SAME"),
    };
    let s = plan_file(&f, &opts(false, true));
    assert_eq!(s.outcome, Outcome::Override);
    assert_eq!(s.action, Action::Replace);
    assert_eq!(plan_file(&f, &opts(true, true)).outcome, Outcome::Conflict);
    assert_eq!(plan_file(&f, &opts(false, false)).outcome, Outcome::Conflict);
    let tree = Entry::Dir(vec![Entry::File(f)]);
    let (c, _) = run(&tree, &opts(false, true));
    assert_eq!(c, WalkCounts { planned: 1, conflicts: 0, skips: 0, overrides: 1 });
}

#[test]
fn link_to_another_file_differs() {
    let d = Decision::linked();
    let probe = link_to("/elsewhere/a.txt", "other");
    let state = classify(&d, "/src/a.txt", &Some(b"A".to_vec()), &probe);
    assert_eq!(state, TargetState::Differs);
    assert_eq!(plan_outcome(true, state, &opts(false, true)), Outcome::Conflict);
    let dangling = TargetProbe {
        present: true,
        link_target: Some("/gone".to_string()),
        is_file: false,
        content: None,
    };
    assert_eq!(classify(&d, "/src/a.txt", &None, &dangling), TargetState::Differs);
}

#[test]
fn second_run_changes_nothing() {
    let first = Entry::Dir(vec![
        file_at(&["a.txt"], "A", Decision::linked(), TargetProbe::absent()),
        file_at(&["b.txt"], "B", Decision::from_bool(false), TargetProbe::absent()),
        Entry::Dir(vec![file_at(&["d", "t.txt"], "x", transformed("y"), TargetProbe::absent())]),
    ]);
    let (c1, s1) = run(&first, &opts(false, false));
    assert!(s1.iter().filter(|s| s.outcome != Outcome::Skipped).all(|s| s.action == Action::Create));
    let second = Entry::Dir(vec![
        file_at(&["a.txt"], "A", Decision::linked(), link_to("/src/a.txt", "A")),
        file_at(&["b.txt"], "B", Decision::from_bool(false), TargetProbe::absent()),
        Entry::Dir(vec![file_at(&["d", "t.txt"], "x", transformed("y"), regular("y"))]),
    ]);
    let (c2, s2) = run(&second, &opts(false, false));
    assert!(s2.iter().all(|s| s.action == Action::Nothing));
    assert_eq!(c1, c2);
    assert_eq!(c2, WalkCounts { planned: 2, conflicts: 0, skips: 1, overrides: 0 });
}

#[test]
fn lowercasing_transform_is_written_then_in_place() {
    let lua = Lua::new();
    let script = r#"
        return { transform = function(content) return (content:gsub("HOST", "host")) end }
    "#;
    let d = evaluate_descriptor(&lua, script, "config.txt.lua", Ok("HOST = example".to_string()))
        .unwrap();
    assert_eq!(d.transform.as_deref(), Some("host = example"));
    let tree = Entry::Dir(vec![file_at(&["config.txt"], "HOST = example", d, TargetProbe::absent())]);
    let (_, steps) = run(&tree, &opts(false, false));
    assert_eq!(steps[0].action, Action::Create);
    assert_eq!(steps[0].write.as_deref(), Some("host = example"));
    let again = Entry::Dir(vec![file_at(
        &["config.txt"],
        "HOST = example",
        transformed("host = example"),
        regular("host = example"),
    )]);
    let (c, steps) = run(&again, &opts(false, false));
    assert_eq!(steps[0].outcome, Outcome::InPlace);
    assert_eq!(steps[0].action, Action::Nothing);
    assert_eq!(c, WalkCounts { planned: 1, conflicts: 0, skips: 0, overrides: 0 });
}

#[test]
fn transformed_content_behind_a_symlink_is_a_conflict() {
    let f = SourceFile {
        rel_path: rel(&["config.txt"]),
        source_path: "/src/config.txt".to_string(),
        source_content: None,
        decision: transformed("new"),
        probe: link_to("/elsewhere/config.txt", "new"),
    };
    let s = plan_file(&f, &opts(false, true));
    assert_eq!(s.state, Some(TargetState::Differs));
    assert_eq!(s.outcome, Outcome::Conflict);
    assert_eq!(s.action, Action::Nothing);
}

#[test]
fn link_to_another_identical_file_is_not_overridden() {
    let f = SourceFile {
        rel_path: rel(&["a.txt"]),
        source_path: "/src/a.txt".to_string(),
        source_content: Some(b"SAME".to_vec()),
        decision: Decision::linked(),
        probe: link_to("/elsewhere/a.txt", "SAME"),
    };
    let s = plan_file(&f, &opts(false, true));
    assert_eq!(s.state, Some(TargetState::Differs));
    assert_eq!(s.outcome, Outcome::Conflict);
}
