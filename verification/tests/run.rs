use prek::config::{Language, Stage};
use prek::partition::{partition_hooks, plan_project_groups, stable_order};
use prek::printer::{StatusPrinter, skip_line};
use prek::style::{AnsiColor, TextStyle};
use prek::run::{
    ExitStatus, InstallStep, LazyInstallInfo, hooks_at_stage, next_install_step, ProjectRunSummary, RunExtraArgs, RunStatus, RunTotals, diff_changed,
    env_vars_to_set, group_by_install_language, group_in_parallel, next_match, hook_succeeded, install_language, precheck_hook,
    prepare_filenames, project_fail_fast, resolve_refs, should_stash, show_details, shuffle,
    skip_recursive_post_checkout,
};

#[test]
fn partition_groups_equal_dependencies() {
    let keys = vec![7, 3, 7, 9, 3, 7];
    assert_eq!(partition_hooks(&keys), vec![vec![0, 2, 5], vec![1, 4], vec![3]]);
    assert_eq!(partition_hooks(&vec![]), Vec::<Vec<usize>>::new());
    assert_eq!(partition_hooks(&vec![1, 1, 1]), vec![vec![0, 1, 2]]);
    assert_eq!(partition_hooks(&vec![1, 2, 3]), vec![vec![0], vec![1], vec![2]]);
}

#[test]
fn partition_covers_each_hook_once() {
    let keys = vec![4, 1, 4, 2, 2, 1, 5, 4];
    let groups = partition_hooks(&keys);
    let mut all: Vec<usize> = groups.iter().flatten().copied().collect();
    assert_eq!(all.len(), keys.len());
    all.sort();
    assert_eq!(all, (0..keys.len()).collect::<Vec<_>>());
}

#[test]
fn install_groups_merge_pygrep_into_python() {
    assert_eq!(install_language(Language::Pygrep), Language::Python);
    assert_eq!(install_language(Language::Rust), Language::Rust);
    let langs = vec![Language::Rust, Language::Pygrep, Language::Node, Language::Python, Language::Rust];
    assert_eq!(group_by_install_language(&langs), vec![vec![0, 4], vec![1, 3], vec![2]]);
}

#[test]
fn stable_order_sorts_by_key_keeping_ties() {
    assert_eq!(stable_order(&vec![3, 1, 2, 1, 0]), vec![4, 1, 3, 2, 0]);
    assert_eq!(stable_order(&vec![]), Vec::<usize>::new());
    assert_eq!(stable_order(&vec![5, 5, 5]), vec![0, 1, 2]);
}

#[test]
fn project_groups_follow_index_and_depth() {
    // positions: 0 1 2 3 4
    let idx = vec![2, 0, 4, 1, 3];
    let depth = vec![1, 0, 1, 1, 2];
    // sorted by idx: 1 (d0), 3 (d1), 0 (d1), 4 (d2), 2 (d1)
    assert_eq!(plan_project_groups(&idx, &depth), vec![vec![1], vec![3, 0], vec![4], vec![2]]);
    assert_eq!(plan_project_groups(&vec![], &vec![]), Vec::<Vec<usize>>::new());
}

#[test]
fn run_status_flags() {
    assert_eq!(RunStatus::from_bool(true), RunStatus::Success);
    assert_eq!(RunStatus::from_bool(false), RunStatus::Failed);
    assert!(RunStatus::Skipped.as_bool());
    assert!(RunStatus::Unimplemented.as_bool());
    assert!(!RunStatus::Failed.as_bool());
    assert!(RunStatus::Unimplemented.is_unimplemented());
    assert!(!RunStatus::Skipped.is_unimplemented());
    for b in [true, false] {
        assert_eq!(RunStatus::from_bool(b).as_bool(), b);
        assert!(!RunStatus::from_bool(b).is_unimplemented());
    }
}

#[test]
fn project_summary_stops_on_fail_fast() {
    let mut s = ProjectRunSummary::new();
    assert!(!s.record(RunStatus::Success, false, true, false));
    assert!(!s.record(RunStatus::Unimplemented, false, true, false));
    assert!(!s.record(RunStatus::Success, true, true, false));
    assert!(s.success && s.file_modified && s.has_unimplemented && !s.abort);
    assert!(s.record(RunStatus::Failed, false, true, false));
    assert!(!s.success && s.abort);

    let mut s = ProjectRunSummary::new();
    assert!(!s.record(RunStatus::Failed, false, false, false));
    assert!(!s.success && !s.abort);
    assert!(s.record(RunStatus::Failed, false, false, true));
    assert!(s.abort);
}

#[test]
fn fail_fast_from_run_or_config() {
    assert!(project_fail_fast(true, None));
    assert!(project_fail_fast(false, Some(true)));
    assert!(!project_fail_fast(false, Some(false)));
    assert!(!project_fail_fast(false, None));
}

#[test]
fn run_totals() {
    let mut totals = RunTotals::new();
    assert_eq!(totals.exit_status(), ExitStatus::Success);
    let mut p = ProjectRunSummary::new();
    p.record(RunStatus::Failed, true, false, false);
    totals.absorb(&p);
    assert_eq!(totals.exit_status(), ExitStatus::Failure);
    assert!(totals.show_diff(true));
    assert!(!totals.show_diff(false));
    assert!(!totals.abort_remaining);
    let mut q = ProjectRunSummary::new();
    q.record(RunStatus::Failed, false, true, false);
    totals.absorb(&q);
    assert!(totals.abort_remaining);
}

#[test]
fn hook_run_decisions() {
    assert_eq!(precheck_hook(false, false, true), Some(RunStatus::Skipped));
    assert_eq!(precheck_hook(false, false, false), Some(RunStatus::Skipped));
    assert_eq!(precheck_hook(false, true, false), Some(RunStatus::Unimplemented));
    assert_eq!(precheck_hook(true, false, false), Some(RunStatus::Unimplemented));
    assert_eq!(precheck_hook(true, false, true), None);
    assert!(hook_succeeded(0, false));
    assert!(!hook_succeeded(1, false));
    assert!(!hook_succeeded(0, true));
    assert!(diff_changed(&vec![1, 2], &vec![1, 3]));
    assert!(diff_changed(&vec![1, 2], &vec![1, 2, 3]));
    assert!(!diff_changed(&vec![1, 2], &vec![1, 2]));
    assert!(show_details(false, false, false));
    assert!(!show_details(false, false, true));
    assert!(show_details(false, true, true));
}

#[test]
fn filenames_are_shuffled_or_dropped() {
    let files: Vec<String> = (0..20).map(|i| format!("f{i}.py")).collect();
    let mut shuffled = prepare_filenames(files.clone(), true);
    assert_eq!(shuffled.len(), files.len());
    let again = prepare_filenames(files.clone(), true);
    assert_eq!(shuffled, again, "the shuffle is deterministic");
    assert_ne!(shuffled, files, "the shuffle reorders the files");
    shuffled.sort();
    let mut sorted = files.clone();
    sorted.sort();
    assert_eq!(shuffled, sorted);
    assert!(prepare_filenames(files, false).is_empty());

    let mut one = vec![1];
    shuffle(&mut one);
    assert_eq!(one, vec![1]);
}

#[test]
fn run_level_decisions() {
    let (from, to) = resolve_refs(true, Some("a".to_string()), None);
    assert_eq!(from.as_deref(), Some("HEAD~1"));
    assert_eq!(to.as_deref(), Some("HEAD"));
    let (from, to) = resolve_refs(false, Some("a".to_string()), None);
    assert_eq!(from.as_deref(), Some("a"));
    assert!(to.is_none());
    assert!(should_stash(false, &vec![], &vec![]));
    assert!(!should_stash(true, &vec![], &vec![]));
    assert!(!should_stash(false, &vec!["x".to_string()], &vec![]));
    assert!(!should_stash(false, &vec![], &vec!["d".to_string()]));
    assert!(skip_recursive_post_checkout(Stage::PostCheckout, true));
    assert!(!skip_recursive_post_checkout(Stage::PostCheckout, false));
    assert!(!skip_recursive_post_checkout(Stage::PreCommit, true));
}

#[test]
fn env_vars_for_hooks() {
    let args = RunExtraArgs::default();
    let vars = env_vars_to_set(None, None, &args);
    assert_eq!(vars, vec![("PRE_COMMIT".to_string(), "1".to_string())]);

    let args = RunExtraArgs {
        remote_name: Some("origin".to_string()),
        is_squash_merge: true,
        rewrite_command: Some("amend".to_string()),
        ..Default::default()
    };
    let from = "abc".to_string();
    let to = "def".to_string();
    let vars = env_vars_to_set(Some(&from), Some(&to), &args);
    let expected: Vec<(String, String)> = [
        ("PRE_COMMIT", "1"),
        ("PRE_COMMIT_ORIGIN", "abc"),
        ("PRE_COMMIT_FROM_REF", "abc"),
        ("PRE_COMMIT_SOURCE", "def"),
        ("PRE_COMMIT_TO_REF", "def"),
        ("PRE_COMMIT_REMOTE_NAME", "origin"),
        ("PRE_COMMIT_SQUASH_MERGE", "1"),
        ("PRE_COMMIT_REWRITE_COMMAND", "amend"),
    ]
    .iter()
    .map(|(a, b)| (a.to_string(), b.to_string()))
    .collect();
    assert_eq!(vars, expected);
}

fn names(list: &[&str]) -> Vec<String> {
    list.iter().map(|s| s.to_string()).collect()
}

#[test]
fn status_printer_columns() {
    let p = StatusPrinter::for_hooks(&names(&["root", "sub/project"]), &names(&["ruff", "cargo fmt"]));
    assert_eq!(p.max_project_width, 11);
    assert_eq!(p.max_hook_width, 9);
    assert_eq!(p.project_section("root"), "root..........");
    assert_eq!(p.hook_section("cargo fmt"), "cargo fmt...");
    assert_eq!(p.formatted_prefix("root", "ruff"), "root..........ruff........");

    let empty = StatusPrinter::for_hooks(&vec![], &vec![]);
    assert_eq!(empty.max_project_width, 1);
    assert_eq!(empty.max_hook_width, 0);
    assert_eq!(empty.hook_section("long name"), "long name...");

    let cjk = StatusPrinter::for_hooks(&names(&["项目"]), &names(&["钩子"]));
    assert_eq!(cjk.max_project_width, 4);
    assert_eq!(cjk.max_hook_width, 4);
}

#[test]
fn status_printer_lines() {
    let mut p = StatusPrinter::for_hooks(&names(&["."]), &names(&["typos"]));
    p.write_passed(".", "typos");
    p.write_failed(".", "typos");
    p.write_dry_run(".", "typos");
    p.write_skipped(".", "typos", "(no files to check)", TextStyle { fg: AnsiColor::Black, bg: AnsiColor::Cyan });
    assert_eq!(p.lines.len(), 4);
    assert_eq!(p.lines[0].text, "....typos...\x1b[42mPassed\x1b[49m\n");
    assert!(!p.lines[0].important);
    assert_eq!(p.lines[1].text, "....typos...\x1b[41mFailed\x1b[49m\n");
    assert!(p.lines[1].important);
    assert_eq!(p.lines[2].text, "....typos...\x1b[43mDry Run\x1b[49m\n");
    assert_eq!(p.lines[3].text, "....typos...(no files to check)\x1b[30;46mSkipped\x1b[0m\n");
    assert!(!p.lines[3].important);
}

#[test]
fn environment_search() {
    let matches = vec![false, true, false, true];
    assert_eq!(next_match(&matches, 0), Some(1));
    assert_eq!(next_match(&matches, 2), Some(3));
    assert_eq!(next_match(&matches, 4), None);
    assert_eq!(next_match(&matches, 9), None);
    assert_eq!(next_match(&vec![false, false], 0), None);
}

#[test]
fn status_line_of_a_hook_that_ran() {
    let mut p = StatusPrinter::for_hooks(&names(&["app"]), &names(&["fmt", "clippy"]));
    p.write_result("app", "fmt", true, false);
    p.write_result("app", "fmt", false, true);
    p.write_result("app", "clippy", false, false);
    assert_eq!(p.lines[0].text, "app...fmt......\x1b[43mDry Run\x1b[49m\n");
    assert!(!p.lines[0].important);
    assert_eq!(p.lines[1].text, "app...fmt......\x1b[42mPassed\x1b[49m\n");
    assert!(!p.lines[1].important);
    assert_eq!(p.lines[2].text, "app...clippy...\x1b[41mFailed\x1b[49m\n");
    assert!(p.lines[2].important);
}

#[test]
fn groups_run_in_parallel_only_when_allowed_and_shared() {
    assert!(group_in_parallel(true, 2));
    assert!(!group_in_parallel(true, 1));
    assert!(!group_in_parallel(false, 3));
}

#[test]
fn environment_health_is_checked_once() {
    let mut env = LazyInstallInfo::new("/store/py-abc".to_string());
    assert_eq!(env.health(), None);
    assert!(!env.record_health(false));
    assert_eq!(env.health(), Some(false));
    assert!(!env.record_health(true));
    assert_eq!(env.health(), Some(false));
    assert_eq!(env.info(), "/store/py-abc");
    let mut healthy = LazyInstallInfo::new(7u32);
    assert!(healthy.record_health(true));
    assert!(healthy.record_health(false));
}

#[test]
fn skip_lines_of_hooks_that_did_not_run() {
    let mut p = StatusPrinter::for_hooks(&names(&["."]), &names(&["lint"]));
    let (reason, style) = skip_line(RunStatus::Skipped).unwrap();
    p.write_skipped(".", "lint", reason, style);
    let (reason, style) = skip_line(RunStatus::Unimplemented).unwrap();
    p.write_skipped(".", "lint", reason, style);
    assert_eq!(p.lines[0].text, "....lint...(no files to check)\x1b[30;46mSkipped\x1b[0m\n");
    assert_eq!(p.lines[1].text, "....lint...(unimplemented yet)\x1b[30;43mSkipped\x1b[0m\n");
    assert!(skip_line(RunStatus::Success).is_none());
    assert!(skip_line(RunStatus::Failed).is_none());
    let styled = owo_colors::OwoColorize::style(&"Skipped", owo_colors::Style::new().black().on_cyan()).to_string();
    assert_eq!(styled, "\x1b[30;46mSkipped\x1b[0m");
}

#[test]
fn no_group_runs_after_an_abort() {
    let mut totals = RunTotals::new();
    assert!(totals.runs_next_group());
    let ok = ProjectRunSummary { success: true, file_modified: false, has_unimplemented: false, abort: false };
    let aborted = ProjectRunSummary { success: false, file_modified: true, has_unimplemented: false, abort: true };
    totals.absorb(&ok);
    assert!(totals.runs_next_group());
    totals.absorb(&aborted);
    assert!(!totals.runs_next_group());
    totals.absorb(&ok);
    assert!(!totals.runs_next_group());
    assert!(!totals.success);
    assert_eq!(totals.exit_status(), ExitStatus::Failure);
}

#[test]
fn every_health_record_returns_the_first_outcome() {
    let mut env = LazyInstallInfo::new(());
    let outcomes = [true, false, false, true, false];
    for outcome in outcomes {
        assert!(env.record_health(outcome));
        assert_eq!(env.health(), Some(true));
    }
}

#[test]
fn environment_choice_for_a_hook() {
    // An earlier installed match wins, the first one.
    assert_eq!(
        next_install_step(&vec![false, true, true], &vec![(true, Some(true))]),
        InstallStep::UseEarlier(1)
    );
    // Otherwise stored matches in order, skipping the unhealthy ones.
    let stored = vec![(false, None), (true, Some(false)), (true, None), (true, Some(true))];
    assert_eq!(next_install_step(&vec![false], &stored), InstallStep::CheckStored(2));
    let stored = vec![(false, None), (true, Some(false)), (true, Some(true)), (true, None)];
    assert_eq!(next_install_step(&vec![], &stored), InstallStep::UseStored(2));
    // Nothing healthy matches: install.
    let stored = vec![(false, Some(true)), (true, Some(false))];
    assert_eq!(next_install_step(&vec![false, false], &stored), InstallStep::Install);
    assert_eq!(next_install_step(&vec![], &vec![]), InstallStep::Install);
}

#[test]
fn hooks_filtered_by_stage() {
    let stages = vec![
        vec![Stage::PreCommit, Stage::PrePush],
        vec![Stage::Manual],
        vec![Stage::PrePush],
    ];
    assert_eq!(hooks_at_stage(&stages, Stage::PrePush).unwrap(), vec![0, 2]);
    assert_eq!(hooks_at_stage(&stages, Stage::Manual).unwrap(), vec![1]);
    assert_eq!(
        hooks_at_stage(&stages, Stage::CommitMsg).unwrap_err(),
        "\x1b[1m\x1b[31merror\x1b[39m\x1b[0m: No hooks found for stage `\x1b[36mcommit-msg\x1b[39m` after filtering"
    );
    assert_eq!(
        hooks_at_stage(&vec![], Stage::PreCommit).unwrap_err(),
        "\x1b[1m\x1b[31merror\x1b[39m\x1b[0m: No hooks found after filtering with the given selectors"
    );
}

#[test]
fn serial_groups_stop_after_an_abort() {
    let mut totals = RunTotals::new();
    let aborted = ProjectRunSummary { success: false, file_modified: false, has_unimplemented: false, abort: true };
    assert!(totals.runs_next_project(false));
    totals.absorb(&aborted);
    assert!(!totals.runs_next_project(false));
    assert!(totals.runs_next_project(true));
}
