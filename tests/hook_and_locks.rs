use hk::env::{var_csv, var_false, var_true};
use hk::file_rw_locks::{lock_mode, FileRwLocks, LockMode};
use hk::git::parse_status;
use hk::hash::hash_to_str;
use hk::hook::{apply_excludes, can_exit_early, choose_file_source, choose_run_type, needs_restage, select_steps, should_run_job, FileSource};
use hk::run_type::{CheckType, RunType};
use hk::settings::Settings;
use hk::stash::{plan_stash, with_pop_result, Stash, StashKind, StashMethod, StashPlan};
use hk::step::{Script, Step};
use hk::step_context::{ProgressMessage, StepContext, StepStatus};
use hk::cache::{freshest_duration, is_fresh, split_file_name, CacheManagerBuilder};
use hk::version::{version_cmp, version_cmp_or_bail};

fn strs(v: &[&str]) -> Vec<String> {
    v.iter().map(|s| s.to_string()).collect()
}

fn checker(name: &str) -> Step {
    let mut s = Step::default();
    s.name = name.to_string();
    s.check = Some(Script::from_command("true".to_string()));
    s
}

#[test]
fn test_hash_to_str() {
    assert_eq!(hash_to_str(&"foo"), "e1b19adfb2e348a2");
}

#[test]
fn write_lock_excludes_everyone() {
    let files = strs(&["a.js", "b.js"]);
    let mut t = FileRwLocks::new(&files);
    assert!(t.try_write_locks(&files));
    assert!(!t.try_write_locks(&strs(&["a.js"])));
    assert!(!t.try_read_locks(&strs(&["b.js"])));
    t.release_write_locks(&files);
    assert!(t.try_read_locks(&strs(&["a.js"])));
    assert!(t.try_read_locks(&strs(&["a.js", "b.js"])));
    assert!(!t.try_write_locks(&strs(&["b.js"])));
    assert_eq!(t.readers, vec![2, 1]);
}

#[test]
fn locks_for_new_paths_come_last() {
    let mut t = FileRwLocks::new(&strs(&["b", "a"]));
    assert!(t.try_write_locks(&strs(&["c"])));
    assert_eq!(t.files(), strs(&["b", "a", "c"]));
    t.add_files(&strs(&["a", "d"]));
    assert_eq!(t.files(), strs(&["b", "a", "c", "d"]));
    assert_eq!(t.writer, vec![false, false, true, false]);
}

#[test]
fn skipped_steps_are_not_selected() {
    let mut lint = checker("lint");
    lint.profiles = Some(strs(&["slow"]));
    let steps = vec![checker("fmt"), checker("skipme"), lint, Step::default()];
    let run = RunType::Check(CheckType::Check);
    assert_eq!(select_steps(&steps, run, &vec![], &strs(&["skipme"]), &vec![], &vec![]), vec![0]);
    assert_eq!(select_steps(&steps, run, &vec![], &vec![], &strs(&["slow"]), &vec![]), vec![0, 1, 2]);
    assert_eq!(select_steps(&steps, run, &strs(&["lint"]), &vec![], &strs(&["slow"]), &vec![]), vec![2]);
    assert!(!should_run_job(false, Some(false)));
    assert!(!should_run_job(true, None));
    assert!(should_run_job(false, Some(true)));
    assert!(should_run_job(false, None));
}

#[test]
fn profiles_enable_and_disable() {
    let mut s = checker("x");
    s.profiles = Some(strs(&["a", "!b", "a"]));
    assert_eq!(s.enabled_profiles(), Some(strs(&["a"])));
    assert_eq!(s.disabled_profiles(), Some(strs(&["b"])));
    assert!(s.is_profile_enabled(&strs(&["a"]), &vec![]));
    assert!(!s.is_profile_enabled(&strs(&["a", "b"]), &vec![]));
    assert!(!s.is_profile_enabled(&vec![], &vec![]));
    assert!(!s.is_profile_enabled(&strs(&["a"]), &strs(&["a"])));
}

#[test]
fn settings_from_profiles() {
    let s = Settings::from_profiles(&strs(&["a", "!b", "b", "c", "!c"]), 4, true);
    assert_eq!(s.disabled_profiles, strs(&["b", "c"]));
    assert_eq!(s.enabled_profiles, strs(&["a"]));
    let mut s = s;
    s.with_profiles(&strs(&["b", "!a"]));
    assert_eq!(s.enabled_profiles, strs(&["a", "b"]));
    assert_eq!(s.disabled_profiles, strs(&["c", "a"]));
}

#[test]
fn run_type_choice() {
    let fix = "fix".to_string();
    let pre = "pre-commit".to_string();
    assert_eq!(choose_run_type(&fix, None, true, false), RunType::Fix);
    assert_eq!(choose_run_type(&fix, None, false, false), RunType::Check(CheckType::Check));
    assert_eq!(choose_run_type(&pre, None, true, false), RunType::Check(CheckType::Check));
    assert_eq!(choose_run_type(&pre, Some(true), true, false), RunType::Fix);
    assert_eq!(choose_run_type(&pre, None, false, true), RunType::Fix);
}

#[test]
fn file_source_precedence() {
    assert_eq!(choose_file_source(true, true, true, true, StashMethod::Git), FileSource::Explicit);
    assert_eq!(choose_file_source(false, true, true, true, StashMethod::Git), FileSource::Glob);
    assert_eq!(choose_file_source(false, false, true, true, StashMethod::Git), FileSource::BetweenRefs);
    assert_eq!(choose_file_source(false, false, false, true, StashMethod::Git), FileSource::All);
    assert_eq!(choose_file_source(false, false, false, false, StashMethod::Git), FileSource::Staged);
    assert_eq!(choose_file_source(false, false, false, false, StashMethod::Disabled), FileSource::Modified);
}

#[test]
fn excludes_remove_prefixes_and_globs() {
    let files = strs(&["src/a.rs", "srcx/b.rs", "vendor/c.rs", "d.md"]);
    let r = apply_excludes(&files, &strs(&["vendor"]), &Some(strs(&["*.md"]))).unwrap();
    assert_eq!(r, strs(&["src/a.rs", "srcx/b.rs"]));
    let r = apply_excludes(&files, &strs(&["src"]), &None).unwrap();
    assert_eq!(r, strs(&["srcx/b.rs", "vendor/c.rs", "d.md"]));
}

#[test]
fn early_exit_needs_every_step_jobless() {
    let mut globbed = checker("a");
    globbed.glob = Some(strs(&["*.rs"]));
    assert!(can_exit_early(&vec![globbed], RunType::Check(CheckType::Check)));
    assert!(!can_exit_early(&vec![checker("b")], RunType::Check(CheckType::Check)));
}

#[test]
fn stage_pattern_restages_after_fix() {
    let mut s = checker("w");
    s.fix = Some(Script::from_command("printf new > a.txt".to_string()));
    s.stage = Some(strs(&["a.txt"]));
    assert!(needs_restage(&s, RunType::Fix, false));
    assert!(!needs_restage(&s, RunType::Check(CheckType::Check), false));
    assert!(!needs_restage(&s, RunType::Fix, true));
}

#[test]
fn clean_worktree_stash_is_noop() {
    for m in [StashMethod::Git, StashMethod::PatchFile, StashMethod::Disabled] {
        assert_eq!(plan_stash(m, true, 0), StashPlan::Skip);
    }
    assert_eq!(plan_stash(StashMethod::PatchFile, true, 2), StashPlan::PatchFile);
    assert_eq!(plan_stash(StashMethod::Git, true, 2), StashPlan::GitStash);
    assert_eq!(plan_stash(StashMethod::Git, false, 2), StashPlan::Skip);
    let mut st = Stash::new();
    assert!(st.pop().is_none());
    st.record_patch(String::new(), "p".to_string());
    assert!(st.pop().is_none());
}

#[test]
fn interrupted_run_still_pops_stash() {
    let mut st = Stash::new();
    st.record_patch("diff --git".to_string(), "/tmp/x.patch".to_string());
    let saved = st.pop();
    assert_eq!(saved, Some(StashKind::PatchFile { patch: "diff --git".to_string(), path: "/tmp/x.patch".to_string() }));
    assert!(st.pop().is_none());
    let failed = Err(hk::error::Error::NoRunCommand("x".to_string()));
    let pop_failed = Err(hk::error::Error::Template("pop".to_string()));
    assert_eq!(with_pop_result(failed.clone(), pop_failed.clone()), failed);
    assert_eq!(with_pop_result(Ok(()), pop_failed.clone()), pop_failed);
    assert_eq!(with_pop_result(Ok(()), Ok(())), Ok(()));
}

#[test]
fn porcelain_status_is_parsed() {
    let out = "M  staged.rs\0 M unstaged.rs\0?? new.rs\0MM both.rs\0";
    let st = parse_status(out);
    assert_eq!(st.staged_files, strs(&["staged.rs", "both.rs"]));
    assert_eq!(st.unstaged_files, strs(&["unstaged.rs", "new.rs", "both.rs"]));
    assert_eq!(st.untracked_files, strs(&["new.rs"]));
    assert_eq!(st.modified_files, strs(&["staged.rs", "unstaged.rs", "both.rs"]));
}

#[test]
fn step_status_first_transition_wins() {
    let mut c = StepContext::new();
    c.status_started();
    assert_eq!(c.status, StepStatus::Started);
    c.status_finished();
    c.status_errored("late".to_string());
    c.status_aborted();
    assert_eq!(c.status, StepStatus::Finished);
    let mut c = StepContext::new();
    c.set_jobs_total(3);
    c.decrement_job_count();
    assert_eq!(c.progress_message(), ProgressMessage::JobOf(2, 3));
    let mut c = StepContext::new();
    c.add_files(1);
    assert_eq!(c.progress_message(), ProgressMessage::FilesModified(1));
}

#[test]
fn env_values() {
    assert!(var_true(Some("TRUE")));
    assert!(var_true(Some("1")));
    assert!(!var_true(Some("yes")));
    assert!(!var_true(None));
    assert!(var_false(Some("False")));
    assert!(var_false(Some("0")));
    assert_eq!(var_csv(Some(" lint , fmt,lint")), Some(strs(&["lint", "fmt"])));
    assert_eq!(var_csv(None), None);
}

#[test]
fn cache_file_names() {
    assert_eq!(split_file_name("a/b/config.json"), Some(("config".to_string(), "json".to_string())));
    assert_eq!(split_file_name("noext"), None);
    let b = CacheManagerBuilder::new("/c/configs/x.json").with_fresh_file("hk.toml".to_string());
    assert_eq!(b.fresh_files, strs(&["hk.toml"]));
    let key = b.cache_key();
    assert_eq!(key.len(), 5);
    assert_eq!(b.build_path(), Some(format!("/c/configs/x-{key}.json")));
    assert_eq!(freshest_duration(None, &vec![]), None);
    assert_eq!(freshest_duration(Some(100), &vec![50, 70]), Some(50));
    assert!(is_fresh(true, Some(10), Some(5)));
    assert!(!is_fresh(true, Some(10), Some(15)));
    assert!(!is_fresh(false, None, None));
}

#[test]
fn version_minimum() {
    assert_eq!(version_cmp("0.1.0").unwrap(), std::cmp::Ordering::Less);
    assert_eq!(version_cmp("1.0.0").unwrap(), std::cmp::Ordering::Equal);
    assert!(version_cmp("x").is_err());
    assert!(version_cmp_or_bail("99.0.0").is_err());
    assert!(version_cmp_or_bail("0.9.0").is_ok());
}

#[test]
fn patch_file_names() {
    assert_eq!(
        hk::stash::patch_file_for("/s", "/home/u/proj", "2024-01-02", 1234567890),
        "/s/patches/u-2024-01-02-12345678.patch"
    );
    assert_eq!(hk::stash::patch_file_for("/s", "/home/u/proj", "d", 7), "/s/patches/u-d-7.patch");
    let p = hk::stash::patch_file("/s", "/home/u/proj");
    assert!(p.starts_with("/s/patches/u-"));
    assert!(p.ends_with(".patch"));
}

#[test]
fn two_steps_on_same_files_take_turns() {
    // fmt fixes *.js, lint only checks them; in a fix run both take write locks
    let mut fmt = checker("fmt");
    fmt.fix = Some(Script::from_command("touch {{files}}".to_string()));
    fmt.glob = Some(strs(&["*.js"]));
    let mut lint = checker("lint");
    lint.glob = Some(strs(&["*.js"]));
    let files = strs(&["a.js", "b.js"]);
    let fmt_jobs = fmt.build_step_jobs(&fmt.filter_files(&files).unwrap(), RunType::Fix, &vec![], 4, true, &vec![]);
    let lint_jobs = lint.build_step_jobs(&lint.filter_files(&files).unwrap(), RunType::Fix, &vec![], 4, true, &vec![]);
    assert_eq!(fmt_jobs[0].files, files);
    assert_eq!(lint_jobs[0].files, files);
    let mut t = FileRwLocks::new(&files);
    assert!(t.try_write_locks(&fmt_jobs[0].files));
    assert!(!t.try_write_locks(&lint_jobs[0].files));
    t.release_write_locks(&fmt_jobs[0].files);
    assert!(t.try_write_locks(&lint_jobs[0].files));
}

#[test]
fn lock_modes() {
    assert_eq!(lock_mode(true, RunType::Fix), LockMode::Unlocked);
    assert_eq!(lock_mode(false, RunType::Fix), LockMode::Exclusive);
    assert_eq!(lock_mode(false, RunType::Check(CheckType::Diff)), LockMode::Shared);
}
