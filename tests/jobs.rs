use hk::check_first::{after_check, narrow_files, unlisted, CheckOutcome};
use hk::glob::get_matches;
use hk::run_type::{CheckType, RunType};
use hk::step::{script_error, Platform, Script, Step};
use hk::step_group::files_in_contention;
use hk::step_job::{StepJob, StepJobStatus};
use hk::template::{render, sh_quote_exec, Context};

fn strs(v: &[&str]) -> Vec<String> {
    v.iter().map(|s| s.to_string()).collect()
}

fn script(s: &str) -> Option<Script> {
    Some(Script::from_command(s.to_string()))
}

fn text(s: Option<&Script>) -> Option<String> {
    s.map(|s| s.text(Platform::Linux))
}

#[test]
fn run_cmd_falls_back_through_checks() {
    let mut step = Step::default();
    step.check_list_files = script("list");
    assert_eq!(text(step.run_cmd(RunType::Fix)), Some("list".to_string()));
    assert_eq!(text(step.run_cmd(RunType::Check(CheckType::Diff))), Some("list".to_string()));
    step.check = script("check");
    assert_eq!(text(step.run_cmd(RunType::Check(CheckType::ListFiles))), Some("list".to_string()));
    assert_eq!(text(step.run_cmd(RunType::Check(CheckType::Diff))), Some("check".to_string()));
    step.fix = script("fix");
    assert_eq!(text(step.run_cmd(RunType::Fix)), Some("fix".to_string()));
    assert!(Step::default().run_cmd(RunType::Fix).is_none());
}

#[test]
fn check_type_prefers_diff_then_list() {
    let mut step = Step::default();
    assert_eq!(step.check_type(), CheckType::Check);
    step.check_list_files = script("l");
    assert_eq!(step.check_type(), CheckType::ListFiles);
    step.check_diff = script("d");
    assert_eq!(step.check_type(), CheckType::Diff);
}

#[test]
fn script_text_per_platform() {
    let s = Script { linux: Some("l".to_string()), macos: None, windows: None, other: Some("o".to_string()) };
    assert_eq!(s.text(Platform::Linux), "l");
    assert_eq!(s.text(Platform::Macos), "o");
}

#[test]
fn glob_matches_in_order() {
    let files = strs(&["a.js", "b.py", "c.js"]);
    assert_eq!(get_matches(&strs(&["*.js"]), &files).unwrap(), strs(&["a.js", "c.js"]));
    assert_eq!(get_matches(&strs(&["*.{js,py}"]), &files).unwrap(), files);
    assert!(get_matches(&vec![], &files).unwrap().is_empty());
    assert!(matches!(get_matches(&strs(&["a[b"]), &files), Err(hk::error::Error::InvalidGlob(_))));
}

#[test]
fn filter_files_applies_dir_glob_exclude() {
    let mut step = Step::default();
    step.dir = Some("web".to_string());
    step.glob = Some(strs(&["*.js"]));
    step.exclude = Some(strs(&["vendor/*"]));
    let files = strs(&["web/a.js", "web/vendor/b.js", "webby/c.js", "web/d.css", "e.js"]);
    assert_eq!(step.filter_files(&files).unwrap(), strs(&["a.js"]));
}

#[test]
fn batch_jobs_split_into_chunks() {
    let mut step = Step::default();
    step.check = script("true");
    step.batch = true;
    let files = strs(&["a", "b", "c", "d", "e"]);
    let jobs = step.build_step_jobs(&files, RunType::Check(CheckType::Check), &vec![], 2, true, &vec![]);
    let got: Vec<Vec<String>> = jobs.iter().map(|j| j.files.clone()).collect();
    assert_eq!(got, vec![strs(&["a", "b"]), strs(&["c", "d"]), strs(&["e"])]);
    let jobs = step.build_step_jobs(&files, RunType::Check(CheckType::Check), &vec![], 10, true, &vec![]);
    assert_eq!(jobs.len(), 5);
}

#[test]
fn workspace_jobs_cover_their_directories() {
    let mut step = Step::default();
    step.check = script("cargo check");
    step.workspace_indicator = Some("Cargo.toml".to_string());
    let files = strs(&["c1/src/lib.rs", "c2/src/lib.rs", "c1/src/x.rs"]);
    let inds = vec![Some("c1/Cargo.toml".to_string()), Some("c2/Cargo.toml".to_string()), Some("c1/Cargo.toml".to_string())];
    let jobs = step.build_step_jobs(&files, RunType::Check(CheckType::Check), &vec![], 4, true, &inds);
    assert_eq!(jobs.len(), 2);
    assert_eq!(jobs[0].files, strs(&["c1/src/lib.rs", "c1/src/x.rs"]));
    assert_eq!(jobs[0].workspace_indicator, Some("c1/Cargo.toml".to_string()));
    assert_eq!(jobs[1].files, strs(&["c2/src/lib.rs"]));
}

#[test]
fn step_without_matches_gets_no_job() {
    let mut step = Step::default();
    step.check = script("true");
    step.glob = Some(strs(&["*.rs"]));
    let files = step.filter_files(&strs(&["a.js"])).unwrap();
    assert!(step.build_step_jobs(&files, RunType::Check(CheckType::Check), &vec![], 4, true, &vec![]).is_empty());
    let plain = {
        let mut s = Step::default();
        s.check = script("true");
        s
    };
    assert_eq!(plain.build_step_jobs(&vec![], RunType::Check(CheckType::Check), &vec![], 4, true, &vec![]).len(), 1);
}

fn py_fixer(name: &str, check_first: bool) -> Step {
    let mut s = Step::default();
    s.name = name.to_string();
    s.fix = script("echo mutated > {{files}}");
    s.check = script("true");
    s.glob = Some(strs(&["*.py"]));
    s.check_first = check_first;
    s
}

#[test]
fn check_first_avoids_fixer() {
    let steps = vec![py_fixer("A", true), py_fixer("B", false)];
    let files = strs(&["x.py"]);
    let contention = files_in_contention(&steps, &vec![0, 0], 0, &files, RunType::Fix).unwrap();
    assert_eq!(contention, files);
    let a = &steps[0];
    let jobs = a.build_step_jobs(&files, RunType::Fix, &contention, 4, true, &vec![]);
    assert_eq!(jobs.len(), 1);
    let mut job = jobs.into_iter().next().unwrap();
    assert!(job.check_first);
    assert_eq!(a.first_run_type(&job), RunType::Check(CheckType::Check));
    let before = job.files.clone();
    assert!(!after_check(&mut job, CheckOutcome::Passed, &before, &vec![]));
    assert_eq!(job.files, before);
}

#[test]
fn check_first_cleared_without_contention() {
    let steps = vec![py_fixer("A", true)];
    let files = strs(&["x.py"]);
    let contention = files_in_contention(&steps, &vec![0], 0, &files, RunType::Fix).unwrap();
    assert!(contention.is_empty());
    let jobs = steps[0].build_step_jobs(&files, RunType::Fix, &contention, 4, true, &vec![]);
    assert!(!jobs[0].check_first);
    // disabled in the environment
    let jobs = steps[0].build_step_jobs(&files, RunType::Fix, &files, 4, false, &vec![]);
    assert!(!jobs[0].check_first);
}

#[test]
fn contention_is_empty_in_check_runs() {
    let steps = vec![py_fixer("A", true), py_fixer("B", false)];
    let files = strs(&["x.py"]);
    assert!(files_in_contention(&steps, &vec![0, 0], 0, &files, RunType::Check(CheckType::Check)).unwrap().is_empty());
}

#[test]
fn check_first_narrowing_keeps_listed_files() {
    let files = strs(&["a.py", "b.py", "c.py"]);
    let canonical = strs(&["/r/a.py", "/r/b.py", "/r/c.py"]);
    let listed = strs(&["/r/c.py", "/r/zz.py", "/r/a.py"]);
    assert_eq!(narrow_files(&files, &canonical, &listed), strs(&["a.py", "c.py"]));
    assert_eq!(unlisted(&canonical, &listed), strs(&["/r/zz.py"]));
    let mut job = StepJob::new(files.clone(), RunType::Fix, true);
    assert!(after_check(&mut job, CheckOutcome::ListFailed, &canonical, &listed));
    assert_eq!(job.files, strs(&["a.py", "c.py"]));
    assert_eq!(job.run_type, RunType::Fix);
    let mut job = StepJob::new(files.clone(), RunType::Fix, true);
    assert!(after_check(&mut job, CheckOutcome::Failed, &canonical, &listed));
    assert_eq!(job.files, files);
}

#[test]
fn list_files_failure_reports_stdout() {
    let e = script_error(RunType::Check(CheckType::ListFiles), "cmd".to_string(), "a.py\n".to_string(), "out".to_string());
    assert_eq!(e, hk::error::Error::CheckListFailed { stdout: "a.py\n".to_string() });
    let e = script_error(RunType::Fix, "cmd".to_string(), "".to_string(), "out".to_string());
    assert_eq!(e, hk::error::Error::ScriptFailed { command: "cmd".to_string(), output: "out".to_string() });
}

#[test]
fn job_status_transitions() {
    let mut job = StepJob::new(vec![], RunType::Fix, false);
    assert_eq!(job.status, StepJobStatus::Pending);
    job.status_start();
    job.status_start();
    assert_eq!(job.status, StepJobStatus::Started);
    job.status_finished();
    assert_eq!(job.status, StepJobStatus::Finished);
    let mut job = StepJob::new(vec![], RunType::Fix, false);
    job.status_errored("boom".to_string());
    assert_eq!(job.status, StepJobStatus::Errored("boom".to_string()));
}

#[test]
fn command_has_prefix_and_shell() {
    let mut step = Step::default();
    step.name = "fmt".to_string();
    step.check = script("prettier --check {{files}}");
    step.prefix = Some("mise x --".to_string());
    assert_eq!(step.command(RunType::Check(CheckType::Check), Platform::Linux).unwrap(), "mise x -- prettier --check {{files}}");
    assert_eq!(step.shell_argv(Platform::Linux), strs(&["sh", "-o", "errexit", "-c"]));
    step.shell = script("  bash   -euo pipefail -c ");
    assert_eq!(step.shell_argv(Platform::Linux), strs(&["bash", "-euo", "pipefail", "-c"]));
    let none = Step::default();
    assert!(matches!(none.command(RunType::Fix, Platform::Linux), Err(hk::error::Error::NoRunCommand(_))));
}

#[test]
fn files_are_quoted_for_the_shell() {
    assert_eq!(sh_quote_exec("src/a.rs"), "src/a.rs");
    assert_eq!(sh_quote_exec("my file"), "'my file'");
    assert_eq!(sh_quote_exec("it's"), "'it'\\''s'");
    assert_eq!(sh_quote_exec(""), "''");
}

#[test]
fn job_context_renders_files_and_workspace() {
    let mut step = Step::default();
    step.glob = Some(strs(&["*.rs", "*.toml"]));
    let mut job = StepJob::new(strs(&["c1/a b.rs", "c1/c.rs"]), RunType::Fix, false);
    job.workspace_indicator = Some("c1/Cargo.toml".to_string());
    let ctx = step.job_context(&job, &Context::new());
    let out = render("{{files}}|{{globs}}|{{workspace}}|{{workspace_indicator}}", &ctx).unwrap();
    assert_eq!(out, "'c1/a b.rs' c1/c.rs|*.rs *.toml|c1|c1/Cargo.toml");
    assert!(matches!(render("{{ nope", &ctx), Err(hk::error::Error::Template(_))));
}
