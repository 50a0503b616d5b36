use hk::scheduler::{Action, Outcome, Scheduler};
use hk::step_depends::{resolve_depends, StepDepends};
use hk::step_group::build_groups;
use hk::step_queue::round_robin;

fn names(v: &[&str]) -> Vec<String> {
    v.iter().map(|s| s.to_string()).collect()
}

#[test]
fn exclusive_step_gets_its_own_group() {
    let (group_of, n) = build_groups(&vec![false, true, false]);
    assert_eq!(group_of, vec![0, 1, 2]);
    assert_eq!(n, 3);
    let (group_of, n) = build_groups(&vec![false, false, true, true, false, false]);
    assert_eq!(group_of, vec![0, 0, 1, 2, 3, 3]);
    assert_eq!(n, 4);
    let (group_of, n) = build_groups(&vec![]);
    assert!(group_of.is_empty());
    assert_eq!(n, 0);
}

#[test]
fn exclusive_boundary_runs_groups_in_order() {
    // par1, excl (exclusive), par2
    let (group_of, n) = build_groups(&vec![false, true, false]);
    let mut s = Scheduler::new(group_of, vec![vec![], vec![], vec![]], n, true).unwrap();
    assert_eq!(s.next_action(), Action::Start(0));
    assert_eq!(s.next_action(), Action::Wait);
    s.finished(0, true);
    assert_eq!(s.next_action(), Action::Start(1));
    assert_eq!(s.next_action(), Action::Wait);
    s.finished(1, true);
    assert_eq!(s.next_action(), Action::Start(2));
    s.finished(2, true);
    assert_eq!(s.next_action(), Action::Finish(Outcome::Success));
}

#[test]
fn steps_of_one_group_start_together() {
    let mut s = Scheduler::new(vec![0, 0, 0], vec![vec![], vec![], vec![]], 1, true).unwrap();
    assert_eq!(s.next_action(), Action::Start(0));
    assert_eq!(s.next_action(), Action::Start(1));
    assert_eq!(s.next_action(), Action::Start(2));
    assert_eq!(s.next_action(), Action::Wait);
}

#[test]
fn depends_orders_steps() {
    let group_of = vec![0, 0];
    let deps = resolve_depends(&names(&["A", "B"]), &group_of, &vec![vec![], names(&["A"])]).unwrap();
    assert_eq!(deps, vec![vec![], vec![0]]);
    let mut s = Scheduler::new(group_of, deps, 1, true).unwrap();
    assert_eq!(s.next_action(), Action::Start(0));
    assert_eq!(s.next_action(), Action::Wait);
    s.finished(0, true);
    assert_eq!(s.next_action(), Action::Start(1));
    s.finished(1, true);
    assert_eq!(s.next_action(), Action::Finish(Outcome::Success));
}

#[test]
fn failed_dependency_still_releases_dependents_without_fail_fast() {
    let mut s = Scheduler::new(vec![0, 0], vec![vec![], vec![0]], 1, false).unwrap();
    assert_eq!(s.next_action(), Action::Start(0));
    s.finished(0, false);
    assert_eq!(s.next_action(), Action::Start(1));
    s.finished(1, true);
    assert_eq!(s.next_action(), Action::Finish(Outcome::Failed(0)));
}

#[test]
fn unknown_dependency_is_a_config_error() {
    let r = resolve_depends(&names(&["A", "B"]), &vec![0, 0], &vec![vec![], names(&["C"])]);
    assert!(matches!(r, Err(hk::error::Error::UnknownDependency { .. })));
    // a step of another group does not count
    let r = resolve_depends(&names(&["A", "B"]), &vec![0, 1], &vec![vec![], names(&["A"])]);
    assert!(r.is_err());
}

#[test]
fn fail_fast_spawns_nothing_after_a_failure() {
    let mut s = Scheduler::new(vec![0, 0, 1], vec![vec![], vec![], vec![]], 2, true).unwrap();
    assert_eq!(s.next_action(), Action::Start(0));
    assert_eq!(s.next_action(), Action::Start(1));
    s.finished(0, false);
    assert!(s.cancelled);
    assert_eq!(s.next_action(), Action::Wait);
    s.finished(1, true);
    assert_eq!(s.next_action(), Action::Finish(Outcome::Failed(0)));
    assert_eq!(s.next_action(), Action::Finish(Outcome::Failed(0)));
}

#[test]
fn failed_group_stops_later_groups_without_fail_fast() {
    let mut s = Scheduler::new(vec![0, 0, 1], vec![vec![], vec![], vec![]], 2, false).unwrap();
    assert_eq!(s.next_action(), Action::Start(0));
    assert_eq!(s.next_action(), Action::Start(1));
    s.finished(1, false);
    assert!(!s.cancelled);
    s.finished(0, true);
    assert_eq!(s.next_action(), Action::Finish(Outcome::Failed(1)));
}

#[test]
fn interrupt_ends_the_run_once_running_steps_stop() {
    let mut s = Scheduler::new(vec![0, 1], vec![vec![], vec![]], 2, true).unwrap();
    assert_eq!(s.next_action(), Action::Start(0));
    s.cancel();
    assert_eq!(s.next_action(), Action::Wait);
    s.finished(0, true);
    assert_eq!(s.next_action(), Action::Finish(Outcome::Interrupted));
}

#[test]
fn dependency_cycle_is_blocked() {
    let mut s = Scheduler::new(vec![0, 0], vec![vec![1], vec![0]], 1, true).unwrap();
    assert_eq!(s.next_action(), Action::Finish(Outcome::Blocked));
}

#[test]
fn malformed_layout_is_refused() {
    assert!(Scheduler::new(vec![0, 1], vec![vec![1], vec![]], 2, true).is_none());
    assert!(Scheduler::new(vec![0, 3], vec![vec![], vec![]], 2, true).is_none());
    assert!(Scheduler::new(vec![0], vec![vec![5]], 1, true).is_none());
}

#[test]
fn jobs_are_queued_round_robin() {
    assert_eq!(round_robin(&vec![2, 0, 3]), vec![(0, 1), (2, 2), (0, 0), (2, 1), (2, 0)]);
    assert!(round_robin(&vec![]).is_empty());
    assert!(round_robin(&vec![0, 0]).is_empty());
}

#[test]
fn latches_are_marked_once_done() {
    let mut d = StepDepends::new(&names(&["A", "B"]));
    assert!(!d.is_done(&"A".to_string()));
    assert!(d.mark_done(&"A".to_string()).is_ok());
    assert!(d.is_done(&"A".to_string()));
    assert!(!d.is_done(&"B".to_string()));
    assert_eq!(d.mark_done(&"C".to_string()), Err(hk::error::Error::UnknownStep("C".to_string())));
}
