use hk::commands::{pushed_refs, CommitMsg, HookOptions, PrePush, PrepareCommitMsg};

const ZERO: &str = "0000000000000000000000000000000000000000";

#[test]
fn pre_push_refs_come_from_stdin() {
    let input = format!("refs/heads/main abc refs/heads/main {ZERO}\nrefs/heads/x {ZERO} refs/heads/x def\n\nshort line\n");
    let refs = pushed_refs(&input);
    assert_eq!(refs.len(), 1);
    assert_eq!(refs[0].from_sha, "def");
    let (name, opts) = PrePush { remote: None, url: None, hook: HookOptions::new() }.invocation(&refs, None);
    assert_eq!(name, "pre-push");
    assert_eq!(opts.from_ref, Some("def".to_string()));
    assert_eq!(opts.to_ref, Some(ZERO.to_string()));
}

#[test]
fn pre_push_falls_back_to_remote_head() {
    let (_, opts) = PrePush { remote: Some("up".to_string()), url: None, hook: HookOptions::new() }.invocation(&vec![], None);
    assert_eq!(opts.from_ref, Some("refs/remotes/up/HEAD".to_string()));
    assert_eq!(opts.to_ref, Some("HEAD".to_string()));
    let (_, opts) = PrePush { remote: None, url: None, hook: HookOptions::new() }.invocation(&vec![], Some("main".to_string()));
    assert_eq!(opts.from_ref, Some("main".to_string()));
}

#[test]
fn commit_msg_file_reaches_templates() {
    let (name, opts) = CommitMsg { commit_msg_file: ".git/COMMIT_EDITMSG".to_string(), hook: HookOptions::new() }.invocation();
    assert_eq!(name, "commit-msg");
    assert_eq!(opts.tctx.text, vec![("commit_msg_file".to_string(), ".git/COMMIT_EDITMSG".to_string())]);
    let (name, opts) = PrepareCommitMsg {
        commit_msg_file: "m".to_string(),
        source: Some("message".to_string()),
        sha: None,
        hook: HookOptions::new(),
    }
    .invocation();
    assert_eq!(name, "prepare-commit-msg");
    assert_eq!(opts.tctx.text.len(), 2);
}
