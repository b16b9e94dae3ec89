use quasar::init::{git_step, required_project_name, GitSetup, GitStep};

fn run_all(setup: GitSetup, fail_at: Option<usize>) -> (Vec<String>, bool) {
    let mut ran = Vec::new();
    let mut done = 0;
    let mut last_ok = true;
    loop {
        match git_step(setup, done, last_ok) {
            GitStep::Run(args) => {
                ran.push(args.join(" "));
                last_ok = fail_at != Some(done);
                done += 1;
            }
            GitStep::Finished(ok) => return (ran, ok),
        }
    }
}

#[test]
fn git_steps_run_init_add_and_commit() {
    let (ran, ok) = run_all(GitSetup::InitializeAndCommit, None);
    assert!(ok);
    assert_eq!(ran, vec!["init --quiet", "add .", "commit -am chore: initial commit --quiet"]);
}

#[test]
fn git_steps_can_skip_initial_commit() {
    let (ran, ok) = run_all(GitSetup::Initialize, None);
    assert!(ok);
    assert_eq!(ran, vec!["init --quiet"]);
}

#[test]
fn git_steps_stop_when_git_init_fails() {
    let (ran, ok) = run_all(GitSetup::InitializeAndCommit, Some(0));
    assert!(!ok);
    assert_eq!(ran, vec!["init --quiet"]);
    let (ran, ok) = run_all(GitSetup::InitializeAndCommit, Some(1));
    assert!(!ok);
    assert_eq!(ran, vec!["init --quiet", "add ."]);
}

#[test]
fn flags_need_a_project_name() {
    assert_eq!(required_project_name(Some("my-app")), Ok("my-app".to_string()));
    assert_eq!(
        required_project_name(None),
        Err("a project name is required when using flags\n  usage: quasar init <name> [--test-language ...] [--template ...]"
            .to_string())
    );
}
