use sandbox::e2e::label::{build_spec, parse_label};
use sandbox::e2e::run::{
    run_spec, Action, Answer, E2eRun, Report, Stage, DEFAULT_IMAGE, STATUS_POLL_ATTEMPTS,
    STATUS_POLL_INTERVAL_SECS,
};
use sandbox::error::SandboxError;
use sandbox::types::{ImageRef, SandboxId, SandboxState};

fn id() -> SandboxId {
    SandboxId::new("sandbox-1")
}

fn general(text: &str) -> SandboxError {
    SandboxError::General(text.to_string())
}

/// Runs against a cluster that behaves, but whose status answer is `Running` only from the
/// `running_after`th question on, and collects the reports.
fn run(running_after: u32) -> (bool, Vec<Report>) {
    let mut state = E2eRun::start();
    let mut reports = Vec::new();
    let mut asked = 0;
    let mut destroyed = false;
    loop {
        let answer = match state.action() {
            Action::Create => Answer::Created(Ok(id())),
            Action::Status => {
                asked += 1;
                if destroyed {
                    Answer::Status(Err(SandboxError::NotFound(id())))
                } else if asked > running_after {
                    Answer::Status(Ok(SandboxState::Running))
                } else {
                    Answer::Status(Ok(SandboxState::Creating))
                }
            }
            Action::Wait => Answer::Waited,
            Action::List => Answer::Listed(Ok(vec![SandboxId::new("other"), id()])),
            Action::Stop => Answer::Stopped(Err(general("stop is not supported"))),
            Action::Destroy => {
                destroyed = true;
                Answer::Destroyed(Ok(()))
            }
            Action::Finish { passed } => return (passed, reports),
        };
        assert!(state.accepts(&answer));
        let (next, report) = state.step(answer);
        state = next;
        reports.extend(report);
    }
}

#[test]
fn labels_are_split_at_the_first_equals_sign() {
    assert_eq!(parse_label("a=b"), Ok(("a".to_string(), "b".to_string())));
    assert_eq!(parse_label("a=b=c"), Ok(("a".to_string(), "b=c".to_string())));
    assert_eq!(parse_label("="), Ok((String::new(), String::new())));
    assert_eq!(
        parse_label("nope"),
        Err("label 'nope' must be in key=value form".to_string())
    );
}

#[test]
fn the_spec_of_a_run_asks_for_nothing_it_does_not_need() {
    let labels = vec![
        ("a".to_string(), "1".to_string()),
        ("a".to_string(), "2".to_string()),
    ];
    let spec = build_spec(DEFAULT_IMAGE.to_string(), 128, 250, 300, labels);
    assert!(spec.image == ImageRef::Tag("registry.k8s.io/pause:3.9".to_string()));
    assert_eq!(spec.resources.memory_mb, 128);
    assert_eq!(spec.resources.cpu_millis, 250);
    assert_eq!(spec.resources.disk_mb, 0);
    assert_eq!(spec.resources.max_pids, 0);
    assert_eq!(spec.env.vars.len(), 0);
    assert_eq!(spec.env.secrets.len(), 0);
    assert_eq!(spec.deadline.secs, 300);
    assert_eq!(spec.labels.len(), 1);
    assert_eq!(spec.labels.get("a"), Some(&"2".to_string()));
}

#[test]
fn a_run_creates_a_small_sandbox() {
    let spec = run_spec("busybox:latest".to_string());
    assert!(spec.image == ImageRef::Tag("busybox:latest".to_string()));
    assert_eq!(spec.resources.memory_mb, 64);
    assert_eq!(spec.resources.cpu_millis, 100);
    assert_eq!(spec.resources.disk_mb, 0);
    assert_eq!(spec.resources.max_pids, 0);
    assert_eq!(spec.deadline.secs, 300);
    assert_eq!(spec.labels.len(), 0);
}

#[test]
fn a_run_cleans_up_whatever_is_answered() {
    let mut state = E2eRun::start();
    let (mut created, mut asked, mut listed, mut stopped, mut destroyed) = (0, 0, 0, 0, 0);
    loop {
        let answer = match state.action() {
            Action::Create => {
                created += 1;
                Answer::Created(Ok(id()))
            }
            Action::Status => {
                asked += 1;
                Answer::Status(Ok(SandboxState::Creating))
            }
            Action::Wait => Answer::Waited,
            Action::List => {
                listed += 1;
                Answer::Listed(Err(general("x")))
            }
            Action::Stop => {
                stopped += 1;
                Answer::Stopped(Ok(()))
            }
            Action::Destroy => {
                destroyed += 1;
                Answer::Destroyed(Err(general("x")))
            }
            Action::Finish { passed } => {
                assert!(!passed);
                break;
            }
        };
        state = state.step(answer).0;
    }
    assert_eq!((created, asked, listed, stopped, destroyed), (1, 32, 1, 1, 2));
}

#[test]
fn a_run_against_a_good_backend_passes() {
    let (passed, reports) = run(2);
    assert!(passed);
    assert!(reports.iter().all(|report| report.ok));
    let names: Vec<&str> = reports.iter().map(|report| report.name.as_str()).collect();
    assert_eq!(
        names,
        vec![
            "create",
            "status (poll to Running)",
            "list (contains created id)",
            "stop (expected unsupported)",
            "status (unaffected by stop)",
            "destroy",
            "status (NotFound after destroy)",
            "destroy (idempotent)",
        ]
    );
    assert_eq!(reports[0].line(), "[PASS] create: sandbox-1");
}

#[test]
fn a_sandbox_that_never_runs_is_destroyed_all_the_same() {
    assert_eq!(STATUS_POLL_ATTEMPTS, 30);
    assert_eq!(STATUS_POLL_INTERVAL_SECS, 1);
    let (late, _) = run(29);
    assert!(late);
    let (passed, reports) = run(1000);
    assert!(!passed);
    assert_eq!(
        reports[1].line(),
        "[FAIL] status (poll to Running): timed out before Running"
    );
    assert_eq!(reports.len(), 8);
    assert_eq!(reports[5].name, "destroy");
}

#[test]
fn a_failed_creation_ends_the_run() {
    let (next, report) = E2eRun::start().step(Answer::Created(Err(general("no"))));
    assert!(next == E2eRun::Finished { passed: false });
    assert_eq!(report.unwrap().line(), "[FAIL] create: backend error: no");
    assert!(next.id().is_none());
}

#[test]
fn every_unexpected_answer_fails_the_run() {
    let stages: Vec<(Stage, Answer)> = vec![
        (Stage::Polling { attempts: 0 }, Answer::Status(Err(general("x")))),
        (Stage::Listing, Answer::Listed(Ok(Vec::new()))),
        (Stage::Listing, Answer::Listed(Err(general("x")))),
        (Stage::Stopping, Answer::Stopped(Ok(()))),
        (Stage::CheckingAfterStop, Answer::Status(Err(general("x")))),
        (Stage::Destroying, Answer::Destroyed(Err(general("x")))),
        (Stage::CheckingAfterDestroy, Answer::Status(Ok(SandboxState::Stopping))),
        (Stage::CheckingAfterDestroy, Answer::Status(Err(general("x")))),
        (Stage::DestroyingAgain, Answer::Destroyed(Err(general("x")))),
    ];
    for (stage, answer) in stages {
        let state = E2eRun::Living { id: id(), stage, all_passed: true };
        assert!(state.accepts(&answer));
        let (next, report) = state.step(answer);
        assert!(!report.unwrap().ok);
        match next {
            E2eRun::Living { all_passed, .. } => assert!(!all_passed),
            E2eRun::Finished { passed } => assert!(!passed),
            E2eRun::Creating => panic!("a run does not start again"),
        }
    }
}

#[test]
fn a_failure_is_not_forgotten() {
    let state = E2eRun::Living { id: id(), stage: Stage::DestroyingAgain, all_passed: false };
    assert!(state.id().unwrap().same(&id()));
    assert!(!state.accepts(&Answer::Waited));
    let (next, report) = state.step(Answer::Destroyed(Ok(())));
    assert!(report.unwrap().ok);
    assert_eq!(next.action(), Action::Finish { passed: false });
}
