use sandbox::error::SandboxError;
use sandbox::k8s::backend::{
    create_result, destroy_result, list_result, list_selector, map_kube_err, phase_to_state,
    status_result, stop_result, CreateOutcome, KubeError, PodObservation,
    DESTROY_GRACE_PERIOD_SECONDS,
};
use sandbox::types::{SandboxId, SandboxState};

fn api_error(code: u16, message: &str, reason: &str) -> KubeError {
    let err = kube::Error::Api(Box::new(kube::core::Status {
        code,
        message: message.to_string(),
        reason: reason.to_string(),
        ..Default::default()
    }));
    let text = err.to_string();
    match err {
        kube::Error::Api(status) => KubeError::Api { code: status.code, text },
        _ => KubeError::Other { text },
    }
}

fn other_error() -> KubeError {
    KubeError::Other { text: "connection refused".to_string() }
}

#[test]
fn maps_404_to_not_found() {
    let id = SandboxId::new("missing");
    let err = api_error(404, "not found", "NotFound");
    assert!(matches!(map_kube_err(&id, err), SandboxError::NotFound(_)));
}

#[test]
fn maps_other_errors_to_general() {
    let id = SandboxId::new("whatever");
    let err = api_error(500, "boom", "InternalError");
    assert!(matches!(map_kube_err(&id, err), SandboxError::General(_)));
}

#[test]
fn phase_mapping() {
    assert_eq!(phase_to_state(Some("Pending"), false), SandboxState::Creating);
    assert_eq!(phase_to_state(Some("Running"), false), SandboxState::Running);
    assert_eq!(phase_to_state(Some("Succeeded"), false), SandboxState::Stopped);
    assert_eq!(phase_to_state(Some("Failed"), false), SandboxState::Failed);
    assert_eq!(phase_to_state(Some("Running"), true), SandboxState::Stopping);
    assert_eq!(phase_to_state(None, false), SandboxState::Failed);
}

#[test]
fn unknown_and_differently_spelled_phases_are_failures() {
    assert_eq!(phase_to_state(Some("Unknown"), false), SandboxState::Failed);
    assert_eq!(phase_to_state(Some("running"), false), SandboxState::Failed);
    assert_eq!(phase_to_state(Some(""), false), SandboxState::Failed);
    assert_eq!(phase_to_state(None, true), SandboxState::Stopping);
}

#[test]
fn the_missing_sandbox_is_the_one_asked_for() {
    let id = SandboxId::new("missing");
    match map_kube_err(&id, api_error(404, "not found", "NotFound")) {
        SandboxError::NotFound(missing) => assert!(missing.same(&id)),
        other => panic!("{:?}", other),
    }
}

#[test]
fn other_errors_keep_their_text() {
    let id = SandboxId::new("whatever");
    match map_kube_err(&id, other_error()) {
        SandboxError::General(text) => assert_eq!(text, "connection refused"),
        other => panic!("{:?}", other),
    }
    match map_kube_err(&id, api_error(500, "boom", "InternalError")) {
        SandboxError::General(text) => assert!(text.starts_with("ApiError: boom: InternalError")),
        other => panic!("{:?}", other),
    }
}

#[test]
fn creating_gives_the_name_of_the_pod() {
    let r = create_result("sandbox-1".to_string(), CreateOutcome::Answered(Ok(())));
    assert_eq!(r.unwrap().as_str(), "sandbox-1");
}

#[test]
fn a_cancelled_or_failed_creation_is_an_error() {
    let r = create_result("sandbox-1".to_string(), CreateOutcome::Cancelled);
    match r {
        Err(SandboxError::General(text)) => assert_eq!(text, "create cancelled"),
        other => panic!("{:?}", other),
    }
    let failed = create_result("sandbox-1".to_string(), CreateOutcome::Answered(Err(other_error())));
    match failed {
        Err(SandboxError::General(text)) => assert_eq!(text, "connection refused"),
        other => panic!("{:?}", other),
    }
}

#[test]
fn stopping_a_pod_is_not_supported() {
    match stop_result() {
        Err(SandboxError::General(text)) => {
            assert_eq!(text, "stop is not supported: k8s pods cannot be paused/resumed");
        }
        other => panic!("{:?}", other),
    }
}

#[test]
fn destroying_a_pod_that_is_gone_succeeds() {
    assert_eq!(DESTROY_GRACE_PERIOD_SECONDS, 0);
    assert!(destroy_result(Ok(())).is_ok());
    assert!(destroy_result(Err(api_error(404, "not found", "NotFound"))).is_ok());
    match destroy_result(Err(other_error())) {
        Err(SandboxError::General(text)) => assert_eq!(text, "connection refused"),
        other => panic!("{:?}", other),
    }
}

#[test]
fn status_follows_the_pod() {
    let id = SandboxId::new("sandbox-1");
    let running = PodObservation { phase: Some("Running".to_string()), terminating: false };
    assert_eq!(status_result(&id, Ok(running)).unwrap(), SandboxState::Running);
    let leaving = PodObservation { phase: Some("Running".to_string()), terminating: true };
    assert_eq!(status_result(&id, Ok(leaving)).unwrap(), SandboxState::Stopping);
    let bare = PodObservation { phase: None, terminating: false };
    assert_eq!(status_result(&id, Ok(bare)).unwrap(), SandboxState::Failed);
    assert!(matches!(
        status_result(&id, Err(api_error(404, "not found", "NotFound"))),
        Err(SandboxError::NotFound(_))
    ));
}

#[test]
fn listing_keeps_the_order_and_skips_pods_without_a_name() {
    let names = vec![Some("b".to_string()), None, Some("a".to_string())];
    let ids = list_result(Ok(names)).unwrap();
    assert_eq!(ids.len(), 2);
    assert_eq!(ids[0].as_str(), "b");
    assert_eq!(ids[1].as_str(), "a");
    assert!(list_result(Err(other_error())).is_err());
    assert_eq!(list_selector(), "mimamsa.dev/managed-by=sandbox-agent-k8s");
}

#[test]
fn errors_are_written_out() {
    assert_eq!(
        SandboxError::NotFound(SandboxId::new("x")).to_string(),
        "sandbox not found: x"
    );
    assert_eq!(SandboxError::General("y".to_string()).to_string(), "backend error: y");
}
