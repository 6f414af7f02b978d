use sandbox::k8s::pod::{
    build_named_pod, build_pod, Quantity, MANAGED_BY_LABEL, MANAGED_BY_VALUE,
};
use sandbox::string_map::StringMap;
use sandbox::types::{
    Deadline, ImageRef, SandboxEnv, SandboxImageDigest, SandboxResources, SandboxSpec,
    SandboxStorage,
};

fn minimal_spec() -> SandboxSpec {
    let mut vars = StringMap::new();
    vars.insert("FOO".to_string(), "bar".to_string());

    let mut labels = StringMap::new();
    labels.insert("team".to_string(), "agents".to_string());

    SandboxSpec {
        image: ImageRef::Tag("busybox:latest".to_string()),
        resources: SandboxResources {
            memory_mb: 256,
            cpu_millis: 500,
            disk_mb: 1024,
            max_pids: 64,
        },
        env: SandboxEnv {
            vars,
            secrets: StringMap::new(),
        },
        storage: SandboxStorage {
            workspace_mb: 0,
            seed: Vec::new(),
            state_volume: None,
        },
        deadline: Deadline::from_secs(120),
        labels,
    }
}

#[test]
fn sets_managed_by_label_alongside_spec_labels() {
    let pod = build_pod(&minimal_spec());
    let labels = pod.metadata.labels.expect("labels set");
    assert_eq!(labels.get(MANAGED_BY_LABEL), Some(&MANAGED_BY_VALUE.to_string()));
    assert_eq!(labels.get("team"), Some(&"agents".to_string()));
}

#[test]
fn maps_image_env_and_deadline() {
    let pod = build_pod(&minimal_spec());
    let pod_spec = pod.spec.expect("pod spec set");
    let container = &pod_spec.containers[0];

    assert_eq!(container.image.as_deref(), Some("busybox:latest"));
    assert_eq!(pod_spec.active_deadline_seconds, Some(120));
    assert_eq!(pod_spec.restart_policy.as_deref(), Some("Never"));

    let env = container.env.as_ref().expect("env set");
    assert!(env.iter().any(|e| e.name == "FOO" && e.value.as_deref() == Some("bar")));
}

#[test]
fn maps_cpu_and_memory_resources() {
    let pod = build_pod(&minimal_spec());
    let container = &pod.spec.unwrap().containers[0];
    let resources = container.resources.as_ref().expect("resources set");
    let requests = resources.requests.as_ref().expect("requests set");

    assert!(requests.get("memory") == Some(&Quantity("256Mi".to_string())));
    assert!(requests.get("cpu") == Some(&Quantity("500m".to_string())));
}

#[test]
fn generates_unique_names() {
    let spec = minimal_spec();
    let a = build_pod(&spec);
    let b = build_pod(&spec);
    assert_ne!(a.metadata.name, b.metadata.name);
    assert!(a.metadata.name.unwrap().starts_with("sandbox-"));
}

#[test]
fn the_name_ends_in_a_random_identifier() {
    let name = build_pod(&minimal_spec()).metadata.name.unwrap();
    let suffix = name.strip_prefix("sandbox-").unwrap();
    assert_eq!(suffix.len(), 32);
    assert!(suffix.chars().all(|c| c.is_ascii_digit() || ('a'..='f').contains(&c)));
    assert_eq!(&suffix[12..13], "4");
    assert!(["8", "9", "a", "b"].contains(&&suffix[16..17]));
}

#[test]
fn requests_equal_limits() {
    let pod = build_named_pod(&minimal_spec(), "x");
    assert_eq!(pod.metadata.name.as_deref(), Some("sandbox-x"));
    let container = &pod.spec.unwrap().containers[0];
    let resources = container.resources.as_ref().unwrap();
    let requests = resources.requests.as_ref().unwrap();
    let limits = resources.limits.as_ref().unwrap();
    assert_eq!(requests.len(), 2);
    assert_eq!(limits.len(), 2);
    for i in 0..2 {
        assert!(requests.entry(i) == limits.entry(i));
    }
}

#[test]
fn the_managed_by_label_cannot_be_overridden() {
    let mut spec = minimal_spec();
    spec.labels.insert(MANAGED_BY_LABEL.to_string(), "someone else".to_string());
    let labels = build_named_pod(&spec, "x").metadata.labels.unwrap();
    assert_eq!(labels.get(MANAGED_BY_LABEL), Some(&MANAGED_BY_VALUE.to_string()));
    assert_eq!(labels.len(), 2);
}

#[test]
fn a_digest_is_the_image() {
    let mut spec = minimal_spec();
    spec.image = ImageRef::Digest(SandboxImageDigest::new("busybox@sha256:abc"));
    let pod = build_named_pod(&spec, "x");
    assert_eq!(pod.spec.unwrap().containers[0].image.as_deref(), Some("busybox@sha256:abc"));
}

#[test]
fn variables_come_in_the_order_of_their_names() {
    let mut spec = minimal_spec();
    spec.env.vars.insert("BAR".to_string(), "1".to_string());
    spec.env.vars.insert("FOO".to_string(), "2".to_string());
    let pod = build_named_pod(&spec, "x");
    let pod_spec = pod.spec.unwrap();
    let env = pod_spec.containers[0].env.as_ref().unwrap();
    assert_eq!(env.len(), 2);
    assert_eq!(env[0].name, "BAR");
    assert_eq!(env[0].value.as_deref(), Some("1"));
    assert_eq!(env[1].name, "FOO");
    assert_eq!(env[1].value.as_deref(), Some("2"));
}
