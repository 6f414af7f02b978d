//! The pod that a sandbox becomes.
use vstd::prelude::*;

use crate::outside::ident::{fresh_random_id, is_simple_random_id};
use crate::string_map::StringMap;
use crate::text::{decimal, decimal_injective, decimal_text, lemma_decimal, written};
use crate::types::{ImageRef, SandboxSpec};

verus! {

broadcast use vstd::string::group_string_axioms;

/// Label applied to every pod of the backend, by which they are listed.
pub const MANAGED_BY_LABEL: &'static str = "mimamsa.dev/managed-by";

/// The value of [`MANAGED_BY_LABEL`].
pub const MANAGED_BY_VALUE: &'static str = "sandbox-agent-k8s";

/// A pod manifest, as far as the backend fills it in.
#[derive(PartialEq, Eq)]
pub struct Pod {
    pub metadata: ObjectMeta,
    pub spec: Option<PodSpec>,
}

/// The metadata of a pod.
#[derive(PartialEq, Eq)]
pub struct ObjectMeta {
    pub name: Option<String>,
    pub labels: Option<StringMap<String>>,
}

/// What a pod runs.
#[derive(PartialEq, Eq)]
pub struct PodSpec {
    pub containers: Vec<Container>,
    pub restart_policy: Option<String>,
    pub active_deadline_seconds: Option<i64>,
}

/// A container of a pod.
#[derive(PartialEq, Eq)]
pub struct Container {
    pub name: String,
    pub image: Option<String>,
    pub env: Option<Vec<EnvVar>>,
    pub resources: Option<ResourceRequirements>,
}

/// An environment variable of a container.
#[derive(Debug, PartialEq, Eq)]
pub struct EnvVar {
    pub name: String,
    pub value: Option<String>,
}

/// What a container asks for and what it may not exceed.
#[derive(PartialEq, Eq)]
pub struct ResourceRequirements {
    pub requests: Option<StringMap<Quantity>>,
    pub limits: Option<StringMap<Quantity>>,
}

/// An amount of a resource, a number with its unit.
#[derive(Debug, PartialEq, Eq)]
pub struct Quantity(pub String);

/// What a pod manifest says.
#[verifier::ext_equal]
pub struct PodModel {
    pub name: Seq<char>,
    pub labels: Map<Seq<char>, Seq<char>>,
    pub container: Seq<char>,
    pub image: Seq<char>,
    pub env: Seq<(Seq<char>, Seq<char>)>,
    pub requests: Map<Seq<char>, Seq<char>>,
    pub limits: Map<Seq<char>, Seq<char>>,
    pub restart_policy: Seq<char>,
    pub active_deadline_seconds: int,
}

/// The texts of a map of strings.
pub open spec fn texts(m: Map<Seq<char>, String>) -> Map<Seq<char>, Seq<char>> {
    m.map_values(|s: String| s@)
}

/// The texts of a map of quantities.
pub open spec fn amounts(m: Map<Seq<char>, Quantity>) -> Map<Seq<char>, Seq<char>> {
    m.map_values(|q: Quantity| q.0@)
}

/// The pairs of a map of strings as texts.
pub open spec fn text_pairs(pairs: Seq<(Seq<char>, String)>) -> Seq<(Seq<char>, Seq<char>)> {
    pairs.map_values(|p: (Seq<char>, String)| (p.0, p.1@))
}

impl Pod {
    /// Whether the manifest is filled in and says what `m` says.
    pub open spec fn says(self, m: PodModel) -> bool {
        &&& self.metadata.name matches Some(name)
        &&& name@ == m.name
        &&& self.metadata.labels matches Some(labels)
        &&& texts(labels@) == m.labels
        &&& self.spec matches Some(spec)
        &&& spec.restart_policy matches Some(policy)
        &&& policy@ == m.restart_policy
        &&& spec.active_deadline_seconds matches Some(deadline)
        &&& deadline == m.active_deadline_seconds
        &&& spec.containers@.len() == 1
        &&& spec.containers@[0].says(m)
    }
}

impl Container {
    /// Whether the container is filled in and says what `m` says of it.
    pub open spec fn says(self, m: PodModel) -> bool {
        &&& self.name@ == m.container
        &&& self.image matches Some(image)
        &&& image@ == m.image
        &&& self.env matches Some(env)
        &&& env@.len() == m.env.len()
        &&& forall|i: int|
            0 <= i < env@.len() ==> {
                &&& (#[trigger] env@[i]).name@ == m.env[i].0
                &&& env@[i].value matches Some(value)
                &&& value@ == m.env[i].1
            }
        &&& self.resources matches Some(resources)
        &&& resources.requests matches Some(requests)
        &&& amounts(requests@) == m.requests
        &&& resources.limits matches Some(limits)
        &&& amounts(limits@) == m.limits
    }
}

/// The amounts that a container asks for: the memory in mebibytes, the cpu in thousandths.
pub open spec fn resource_amounts(spec: SandboxSpec) -> Map<Seq<char>, Seq<char>> {
    Map::<Seq<char>, Seq<char>>::empty().insert(
        "memory"@,
        decimal(spec.resources.memory_mb as nat) + "Mi"@,
    ).insert("cpu"@, decimal(spec.resources.cpu_millis as nat) + "m"@)
}

/// What the manifest of `spec` says when its name ends in `suffix`.
pub open spec fn pod_model(spec: SandboxSpec, suffix: Seq<char>) -> PodModel {
    PodModel {
        name: "sandbox-"@ + suffix,
        labels: texts(spec.labels@).insert(MANAGED_BY_LABEL@, MANAGED_BY_VALUE@),
        container: "sandbox"@,
        image: spec.image.reference(),
        env: text_pairs(spec.env.vars.pairs()),
        requests: resource_amounts(spec),
        limits: resource_amounts(spec),
        restart_policy: "Never"@,
        active_deadline_seconds: (spec.deadline.secs as i64) as int,
    }
}

/// The map of the resources that a container asks for.
fn resource_map(spec: &SandboxSpec) -> (r: StringMap<Quantity>)
    ensures
        amounts(r@) == resource_amounts(*spec),
{
    let mut map: StringMap<Quantity> = StringMap::new();
    let memory: String = decimal_text(spec.resources.memory_mb as u64).concat("Mi");
    let cpu: String = decimal_text(spec.resources.cpu_millis as u64).concat("m");
    map.insert("memory".to_owned(), Quantity(memory));
    map.insert("cpu".to_owned(), Quantity(cpu));
    assert(amounts(map@) =~= resource_amounts(*spec));
    map
}

/// The environment of a container: the plain variables of `spec`, in the order of their names.
fn env_vars(spec: &SandboxSpec) -> (r: Vec<EnvVar>)
    ensures
        r@.len() == spec.env.vars.pairs().len(),
        forall|i: int|
            0 <= i < r@.len() ==> {
                &&& (#[trigger] r@[i]).name@ == spec.env.vars.pairs()[i].0
                &&& r@[i].value == Some(spec.env.vars.pairs()[i].1)
            },
{
    let mut env: Vec<EnvVar> = Vec::new();
    let n: usize = spec.env.vars.len();
    let mut i: usize = 0;
    while i < n
        invariant
            n == spec.env.vars.pairs().len(),
            i <= n,
            env@.len() == i,
            forall|j: int|
                0 <= j < i ==> {
                    &&& (#[trigger] env@[j]).name@ == spec.env.vars.pairs()[j].0
                    &&& env@[j].value == Some(spec.env.vars.pairs()[j].1)
                },
        decreases n - i,
    {
        let (name, value): (&str, &String) = spec.env.vars.entry(i);
        env.push(EnvVar { name: name.to_owned(), value: Some(value.clone()) });
        i = i + 1;
    }
    env
}

/// Builds the manifest for `spec` of a pod whose name ends in `suffix`.
///
/// Only the core fields (image, cpu and memory, variables, labels, deadline) are wired up;
/// secrets, seed files, state volumes and the process limit are not.
pub fn build_named_pod(spec: &SandboxSpec, suffix: &str) -> (r: Pod)
    ensures
        r.says(pod_model(*spec, suffix@)),
{
    let name: String = String::from_str("sandbox-").concat(suffix);
    let mut labels: StringMap<String> = spec.labels.copy();
    labels.insert(MANAGED_BY_LABEL.to_owned(), MANAGED_BY_VALUE.to_owned());
    assert(texts(labels@) =~= pod_model(*spec, suffix@).labels);
    let container = Container {
        name: "sandbox".to_owned(),
        image: Some(spec.image.as_str().to_owned()),
        env: Some(env_vars(spec)),
        resources: Some(
            ResourceRequirements {
                requests: Some(resource_map(spec)),
                limits: Some(resource_map(spec)),
            },
        ),
    };
    let mut containers: Vec<Container> = Vec::new();
    containers.push(container);
    Pod {
        metadata: ObjectMeta { name: Some(name), labels: Some(labels) },
        spec: Some(
            PodSpec {
                containers,
                restart_policy: Some("Never".to_owned()),
                active_deadline_seconds: Some(spec.deadline.secs as i64),
            },
        ),
    }
}

/// Generates a fresh pod name and builds the manifest for `spec`.
pub fn build_pod(spec: &SandboxSpec) -> (r: Pod)
    ensures
        exists|suffix: Seq<char>| #[trigger]
            is_simple_random_id(suffix) && r.says(pod_model(*spec, suffix)),
{
    let suffix: String = fresh_random_id();
    build_named_pod(spec, suffix.as_str())
}

// ---------------------------------------------------------------------------
// Laws
// ---------------------------------------------------------------------------

/// Every pod carries the label by which the backend's pods are listed, whatever the labels of
/// the spec say, and every other label of the spec as it stands; no label comes from elsewhere.
pub proof fn law_managed_by_label(spec: SandboxSpec, suffix: Seq<char>)
    ensures
        pod_model(spec, suffix).labels.contains_pair(MANAGED_BY_LABEL@, MANAGED_BY_VALUE@),
        forall|key: Seq<char>|
            key != MANAGED_BY_LABEL@ ==> (#[trigger] pod_model(spec, suffix).labels.contains_key(key)
                <==> spec.labels@.contains_key(key)),
        forall|key: Seq<char>|
            key != MANAGED_BY_LABEL@ && spec.labels@.contains_key(key)
                ==> #[trigger] pod_model(spec, suffix).labels[key] == spec.labels@[key]@,
{
}

/// What a pod asks for is what it may not exceed.
pub proof fn law_requests_are_limits(spec: SandboxSpec, suffix: Seq<char>)
    ensures
        pod_model(spec, suffix).requests == pod_model(spec, suffix).limits,
        pod_model(spec, suffix).requests.dom() == set!["memory"@, "cpu"@],
{
    assert(pod_model(spec, suffix).requests.dom() =~= set!["memory"@, "cpu"@]);
}

/// The container sees the plain variables of the spec and nothing else: neither a secret nor
/// anything of the host.
pub proof fn law_env_is_the_spec_vars(spec: SandboxSpec, suffix: Seq<char>)
    ensures
        pod_model(spec, suffix).env.len() == spec.env.vars.pairs().len(),
        forall|i: int|
            0 <= i < spec.env.vars.pairs().len() ==> #[trigger] pod_model(spec, suffix).env[i] == (
                spec.env.vars.pairs()[i].0,
                spec.env.vars.pairs()[i].1@,
            ),
{
}

/// Pods whose suffixes differ have different names, and every name starts in the same way.
pub proof fn law_names_follow_suffixes(a: SandboxSpec, b: SandboxSpec, s: Seq<char>, t: Seq<char>)
    ensures
        "sandbox-"@.is_prefix_of(pod_model(a, s).name),
        pod_model(a, s).name == pod_model(b, t).name <==> s == t,
{
    let prefix = "sandbox-"@;
    assert(prefix =~= (prefix + s).subrange(0, prefix.len() as int));
    if prefix + s == prefix + t {
        assert(s =~= (prefix + s).skip(prefix.len() as int));
        assert(t =~= (prefix + t).skip(prefix.len() as int));
    }
}

/// Whether the amounts are those of the spec, as the cluster writes them: the cpu in thousandths,
/// the memory in mebibytes, each in decimal digits before its unit, and nothing else.
pub open spec fn asks_for(amounts: Map<Seq<char>, Quantity>, spec: SandboxSpec) -> bool {
    &&& forall|key: Seq<char>| #[trigger]
        amounts.contains_key(key) <==> key == "cpu"@ || key == "memory"@
    &&& exists|digits: Seq<char>|
        #[trigger] plain_number(digits, spec.resources.cpu_millis as int) && amounts["cpu"@].0@
            == digits + "m"@
    &&& exists|digits: Seq<char>|
        #[trigger] plain_number(digits, spec.resources.memory_mb as int) && amounts["memory"@].0@
            == digits + "Mi"@
}

/// Whether the characters are decimal digits, without leading zeros, that write `n`.
pub open spec fn plain_number(digits: Seq<char>, n: int) -> bool {
    &&& digits.len() > 0
    &&& forall|i: int|
        0 <= i < digits.len() ==> '0' as int <= #[trigger] digits[i] as int <= '9' as int
    &&& digits[0] == '0' ==> digits.len() == 1
    &&& written(digits) == n
}

/// A container asks for exactly what the spec gives it, and may not exceed that: the cpu text is
/// the number of thousandths before an `m`, the memory text the number of mebibytes before `Mi`,
/// in the requests and in the limits.
pub proof fn law_amounts_are_the_specs(spec: &SandboxSpec, suffix: &str, pod: Pod)
    requires
        call_ensures(build_named_pod, (spec, suffix), pod),
    ensures
        ({
            &&& pod.spec matches Some(pod_spec)
            &&& pod_spec.containers@.len() == 1
            &&& pod_spec.containers@[0].resources matches Some(resources)
            &&& resources.requests matches Some(requests)
            &&& resources.limits matches Some(limits)
            &&& asks_for(requests@, *spec)
            &&& asks_for(limits@, *spec)
        }),
{
    reveal_strlit("cpu");
    reveal_strlit("memory");
    let resources = pod.spec->Some_0.containers@[0].resources->Some_0;
    let requests = resources.requests->Some_0@;
    let limits = resources.limits->Some_0@;
    lemma_amounts(requests, *spec);
    lemma_amounts(limits, *spec);
}

proof fn lemma_amounts(map: Map<Seq<char>, Quantity>, spec: SandboxSpec)
    requires
        amounts(map) == resource_amounts(spec),
    ensures
        asks_for(map, spec),
{
    reveal_strlit("cpu");
    reveal_strlit("memory");
    let shown = amounts(map);
    let cpu = decimal(spec.resources.cpu_millis as nat);
    let memory = decimal(spec.resources.memory_mb as nat);
    lemma_decimal(spec.resources.cpu_millis as nat);
    lemma_decimal(spec.resources.memory_mb as nat);
    assert("cpu"@.len() != "memory"@.len());
    assert forall|key: Seq<char>| #[trigger]
        map.contains_key(key) <==> key == "cpu"@ || key == "memory"@ by {
        assert(map.contains_key(key) <==> shown.contains_key(key));
    }
    assert(shown["cpu"@] == map["cpu"@].0@);
    assert(shown["memory"@] == map["memory"@].0@);
    assert(map["cpu"@].0@ == cpu + "m"@);
    assert(map["memory"@].0@ == memory + "Mi"@);
    assert(plain_number(cpu, spec.resources.cpu_millis as int));
    assert(plain_number(memory, spec.resources.memory_mb as int));
}

/// Different resources are asked for differently: two manifests ask for the same amount of cpu, or
/// of memory, if and only if their specs give the same.
pub proof fn law_different_resources_are_told_apart(
    a: &SandboxSpec,
    b: &SandboxSpec,
    s: &str,
    t: &str,
    x: Pod,
    y: Pod,
)
    requires
        call_ensures(build_named_pod, (a, s), x),
        call_ensures(build_named_pod, (b, t), y),
    ensures
        ({
            let xs = x.spec->Some_0.containers@[0].resources->Some_0.requests->Some_0@;
            let ys = y.spec->Some_0.containers@[0].resources->Some_0.requests->Some_0@;
            &&& xs["cpu"@].0@ == ys["cpu"@].0@ <==> a.resources.cpu_millis == b.resources.cpu_millis
            &&& xs["memory"@].0@ == ys["memory"@].0@ <==> a.resources.memory_mb
                == b.resources.memory_mb
        }),
{
    reveal_strlit("cpu");
    reveal_strlit("memory");
    reveal_strlit("m");
    reveal_strlit("Mi");
    assert("cpu"@.len() != "memory"@.len());
    let xs = x.spec->Some_0.containers@[0].resources->Some_0.requests->Some_0@;
    let ys = y.spec->Some_0.containers@[0].resources->Some_0.requests->Some_0@;
    lemma_amounts(xs, *a);
    lemma_amounts(ys, *b);
    assert(amounts(xs)["cpu"@] == xs["cpu"@].0@ && amounts(ys)["cpu"@] == ys["cpu"@].0@);
    assert(amounts(xs)["memory"@] == xs["memory"@].0@ && amounts(ys)["memory"@]
        == ys["memory"@].0@);
    if xs["cpu"@].0@ == ys["cpu"@].0@ {
        let p = decimal(a.resources.cpu_millis as nat);
        let q = decimal(b.resources.cpu_millis as nat);
        assert(p =~= (p + "m"@).drop_last());
        assert(q =~= (q + "m"@).drop_last());
        decimal_injective(a.resources.cpu_millis as nat, b.resources.cpu_millis as nat);
    }
    if xs["memory"@].0@ == ys["memory"@].0@ {
        let p = decimal(a.resources.memory_mb as nat);
        let q = decimal(b.resources.memory_mb as nat);
        assert(p =~= (p + "Mi"@).drop_last().drop_last());
        assert(q =~= (q + "Mi"@).drop_last().drop_last());
        decimal_injective(a.resources.memory_mb as nat, b.resources.memory_mb as nat);
    }
}

/// The manifest runs what the spec asks for: one container of the image, which is never started
/// again, in a pod of the name asked for that is ended after the seconds of the deadline.
pub proof fn law_manifest_runs_the_spec(spec: &SandboxSpec, suffix: &str, pod: Pod)
    requires
        call_ensures(build_named_pod, (spec, suffix), pod),
    ensures
        pod.metadata.name matches Some(name) && name@ == "sandbox-"@ + suffix@,
        ({
            &&& pod.spec matches Some(pod_spec)
            &&& pod_spec.restart_policy matches Some(policy)
            &&& policy@ == "Never"@
            &&& pod_spec.active_deadline_seconds matches Some(secs)
            &&& spec.deadline.secs <= i64::MAX ==> secs == spec.deadline.secs
            &&& pod_spec.containers@.len() == 1
            &&& pod_spec.containers@[0].name@ == "sandbox"@
            &&& pod_spec.containers@[0].image matches Some(image)
            &&& match spec.image {
                ImageRef::Digest(digest) => image@ == digest@,
                ImageRef::Tag(tag) => image@ == tag@,
            }
        }),
{
}

/// The labels of a pod are those of the spec, and the one by which the backend finds its pods:
/// that one whatever the spec says, and no other from elsewhere.
pub proof fn law_labels_are_the_specs_and_the_backends(
    spec: &SandboxSpec,
    suffix: &str,
    pod: Pod,
    key: Seq<char>,
)
    requires
        call_ensures(build_named_pod, (spec, suffix), pod),
    ensures
        ({
            let mark = "mimamsa.dev/managed-by"@;
            &&& pod.metadata.labels matches Some(labels)
            &&& labels@.contains_key(mark)
            &&& labels@[mark]@ == "sandbox-agent-k8s"@
            &&& key != mark ==> (labels@.contains_key(key) <==> spec.labels@.contains_key(key))
            &&& key != mark && spec.labels@.contains_key(key) ==> labels@[key]@
                == spec.labels@[key]@
        }),
{
    let labels = pod.metadata.labels->Some_0@;
    let shown = texts(labels);
    assert(shown == pod_model(*spec, suffix@).labels);
    assert(labels.contains_key(key) <==> shown.contains_key(key));
    assert(shown.contains_key(MANAGED_BY_LABEL@));
    assert(labels.contains_key(MANAGED_BY_LABEL@));
    assert(shown[MANAGED_BY_LABEL@] == labels[MANAGED_BY_LABEL@]@);
    assert(texts(spec.labels@).contains_key(key) <==> spec.labels@.contains_key(key));
    if key != MANAGED_BY_LABEL@ && spec.labels@.contains_key(key) {
        assert(shown[key] == labels[key]@);
        assert(texts(spec.labels@)[key] == spec.labels@[key]@);
    }
}

/// The container sees every plain variable of the spec, each with its value and in the order of
/// the names, and nothing else.
pub proof fn law_variables_are_the_specs(spec: &SandboxSpec, suffix: &str, pod: Pod)
    requires
        call_ensures(build_named_pod, (spec, suffix), pod),
    ensures
        ({
            let vars = spec.env.vars.pairs();
            &&& pod.spec->Some_0.containers@[0].env matches Some(env)
            &&& env@.len() == vars.len()
            &&& forall|i: int|
                0 <= i < vars.len() ==> {
                    &&& (#[trigger] env@[i]).name@ == vars[i].0
                    &&& env@[i].value matches Some(value)
                    &&& value@ == vars[i].1@
                }
        }),
{
}

/// A pod of a fresh name says what one of a given name does: it is named by a random identifier,
/// and asks for the amounts of the spec.
pub proof fn law_fresh_pods_are_named_at_random(spec: &SandboxSpec, pod: Pod)
    requires
        call_ensures(build_pod, (spec,), pod),
    ensures
        exists|suffix: Seq<char>| #[trigger]
            is_simple_random_id(suffix) && pod.metadata.name->Some_0@ == "sandbox-"@ + suffix
                && pod.says(pod_model(*spec, suffix)),
        pod.metadata.name is Some,
        pod.spec->Some_0.containers@.len() == 1,
        asks_for(
            pod.spec->Some_0.containers@[0].resources->Some_0.requests->Some_0@,
            *spec,
        ),
        asks_for(pod.spec->Some_0.containers@[0].resources->Some_0.limits->Some_0@, *spec),
{
    let suffix = choose|suffix: Seq<char>| #[trigger]
        is_simple_random_id(suffix) && pod.says(pod_model(*spec, suffix));
    let resources = pod.spec->Some_0.containers@[0].resources->Some_0;
    lemma_amounts(resources.requests->Some_0@, *spec);
    lemma_amounts(resources.limits->Some_0@, *spec);
    assert(is_simple_random_id(suffix));
}

} // verus!
