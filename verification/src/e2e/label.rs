//! Labels given as `key=value`, and the spec that the driver asks for.
use vstd::prelude::*;

use crate::k8s::pod::{pod_model, MANAGED_BY_LABEL, MANAGED_BY_VALUE};
use crate::string_map::{entered, lemma_last_entered, lemma_not_entered, StringMap};
use crate::text::to_chars;
use crate::types::{
    Deadline, ImageRef, SandboxEnv, SandboxResources, SandboxSpec, SandboxStorage, SecretRef,
};

verus! {

broadcast use vstd::string::group_string_axioms;

/// The position of the first `=` in `s`, or the length of `s` where there is none.
pub open spec fn first_equals(s: Seq<char>) -> int
    decreases s.len(),
{
    if s.len() == 0 || s[0] == '=' {
        0
    } else {
        1 + first_equals(s.drop_first())
    }
}

/// The key and the value of a label: what stands before the first `=` and what stands after it.
pub open spec fn label_parts(s: Seq<char>) -> Option<(Seq<char>, Seq<char>)> {
    let at = first_equals(s);
    if at < s.len() {
        Some((s.take(at), s.skip(at + 1)))
    } else {
        None
    }
}

/// Where the first `=` stands: there is none before it.
proof fn first_equals_is_first(s: Seq<char>)
    ensures
        0 <= first_equals(s) <= s.len(),
        first_equals(s) < s.len() ==> s[first_equals(s)] == '=',
        forall|i: int| 0 <= i < first_equals(s) ==> #[trigger] s[i] != '=',
    decreases s.len(),
{
    if s.len() > 0 && s[0] != '=' {
        let rest = s.drop_first();
        first_equals_is_first(rest);
        assert forall|i: int| 0 <= i < first_equals(s) implies #[trigger] s[i] != '=' by {
            if i > 0 {
                assert(rest[i - 1] == s[i]);
            }
        }
    }
}

/// A position that holds the only `=` up to there is the first one.
proof fn first_equals_at(s: Seq<char>, at: int)
    requires
        0 <= at <= s.len(),
        at < s.len() ==> s[at] == '=',
        forall|i: int| 0 <= i < at ==> #[trigger] s[i] != '=',
    ensures
        first_equals(s) == at,
{
    first_equals_is_first(s);
}

/// Reads a `key=value` label.
pub fn parse_label(s: &str) -> (r: Result<(String, String), String>)
    ensures
        match label_parts(s@) {
            Some(parts) => r matches Ok(label) && label.0@ == parts.0 && label.1@ == parts.1,
            None => r matches Err(message) && message@ == "label '"@ + s@
                + "' must be in key=value form"@,
        },
{
    let chars: Vec<char> = to_chars(s);
    let n: usize = chars.len();
    let mut at: usize = 0;
    while at < n && chars[at] != '='
        invariant
            chars@ == s@,
            n == s@.len(),
            at <= n,
            forall|i: int| 0 <= i < at ==> #[trigger] s@[i] != '=',
        decreases n - at,
    {
        at = at + 1;
    }
    proof {
        first_equals_at(s@, at as int);
    }
    if at < n {
        let key: &str = s.substring_char(0, at);
        let value: &str = s.substring_char(at + 1, n);
        assert(key@ =~= s@.take(at as int));
        assert(value@ =~= s@.skip(at + 1));
        Ok((key.to_owned(), value.to_owned()))
    } else {
        Err(String::from_str("label '").concat(s).concat("' must be in key=value form"))
    }
}

/// The spec that the driver asks for: an image by its tag, the limits that matter for a pod, and
/// labels of which the last one given for a key counts. Nothing else is asked for.
pub fn build_spec(
    image: String,
    memory_mb: u32,
    cpu_millis: u32,
    deadline_secs: u64,
    labels: Vec<(String, String)>,
) -> (r: SandboxSpec)
    ensures
        r.image == ImageRef::Tag(image),
        r.resources == (SandboxResources { memory_mb, cpu_millis, disk_mb: 0, max_pids: 0 }),
        r.env.vars@ == Map::<Seq<char>, String>::empty(),
        r.env.secrets@ == Map::<Seq<char>, SecretRef>::empty(),
        r.storage.workspace_mb == 0,
        r.storage.seed@.len() == 0,
        r.storage.state_volume is None,
        r.deadline == (Deadline { secs: deadline_secs, subsec_nanos: 0 }),
        r.labels@ == entered(Map::<Seq<char>, String>::empty(), labels@),
{
    SandboxSpec {
        image: ImageRef::Tag(image),
        resources: SandboxResources { memory_mb, cpu_millis, disk_mb: 0, max_pids: 0 },
        env: SandboxEnv { vars: StringMap::new(), secrets: StringMap::new() },
        storage: SandboxStorage { workspace_mb: 0, seed: Vec::new(), state_volume: None },
        deadline: Deadline::from_secs(deadline_secs),
        labels: StringMap::from_pairs(labels),
    }
}

// ---------------------------------------------------------------------------
// Laws
// ---------------------------------------------------------------------------

/// Writing a label and reading it gives its parts back, if the key holds no `=`; the value may
/// hold some.
pub proof fn law_label_round_trip(key: Seq<char>, value: Seq<char>)
    requires
        !key.contains('='),
    ensures
        label_parts(key + "="@ + value) == Some((key, value)),
{
    reveal_strlit("=");
    let s = key + "="@ + value;
    assert forall|i: int| 0 <= i < key.len() implies #[trigger] s[i] != '=' by {
        assert(key.contains(key[i]));
    }
    first_equals_at(s, key.len() as int);
    assert(s.take(key.len() as int) =~= key);
    assert(s.skip(key.len() as int + 1) =~= value);
}

/// A label that was read is its key, an `=` and its value, and the key holds no `=`.
pub proof fn law_label_is_its_parts(s: Seq<char>)
    ensures
        match label_parts(s) {
            Some((key, value)) => s == key + "="@ + value && !key.contains('='),
            None => !s.contains('='),
        },
{
    reveal_strlit("=");
    first_equals_is_first(s);
    let at = first_equals(s);
    if at < s.len() {
        assert(s =~= s.take(at) + "="@ + s.skip(at + 1));
    }
}

/// The selector by which the backend lists its pods, read as a label, is the label that every
/// pod of the backend carries.
pub proof fn law_selector_selects_every_pod(spec: SandboxSpec, suffix: Seq<char>)
    ensures
        label_parts(MANAGED_BY_LABEL@ + "="@ + MANAGED_BY_VALUE@) == Some(
            (MANAGED_BY_LABEL@, MANAGED_BY_VALUE@),
        ),
        pod_model(spec, suffix).labels.contains_pair(MANAGED_BY_LABEL@, MANAGED_BY_VALUE@),
{
    reveal_strlit("mimamsa.dev/managed-by");
    law_label_round_trip(MANAGED_BY_LABEL@, MANAGED_BY_VALUE@);
}

/// A label is taken if and only if it holds an `=`: its key is what stands before the first one,
/// and its value all that stands after it. One that is not taken is named in the error.
pub proof fn law_labels_are_split_at_the_first_equals(s: &str, r: Result<(String, String), String>)
    requires
        call_ensures(parse_label, (s,), r),
    ensures
        r is Ok <==> s@.contains('='),
        r matches Ok(label) ==> s@ == label.0@ + "="@ + label.1@ && !label.0@.contains('='),
        r matches Err(message) ==> message@ == "label '"@ + s@ + "' must be in key=value form"@,
{
    law_label_is_its_parts(s@);
    if let Ok(label) = r {
        reveal_strlit("=");
        let key = label.0@;
        assert((key + "="@ + label.1@)[key.len() as int] == '=');
    }
}

/// The spec of a sandbox is what was asked for and nothing else; of labels with the same key the
/// last one counts.
pub proof fn law_spec_is_what_was_asked_for(
    image: String,
    memory_mb: u32,
    cpu_millis: u32,
    deadline_secs: u64,
    labels: Vec<(String, String)>,
    r: SandboxSpec,
    i: int,
)
    requires
        call_ensures(build_spec, (image, memory_mb, cpu_millis, deadline_secs, labels), r),
    ensures
        r.image == ImageRef::Tag(image),
        r.resources.memory_mb == memory_mb,
        r.resources.cpu_millis == cpu_millis,
        r.resources.disk_mb == 0,
        r.resources.max_pids == 0,
        r.deadline.secs == deadline_secs,
        r.deadline.subsec_nanos == 0,
        forall|key: Seq<char>| !(#[trigger] r.env.vars@.contains_key(key)),
        forall|key: Seq<char>| !(#[trigger] r.env.secrets@.contains_key(key)),
        r.storage.workspace_mb == 0,
        r.storage.seed@.len() == 0,
        r.storage.state_volume is None,
        0 <= i < labels@.len() && (forall|j: int|
            i < j < labels@.len() ==> (#[trigger] labels@[j]).0@ != labels@[i].0@)
            ==> r.labels@.contains_pair(labels@[i].0@, labels@[i].1),
        forall|key: Seq<char>|
            (forall|j: int| 0 <= j < labels@.len() ==> (#[trigger] labels@[j]).0@ != key) ==> !(
            #[trigger] r.labels@.contains_key(key)),
{
    let none = Map::<Seq<char>, String>::empty();
    if 0 <= i < labels@.len() && (forall|j: int|
        i < j < labels@.len() ==> (#[trigger] labels@[j]).0@ != labels@[i].0@) {
        lemma_last_entered(none, labels@, i);
    }
    assert forall|key: Seq<char>|
        (forall|j: int| 0 <= j < labels@.len() ==> (#[trigger] labels@[j]).0@ != key) implies !(
    #[trigger] r.labels@.contains_key(key)) by {
        lemma_not_entered(none, labels@, key);
    }
}

} // verus!
