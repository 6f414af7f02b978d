//! What the cluster backend makes of the cluster's answers.
use vstd::prelude::*;

use crate::error::SandboxError;
use crate::k8s::pod::{MANAGED_BY_LABEL, MANAGED_BY_VALUE};
use crate::text::same_text;
use crate::types::{SandboxId, SandboxState};

verus! {

broadcast use vstd::string::group_string_axioms;

/// An error of the cluster's client: an answer of the API server with its status code, or
/// anything else that went wrong. `text` is how the client displays the error.
#[derive(Debug, PartialEq, Eq)]
pub enum KubeError {
    Api { code: u16, text: String },
    Other { text: String },
}

impl KubeError {
    /// Whether the API server answered that there is no such object.
    pub open spec fn says_not_found(self) -> bool {
        self matches KubeError::Api { code, .. } && code == 404
    }

    /// How the client displays the error.
    pub open spec fn display(self) -> String {
        match self {
            KubeError::Api { text, .. } => text,
            KubeError::Other { text } => text,
        }
    }

    /// Whether the API server answered that there is no such object.
    pub fn is_not_found(&self) -> (r: bool)
        ensures
            r == self.says_not_found(),
    {
        match self {
            KubeError::Api { code, .. } => *code == 404,
            KubeError::Other { .. } => false,
        }
    }

    /// How the client displays the error.
    pub fn into_text(self) -> (r: String)
        ensures
            r == self.display(),
    {
        match self {
            KubeError::Api { text, .. } => text,
            KubeError::Other { text } => text,
        }
    }
}

/// The error of an operation on the sandbox `id` that the client failed with `err`.
pub open spec fn mapped_error(id: SandboxId, err: KubeError) -> SandboxError {
    if err.says_not_found() {
        SandboxError::NotFound(id)
    } else {
        SandboxError::General(err.display())
    }
}

/// Turns an error of the client into the error of an operation on `id`.
pub fn map_kube_err(id: &SandboxId, err: KubeError) -> (r: SandboxError)
    ensures
        r == mapped_error(*id, err),
{
    if err.is_not_found() {
        SandboxError::NotFound(id.clone())
    } else {
        SandboxError::General(err.into_text())
    }
}

/// The state of a pod in phase `phase`, which is being deleted if `terminating`.
pub open spec fn pod_state(phase: Option<Seq<char>>, terminating: bool) -> SandboxState {
    if terminating {
        SandboxState::Stopping
    } else if phase == Some("Pending"@) {
        SandboxState::Creating
    } else if phase == Some("Running"@) {
        SandboxState::Running
    } else if phase == Some("Succeeded"@) {
        SandboxState::Stopped
    } else {
        SandboxState::Failed
    }
}

/// The texts of an optional string slice.
pub open spec fn optional_text(text: Option<&str>) -> Option<Seq<char>> {
    match text {
        Some(text) => Some(text@),
        None => None,
    }
}

/// The state of a pod in phase `phase`, which is being deleted if `terminating`.
pub fn phase_to_state(phase: Option<&str>, terminating: bool) -> (r: SandboxState)
    ensures
        r == pod_state(optional_text(phase), terminating),
{
    if terminating {
        return SandboxState::Stopping;
    }
    match phase {
        Some(phase) => {
            if same_text(phase, "Pending") {
                SandboxState::Creating
            } else if same_text(phase, "Running") {
                SandboxState::Running
            } else if same_text(phase, "Succeeded") {
                SandboxState::Stopped
            } else {
                SandboxState::Failed
            }
        },
        None => SandboxState::Failed,
    }
}

/// How the wait for the creation of a pod ended: the cluster answered, or the caller cancelled
/// first.
#[derive(Debug, PartialEq, Eq)]
pub enum CreateOutcome {
    Answered(Result<(), KubeError>),
    Cancelled,
}

/// The result of creating the pod `name`: the name is the id of the sandbox.
pub fn create_result(name: String, outcome: CreateOutcome) -> (r: Result<SandboxId, SandboxError>)
    ensures
        match outcome {
            CreateOutcome::Answered(Ok(_)) => r matches Ok(id) && id@ == name@,
            CreateOutcome::Answered(Err(err)) => r == Err::<SandboxId, SandboxError>(
                SandboxError::General(err.display()),
            ),
            CreateOutcome::Cancelled => {
                &&& r matches Err(SandboxError::General(message))
                &&& message@ == "create cancelled"@
            },
        },
{
    match outcome {
        CreateOutcome::Answered(Ok(_)) => Ok(SandboxId::new(name)),
        CreateOutcome::Answered(Err(err)) => Err(SandboxError::General(err.into_text())),
        CreateOutcome::Cancelled => Err(SandboxError::General("create cancelled".to_owned())),
    }
}

/// The result of stopping a pod, which is never possible: a pod can only be destroyed.
pub fn stop_result() -> (r: Result<(), SandboxError>)
    ensures
        r matches Err(SandboxError::General(message)) && message@
            == "stop is not supported: k8s pods cannot be paused/resumed"@,
{
    Err(
        SandboxError::General(
            "stop is not supported: k8s pods cannot be paused/resumed".to_owned(),
        ),
    )
}

/// The seconds that a pod is given to end before it is deleted.
pub const DESTROY_GRACE_PERIOD_SECONDS: u32 = 0;

/// The result of deleting a pod that the cluster answered with `answer`.
pub open spec fn destroyed(answer: Result<(), KubeError>) -> Result<(), SandboxError> {
    match answer {
        Ok(_) => Ok(()),
        Err(err) => if err.says_not_found() {
            Ok(())
        } else {
            Err(SandboxError::General(err.display()))
        },
    }
}

/// The result of deleting a pod. A pod that is not there counts as deleted.
pub fn destroy_result(answer: Result<(), KubeError>) -> (r: Result<(), SandboxError>)
    ensures
        r == destroyed(answer),
{
    match answer {
        Ok(_) => Ok(()),
        Err(err) => {
            if err.is_not_found() {
                Ok(())
            } else {
                Err(SandboxError::General(err.into_text()))
            }
        },
    }
}

/// What the cluster says of a pod: its phase, and whether it is being deleted.
#[derive(Debug, PartialEq, Eq)]
pub struct PodObservation {
    pub phase: Option<String>,
    pub terminating: bool,
}

impl PodObservation {
    /// The phase as text.
    pub open spec fn phase_text(self) -> Option<Seq<char>> {
        match self.phase {
            Some(phase) => Some(phase@),
            None => None,
        }
    }
}

/// The status of the sandbox `id` when the cluster was asked for its pod.
pub open spec fn observed_status(
    id: SandboxId,
    answer: Result<PodObservation, KubeError>,
) -> Result<SandboxState, SandboxError> {
    match answer {
        Ok(pod) => Ok(pod_state(pod.phase_text(), pod.terminating)),
        Err(err) => Err(mapped_error(id, err)),
    }
}

/// The status of the sandbox `id` when the cluster was asked for its pod.
pub fn status_result(id: &SandboxId, answer: Result<PodObservation, KubeError>) -> (r: Result<
    SandboxState,
    SandboxError,
>)
    ensures
        r == observed_status(*id, answer),
{
    match answer {
        Ok(pod) => {
            let phase: Option<&str> = match &pod.phase {
                Some(phase) => Some(phase.as_str()),
                None => None,
            };
            Ok(phase_to_state(phase, pod.terminating))
        },
        Err(err) => Err(map_kube_err(id, err)),
    }
}

/// The label selector that picks the pods of the backend.
pub fn list_selector() -> (r: String)
    ensures
        r@ == MANAGED_BY_LABEL@ + "="@ + MANAGED_BY_VALUE@,
{
    MANAGED_BY_LABEL.to_owned().concat("=").concat(MANAGED_BY_VALUE)
}

/// The names among `names` that are there, in order.
pub open spec fn present(names: Seq<Option<String>>) -> Seq<Seq<char>>
    decreases names.len(),
{
    if names.len() == 0 {
        Seq::empty()
    } else {
        match names.last() {
            Some(name) => present(names.drop_last()).push(name@),
            None => present(names.drop_last()),
        }
    }
}

/// The texts of ids.
pub open spec fn id_texts(ids: Seq<SandboxId>) -> Seq<Seq<char>> {
    ids.map_values(|id: SandboxId| id@)
}

/// The sandboxes of the pods that the cluster listed: a pod without a name is none.
pub fn list_result(answer: Result<Vec<Option<String>>, KubeError>) -> (r: Result<
    Vec<SandboxId>,
    SandboxError,
>)
    ensures
        match answer {
            Ok(names) => r matches Ok(ids) && id_texts(ids@) == present(names@),
            Err(err) => r == Err::<Vec<SandboxId>, SandboxError>(
                SandboxError::General(err.display()),
            ),
        },
{
    match answer {
        Ok(names) => {
            let mut ids: Vec<SandboxId> = Vec::new();
            for name in it: names
                invariant
                    it.seq() == names@,
                    id_texts(ids@) == present(names@.take(it.index() as int)),
            {
                let ghost before = ids@;
                assert(names@.take(it.index() + 1).drop_last() =~= names@.take(it.index() as int));
                if let Some(name) = name {
                    let id = SandboxId::new(name);
                    ids.push(id);
                    assert(id_texts(ids@) =~= id_texts(before).push(id@));
                }
            }
            assert(names@.take(names@.len() as int) =~= names@);
            Ok(ids)
        },
        Err(err) => Err(SandboxError::General(err.into_text())),
    }
}

// ---------------------------------------------------------------------------
// Laws
// ---------------------------------------------------------------------------

/// Destroying a sandbox twice succeeds: once the cluster no longer has the pod, another destroy
/// is a success, and the status of the sandbox is that it was not found.
pub proof fn law_destroy_is_idempotent(id: SandboxId, gone: KubeError)
    requires
        gone.says_not_found(),
    ensures
        destroyed(Ok(())) is Ok,
        destroyed(Err(gone)) is Ok,
        observed_status(id, Err(gone)) == Err::<SandboxState, SandboxError>(
            SandboxError::NotFound(id),
        ),
{
}

/// A pod that is being deleted is stopping, whatever its phase; and no pod is ever reported as
/// paused or destroyed.
pub proof fn law_reported_states(phase: Option<Seq<char>>, terminating: bool)
    ensures
        terminating <==> pod_state(phase, terminating) == SandboxState::Stopping,
        pod_state(phase, terminating) != SandboxState::Paused,
        pod_state(phase, terminating) != SandboxState::Destroyed,
{
}

/// Only the name of a pod decides whether it is listed, and the ids of a listing are names that
/// the cluster gave, in its order.
pub proof fn law_listing_keeps_order(a: Seq<Option<String>>, b: Seq<Option<String>>)
    ensures
        present(a + b) == present(a) + present(b),
    decreases b.len(),
{
    if b.len() == 0 {
        assert(a + b =~= a);
        assert(present(a) + present(b) =~= present(a));
    } else {
        assert((a + b).drop_last() =~= a + b.drop_last());
        law_listing_keeps_order(a, b.drop_last());
        assert(present(a + b) =~= present(a) + present(b));
    }
}

/// What a pod's phase and its deletion mean, exactly: a pod that is being deleted is stopping, and
/// of the others those pending are being created, those running run, those that succeeded have
/// stopped, and all the rest, with no phase or another one, have failed.
pub proof fn law_phases_are_told_apart(phase: Option<&str>, terminating: bool, r: SandboxState)
    requires
        call_ensures(phase_to_state, (phase, terminating), r),
    ensures
        r is Stopping <==> terminating,
        r is Creating <==> !terminating && (phase matches Some(name) && name@ == "Pending"@),
        r is Running <==> !terminating && (phase matches Some(name) && name@ == "Running"@),
        r is Stopped <==> !terminating && (phase matches Some(name) && name@ == "Succeeded"@),
        r is Failed <==> !terminating && (phase matches Some(name) ==> name@ != "Pending"@ && name@
            != "Running"@ && name@ != "Succeeded"@),
{
    reveal_strlit("Pending");
    reveal_strlit("Running");
    reveal_strlit("Succeeded");
    assert("Pending"@[0] != "Running"@[0]);
    assert("Succeeded"@.len() != "Running"@.len());
}

/// The status of a sandbox is what its pod shows, exactly: it is running, being created or stopped
/// if and only if the pod is not being deleted and is in the phase that says so, stopping if and
/// only if it is being deleted, and failed otherwise. Without an answer on the pod, the sandbox is
/// not found if and only if the cluster says that there is no such pod; any other error is passed
/// on with its text.
pub proof fn law_status_follows_the_pod(
    id: &SandboxId,
    answer: Result<PodObservation, KubeError>,
    r: Result<SandboxState, SandboxError>,
)
    requires
        call_ensures(status_result, (id, answer), r),
    ensures
        match answer {
            Ok(pod) => {
                &&& r matches Ok(state)
                &&& state is Stopping <==> pod.terminating
                &&& state is Creating <==> !pod.terminating && (pod.phase matches Some(phase)
                    && phase@ == "Pending"@)
                &&& state is Running <==> !pod.terminating && (pod.phase matches Some(phase)
                    && phase@ == "Running"@)
                &&& state is Stopped <==> !pod.terminating && (pod.phase matches Some(phase)
                    && phase@ == "Succeeded"@)
                &&& state is Failed <==> !pod.terminating && (pod.phase matches Some(phase)
                    ==> phase@ != "Pending"@ && phase@ != "Running"@ && phase@ != "Succeeded"@)
            },
            Err(KubeError::Api { code, text }) => r == Err::<SandboxState, SandboxError>(
                if code == 404 {
                    SandboxError::NotFound(*id)
                } else {
                    SandboxError::General(text)
                },
            ),
            Err(KubeError::Other { text }) => r == Err::<SandboxState, SandboxError>(
                SandboxError::General(text),
            ),
        },
{
    reveal_strlit("Pending");
    reveal_strlit("Running");
    reveal_strlit("Succeeded");
    assert("Pending"@[0] != "Running"@[0]);
    assert("Succeeded"@.len() != "Running"@.len());
}

/// An error of the client is a sandbox not found if and only if the API server answered with that
/// code; the id is the one asked for. Every other error keeps its text.
pub proof fn law_errors_keep_their_meaning(id: &SandboxId, err: KubeError, r: SandboxError)
    requires
        call_ensures(map_kube_err, (id, err), r),
    ensures
        r is NotFound <==> (err matches KubeError::Api { code, .. } && code == 404),
        r matches SandboxError::NotFound(missing) ==> missing == *id,
        r matches SandboxError::General(message) ==> match err {
            KubeError::Api { text, .. } => message == text,
            KubeError::Other { text } => message == text,
        },
{
}

/// An error of the client is read as it is: it says that there is no such object if and only if
/// the API server answered with that code, and its text is the one that it came with.
pub proof fn law_client_errors_are_read_as_they_are(err: KubeError, absent: bool, text: String)
    requires
        call_ensures(KubeError::is_not_found, (&err,), absent),
        call_ensures(KubeError::into_text, (err,), text),
    ensures
        absent <==> (err matches KubeError::Api { code, .. } && code == 404),
        match err {
            KubeError::Api { text: shown, .. } => text == shown,
            KubeError::Other { text: shown } => text == shown,
        },
{
}

/// A sandbox is created if and only if the cluster took its pod before the caller cancelled, and
/// its id is the name of the pod. An error of the cluster is passed on with its text.
pub proof fn law_creation_is_the_clusters_answer(
    name: String,
    outcome: CreateOutcome,
    r: Result<SandboxId, SandboxError>,
)
    requires
        call_ensures(create_result, (name, outcome), r),
    ensures
        r is Ok <==> (outcome matches CreateOutcome::Answered(answer) && answer is Ok),
        r matches Ok(id) ==> id@ == name@,
        r matches Err(err) ==> err matches SandboxError::General(message) && match outcome {
            CreateOutcome::Answered(Err(KubeError::Api { text, .. })) => message == text,
            CreateOutcome::Answered(Err(KubeError::Other { text })) => message == text,
            CreateOutcome::Answered(Ok(_)) => false,
            CreateOutcome::Cancelled => message@ == "create cancelled"@,
        },
{
}

/// Stopping a pod never succeeds.
pub proof fn law_stopping_is_refused(r: Result<(), SandboxError>)
    requires
        call_ensures(stop_result, (), r),
    ensures
        r matches Err(SandboxError::General(message)) && message@
            == "stop is not supported: k8s pods cannot be paused/resumed"@,
{
}

/// Destroying fails if and only if the cluster failed for another reason than that the pod is not
/// there, and then with the text of that reason.
pub proof fn law_destroying_fails_only_with_the_cluster(
    answer: Result<(), KubeError>,
    r: Result<(), SandboxError>,
)
    requires
        call_ensures(destroy_result, (answer,), r),
    ensures
        match answer {
            Ok(_) => r is Ok,
            Err(KubeError::Api { code, text }) => if code == 404 {
                r is Ok
            } else {
                r == Err::<(), SandboxError>(SandboxError::General(text))
            },
            Err(KubeError::Other { text }) => r == Err::<(), SandboxError>(
                SandboxError::General(text),
            ),
        },
{
}

/// What is listed of one pod: its name if it has one, and nothing otherwise. With
/// [`law_listing_keeps_order`] this says what is listed of any pods.
pub proof fn law_one_pod_is_listed_by_its_name(name: String)
    ensures
        present(Seq::<Option<String>>::empty()) == Seq::<Seq<char>>::empty(),
        present(seq![None::<String>]) == Seq::<Seq<char>>::empty(),
        present(seq![Some(name)]) == seq![name@],
{
    let unnamed = seq![None::<String>];
    let named = seq![Some(name)];
    assert(unnamed.drop_last() =~= Seq::empty());
    assert(named.drop_last() =~= Seq::empty());
    assert(present(named.drop_last()) =~= Seq::empty());
    assert(named.last() == Some(name));
    assert(present(named) =~= seq![name@]);
}

/// Whether the cluster gave a pod of this name.
pub open spec fn named(names: Seq<Option<String>>, text: Seq<char>) -> bool {
    exists|i: int|
        0 <= i < names.len() && (#[trigger] names[i] matches Some(name) && name@ == text)
}

/// A listing is complete and sound: a name is the text of an id listed if and only if the cluster
/// gave a pod of that name, and there are no more ids than pods; it fails if and only if the
/// cluster did.
pub proof fn law_listing_is_complete(
    answer: Result<Vec<Option<String>>, KubeError>,
    r: Result<Vec<SandboxId>, SandboxError>,
    text: Seq<char>,
)
    requires
        call_ensures(list_result, (answer,), r),
    ensures
        match answer {
            Ok(names) => {
                &&& r matches Ok(ids)
                &&& ids@.len() <= names@.len()
                &&& ids@.len() == present(names@).len()
                &&& forall|i: int|
                    0 <= i < ids@.len() ==> (#[trigger] ids@[i])@ == present(names@)[i]
                &&& (exists|i: int| 0 <= i < ids@.len() && (#[trigger] ids@[i])@ == text)
                    <==> named(names@, text)
            },
            Err(KubeError::Api { text, .. }) => r == Err::<Vec<SandboxId>, SandboxError>(
                SandboxError::General(text),
            ),
            Err(KubeError::Other { text }) => r == Err::<Vec<SandboxId>, SandboxError>(
                SandboxError::General(text),
            ),
        },
{
    if let Ok(names) = answer {
        let ids = r->Ok_0;
        let texts = present(names@);
        lemma_present(names@, text);
        assert(id_texts(ids@).len() == ids@.len());
        assert forall|i: int| 0 <= i < ids@.len() implies (#[trigger] ids@[i])@ == texts[i] by {
            assert(id_texts(ids@)[i] == ids@[i]@);
        }
        if named(names@, text) {
            let i = choose|i: int| 0 <= i < texts.len() && texts[i] == text;
            assert(ids@[i]@ == text);
        }
        if exists|i: int| 0 <= i < ids@.len() && (#[trigger] ids@[i])@ == text {
            let i = choose|i: int| 0 <= i < ids@.len() && (#[trigger] ids@[i])@ == text;
            assert(texts[i] == text);
        }
    }
}

proof fn lemma_present(names: Seq<Option<String>>, text: Seq<char>)
    ensures
        present(names).len() <= names.len(),
        present(names).contains(text) <==> named(names, text),
    decreases names.len(),
{
    if names.len() > 0 {
        let before = names.drop_last();
        let rest = present(before);
        lemma_present(before, text);
        assert(named(names, text) <==> named(before, text) || (names.last() matches Some(name)
            && name@ == text)) by {
            if named(before, text) {
                let i = choose|i: int|
                    0 <= i < before.len() && (#[trigger] before[i] matches Some(name) && name@
                        == text);
                assert(names[i] == before[i]);
            }
            if named(names, text) {
                let i = choose|i: int|
                    0 <= i < names.len() && (#[trigger] names[i] matches Some(name) && name@
                        == text);
                if i < before.len() {
                    assert(before[i] == names[i]);
                }
            }
            assert(names[names.len() - 1] == names.last());
        }
        if let Some(name) = names.last() {
            let all = rest.push(name@);
            assert(present(names) == all);
            if rest.contains(text) {
                let i = choose|i: int| 0 <= i < rest.len() && rest[i] == text;
                assert(all[i] == text);
            }
            assert(all[rest.len() as int] == name@);
            if all.contains(text) {
                let i = choose|i: int| 0 <= i < all.len() && all[i] == text;
                if i < rest.len() {
                    assert(rest[i] == text);
                }
            }
        }
    }
}

/// The pods that are listed are those that carry the label of the backend.
pub proof fn law_selector_is_the_label(r: String)
    requires
        call_ensures(list_selector, (), r),
    ensures
        r@ == "mimamsa.dev/managed-by"@ + "="@ + "sandbox-agent-k8s"@,
{
}

} // verus!
