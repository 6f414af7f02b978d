//! The vocabulary of sandboxes: ids, what a sandbox is asked to be, and the states that a
//! cluster reports.
use vstd::prelude::*;

use crate::string_map::StringMap;

verus! {

broadcast use vstd::string::group_string_axioms;

/// The name by which a backend knows a sandbox.
#[derive(Debug, PartialEq, Eq, Hash, PartialOrd, Ord)]
pub struct SandboxId(String);

impl Clone for SandboxId {
    fn clone(&self) -> (r: Self)
        ensures
            r == *self,
    {
        SandboxId(self.0.clone())
    }
}

impl SandboxId {
    /// The string that the id is.
    pub closed spec fn text(self) -> String {
        self.0
    }

    /// The id that is the string `id` converts into.
    pub fn new(id: impl Into<String>) -> (r: Self)
        ensures
            call_ensures(Into::into, (id,), r.text()),
    {
        SandboxId(id.into())
    }

    /// The id as text.
    pub fn as_str(&self) -> (r: &str)
        ensures
            r@ == self@,
    {
        self.0.as_str()
    }

    /// How the id is displayed: as its text.
    pub fn to_string(&self) -> (r: String)
        ensures
            r@ == self@,
    {
        self.0.clone()
    }

    /// Whether two ids are the same name.
    pub fn same(&self, other: &SandboxId) -> (r: bool)
        ensures
            r == (self@ == other@),
    {
        self.0 == other.0
    }
}

impl View for SandboxId {
    type V = Seq<char>;

    open spec fn view(&self) -> Seq<char> {
        self.text()@
    }
}

/// The state of a sandbox, as far as a cluster tells.
#[derive(Debug, Clone, Copy, PartialEq, Eq, Structural)]
pub enum SandboxState {
    Creating,
    Running,
    Paused,
    Stopping,
    Stopped,
    Destroyed,
    Failed,
}

impl SandboxState {
    /// The name of the state.
    pub open spec fn name(self) -> Seq<char> {
        match self {
            SandboxState::Creating => "Creating"@,
            SandboxState::Running => "Running"@,
            SandboxState::Paused => "Paused"@,
            SandboxState::Stopping => "Stopping"@,
            SandboxState::Stopped => "Stopped"@,
            SandboxState::Destroyed => "Destroyed"@,
            SandboxState::Failed => "Failed"@,
        }
    }

    /// The name of the state, which is also how it is written for debugging.
    pub fn debug_name(&self) -> (r: &'static str)
        ensures
            r@ == self.name(),
    {
        match self {
            SandboxState::Creating => "Creating",
            SandboxState::Running => "Running",
            SandboxState::Paused => "Paused",
            SandboxState::Stopping => "Stopping",
            SandboxState::Stopped => "Stopped",
            SandboxState::Destroyed => "Destroyed",
            SandboxState::Failed => "Failed",
        }
    }
}

// ---------------------------------------------------------------------------
// Spec
// ---------------------------------------------------------------------------

/// Everything needed to run a sandbox, and nothing about who runs it.
#[derive(Clone, PartialEq, Eq)]
pub struct SandboxSpec {
    pub image: ImageRef,
    pub resources: SandboxResources,
    pub env: SandboxEnv,
    pub storage: SandboxStorage,
    pub deadline: Deadline,
    pub labels: StringMap<String>,
}

/// How long a sandbox may run: whole seconds, and the nanoseconds beyond them.
#[derive(Debug, Clone, Copy, PartialEq, Eq)]
pub struct Deadline {
    pub secs: u64,
    pub subsec_nanos: u32,
}

impl Deadline {
    /// A deadline of whole seconds.
    pub fn from_secs(secs: u64) -> (r: Self)
        ensures
            r.secs == secs,
            r.subsec_nanos == 0,
    {
        Deadline { secs, subsec_nanos: 0 }
    }
}

/// The limits of a sandbox. All of them have to be given: there is no default.
#[derive(Debug, Clone, Copy, PartialEq, Eq)]
pub struct SandboxResources {
    pub memory_mb: u32,
    pub cpu_millis: u32,
    pub disk_mb: u32,
    pub max_pids: u32,
}

/// Content-addressed, never a path. Digest over tag for the same reason you pin
/// dependencies: "which image ran this agent" must be answerable afterward.
#[derive(Debug, Clone, PartialEq, Eq)]
pub enum ImageRef {
    Digest(SandboxImageDigest),
    Tag(String),
}

impl ImageRef {
    /// The digest or the tag, whichever the reference holds.
    pub open spec fn reference(self) -> Seq<char> {
        match self {
            ImageRef::Digest(digest) => digest@,
            ImageRef::Tag(tag) => tag@,
        }
    }

    /// The digest or the tag, whichever the reference holds.
    pub fn as_str(&self) -> (r: &str)
        ensures
            r@ == self.reference(),
    {
        match self {
            ImageRef::Digest(digest) => digest.as_str(),
            ImageRef::Tag(tag) => tag.as_str(),
        }
    }
}

/// The digest of an image.
#[derive(Debug, Clone, PartialEq, Eq, Hash)]
pub struct SandboxImageDigest(String);

impl SandboxImageDigest {
    /// The string that the digest is.
    pub closed spec fn text(self) -> String {
        self.0
    }

    /// The digest that is the string `digest` converts into.
    pub fn new(digest: impl Into<String>) -> (r: Self)
        ensures
            call_ensures(Into::into, (digest,), r.text()),
    {
        SandboxImageDigest(digest.into())
    }

    /// The digest as text.
    pub fn as_str(&self) -> (r: &str)
        ensures
            r@ == self@,
    {
        self.0.as_str()
    }
}

impl View for SandboxImageDigest {
    type V = Seq<char>;

    open spec fn view(&self) -> Seq<char> {
        self.text()@
    }
}

/// The environment of a sandbox: plain variables, and references to secrets.
#[derive(Clone, PartialEq, Eq)]
pub struct SandboxEnv {
    pub vars: StringMap<String>,
    pub secrets: StringMap<SecretRef>,
}

/// A reference to secret material, not the material itself: the backend resolves it.
#[derive(Clone, PartialEq, Eq)]
pub struct SecretRef {
    pub name: String,
    pub key: String,
}

impl SecretRef {
    /// How a reference is written for debugging: the same for every reference, so that neither
    /// name nor key reaches a log.
    pub fn debug_text(&self) -> (r: &'static str)
        ensures
            r@ == "<redacted>"@,
    {
        "<redacted>"
    }
}

/// The storage of a sandbox.
#[derive(Debug, Clone, PartialEq, Eq)]
pub struct SandboxStorage {
    pub workspace_mb: u32,
    pub seed: Vec<SeedFile>,
    pub state_volume: Option<StateVolumeSpec>,
}

/// A file that is in the workspace before the sandbox starts.
#[derive(Debug, Clone, PartialEq, Eq)]
pub struct SeedFile {
    pub path: String,
    pub contents: bytes::Bytes,
}

/// The volume that outlives a pause.
#[derive(Debug, Clone, PartialEq, Eq)]
pub struct StateVolumeSpec {
    pub size_mb: u32,
}

// ---------------------------------------------------------------------------
// Laws
// ---------------------------------------------------------------------------

/// An id is its text and nothing else: ids made of two strings are the same name exactly if the
/// strings hold the same text, whatever that is.
pub proof fn law_ids_are_their_texts(a: String, b: String, x: SandboxId, y: SandboxId)
    requires
        call_ensures(<String as Into<String>>::into, (a,), x.text()),
        call_ensures(<String as Into<String>>::into, (b,), y.text()),
    ensures
        x@ == a@,
        x == y <==> a == b,
        x@ == y@ <==> a@ == b@,
{
}

/// An id is the text that it was made of, in all it is asked for, and two ids are the same name if
/// and only if their texts are.
pub proof fn law_ids_keep_their_text(
    a: String,
    b: &str,
    x: SandboxId,
    y: SandboxId,
    shown: &str,
    written: String,
    same: bool,
)
    requires
        call_ensures(SandboxId::new, (a,), x),
        call_ensures(SandboxId::new, (b,), y),
        call_ensures(SandboxId::as_str, (&x,), shown),
        call_ensures(SandboxId::to_string, (&x,), written),
        call_ensures(SandboxId::same, (&x, &y), same),
    ensures
        x@ == a@,
        y@ == b@,
        shown@ == a@,
        written@ == a@,
        same <==> a@ == b@,
{
}

/// An image is named by its digest or its tag, as it was given.
pub proof fn law_images_keep_their_text(
    a: String,
    digest: SandboxImageDigest,
    shown: &str,
    by_digest: &str,
    by_tag: &str,
)
    requires
        call_ensures(SandboxImageDigest::new, (a,), digest),
        call_ensures(SandboxImageDigest::as_str, (&digest,), shown),
        call_ensures(ImageRef::as_str, (&ImageRef::Digest(digest),), by_digest),
        call_ensures(ImageRef::as_str, (&ImageRef::Tag(a),), by_tag),
    ensures
        shown@ == a@,
        by_digest@ == a@,
        by_tag@ == a@,
{
}

/// Every state is written by its own name.
pub proof fn law_states_are_written_by_name(state: SandboxState, r: &'static str)
    requires
        call_ensures(SandboxState::debug_name, (&state,), r),
    ensures
        state is Creating ==> r@ == "Creating"@,
        state is Running ==> r@ == "Running"@,
        state is Paused ==> r@ == "Paused"@,
        state is Stopping ==> r@ == "Stopping"@,
        state is Stopped ==> r@ == "Stopped"@,
        state is Destroyed ==> r@ == "Destroyed"@,
        state is Failed ==> r@ == "Failed"@,
{
}

/// Nothing of a secret is shown: all secrets are shown alike.
pub proof fn law_secrets_are_not_shown(
    a: SecretRef,
    b: SecretRef,
    x: &'static str,
    y: &'static str,
)
    requires
        call_ensures(SecretRef::debug_text, (&a,), x),
        call_ensures(SecretRef::debug_text, (&b,), y),
    ensures
        x@ == y@,
        x@ == "<redacted>"@,
{
}

/// A deadline of so many seconds is exactly that many.
pub proof fn law_deadlines_are_exact(secs: u64, r: Deadline)
    requires
        call_ensures(Deadline::from_secs, (secs,), r),
    ensures
        r.secs == secs,
        r.subsec_nanos == 0,
{
}

} // verus!
