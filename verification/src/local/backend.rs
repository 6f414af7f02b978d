//! The sandboxes of the local backend and what it decides about them.
//!
//! The processes themselves are outside: a caller looks at them, starts and kills them, and
//! tells the backend what it saw. Operations that need something done to a process say so in
//! their result.
use tokio::sync::broadcast;
use vstd::prelude::*;

use crate::lifecycle::{
    DiscoveredSandbox, PauseFidelity, SandboxBackendCapabilities, SandboxBackendHealth,
    SandboxBackendId, SandboxDestroyed, SandboxError, SandboxFailure, SandboxObservedArtifacts,
    SandboxOutcome, SandboxState, SandboxStatus, SandboxStatusEvent, SandboxTransitionCause,
    SandboxUsage, Timestamp,
};
use crate::local::record::{
    is_terminal, law_subscribers_are_told, ChildProbe, EventFeed, RecordModel, SandboxRecord,
    EVENTS_CAPACITY,
};
use crate::local::resources::address_space_limit;
use crate::local::usage::{read_memory_mb, resident_mb};
use crate::pairs::{
    distinct, has_key, lemma_insert_pair, lemma_pair_at, lemma_remove_pair, lemma_replace_value,
    lemma_same_keys, pairs_map,
};
use crate::text::{decimal, decimal_injective, decimal_text, lemma_decimal, written};
use crate::types::{ImageRef, SandboxId, SandboxSpec};

verus! {

broadcast use vstd::string::group_string_axioms;

/// Why a sandbox is not paused, nor resumed from a pause.
pub const PAUSE_UNSUPPORTED: &'static str = "sandbox-local: pause_fidelity is None (RFC open question 4)";

/// The program that an image stands for: the local backend takes the reference as a path.
pub fn image_path(image: &ImageRef) -> (r: &str)
    ensures
        r@ == image.reference(),
{
    image.as_str()
}

/// The process that a sandbox is to run in.
pub struct SpawnPlan {
    /// The path of the program.
    pub program: String,
    /// The whole environment of the process: nothing is inherited.
    pub environment: Vec<(String, String)>,
    /// The bytes of address space that the process may reserve.
    pub address_space: u64,
}

/// What is left to do for a sandbox to be created, once its process was to be started.
pub enum StartStep {
    /// The process runs and has to be put on record.
    Register(u32),
    /// The process was never started; creating fails with this error.
    Fail(SandboxError),
    /// The process has to be killed and reaped; then creating fails with this error.
    KillThenFail(SandboxError),
}

/// What is left to do for a sandbox to be stopped.
pub enum StopStep {
    /// Nothing: this is the result.
    Done(Result<(), SandboxError>),
    /// The process has to be killed and reaped; then the stop has to be completed.
    KillThenComplete,
}

/// What destroying a sandbox came to, and whether its process has to be killed and reaped.
#[derive(Debug, Clone, Copy, PartialEq, Eq)]
pub struct Teardown {
    pub result: SandboxDestroyed,
    pub kill: bool,
}

/// What was seen of the process of a sandbox.
pub struct Observation {
    pub id: SandboxId,
    pub probe: ChildProbe,
}

/// What the observations say of the sandbox `id`: the first one of it counts, and one that was
/// not observed is taken to run.
pub open spec fn observed(observations: Seq<Observation>, id: Seq<char>) -> ChildProbe
    decreases observations.len(),
{
    if observations.len() == 0 {
        ChildProbe::StillRunning
    } else if observations[0].id@ == id {
        observations[0].probe
    } else {
        observed(observations.drop_first(), id)
    }
}

/// What the observations say of the sandbox `id`.
pub fn find_probe(observations: &Vec<Observation>, id: &SandboxId) -> (r: ChildProbe)
    ensures
        r == observed(observations@, id@),
{
    let n: usize = observations.len();
    let mut i: usize = 0;
    assert(observations@.skip(0) =~= observations@);
    while i < n
        invariant
            n == observations@.len(),
            i <= n,
            observed(observations@.skip(i as int), id@) == observed(observations@, id@),
        decreases n - i,
    {
        if observations[i].id.same(id) {
            return observations[i].probe.clone();
        }
        assert(observations@.skip(i as int).drop_first() =~= observations@.skip(i + 1));
        i = i + 1;
    }
    ChildProbe::StillRunning
}

/// The sandboxes on record, by their ids.
pub type Records = Map<Seq<char>, RecordModel>;

/// The records after a look at the process of the sandbox `id`. Of a sandbox that is not on
/// record nothing is noted.
pub open spec fn refreshed_records(
    records: Records,
    id: Seq<char>,
    probe: ChildProbe,
    now: Timestamp,
) -> Records {
    if records.contains_key(id) {
        records.insert(id, records[id].refreshed(id, probe, now))
    } else {
        records
    }
}

/// The records after a look at every process.
pub open spec fn all_refreshed(
    records: Records,
    observations: Seq<Observation>,
    now: Timestamp,
) -> Records {
    Map::new(
        |id: Seq<char>| records.contains_key(id),
        |id: Seq<char>| records[id].refreshed(id, observed(observations, id), now),
    )
}

/// The records after a stop of the sandbox `id` was completed.
pub open spec fn stopped_records(records: Records, id: Seq<char>, now: Timestamp) -> Records {
    records.insert(id, records[id].stopped_by_request(id, SandboxOutcome::Killed, now))
}

/// The id of a sandbox that runs in the process `pid`.
pub open spec fn local_id(pid: u32) -> Seq<char> {
    "local-"@ + decimal(pid as nat)
}

/// Whether a record of the sandbox `id` is one that the backend can come to: the id tells the
/// process, the events tell the whole story, and the sandbox either runs since it was created or
/// has come to its end by the one change of state that it ever makes.
pub open spec fn plausible(id: Seq<char>, record: RecordModel) -> bool {
    &&& id == local_id(record.pid)
    &&& record.told(id)
    &&& {
        ||| {
            &&& record.state is Running
            &&& record.outcome is None
            &&& record.seq == 0
            &&& record.state_since == record.created_at
        }
        ||| record.state.terminal() && record.seq == 1
    }
}

/// Whether all records are plausible.
pub open spec fn all_plausible(records: Records) -> bool {
    forall|id: Seq<char>| #[trigger] records.contains_key(id) ==> plausible(id, records[id])
}

/// The error of a request to pause or resume the sandbox `id` that cannot be met because it came
/// too late: it was cancelled, the sandbox is not on record, or it has come to its end.
pub open spec fn too_late(records: Records, id: SandboxId, cancelled: bool) -> Option<SandboxError> {
    if cancelled {
        Some(SandboxError::Cancelled)
    } else if !records.contains_key(id@) {
        Some(SandboxError::NotFound(id))
    } else if records[id@].state.terminal() {
        Some(SandboxError::Terminal(records[id@].state))
    } else {
        None
    }
}

/// What a request to pause the sandbox `id` is answered, with these records after the look at its
/// process: there is no pausing.
pub open spec fn pause_answer(
    records: Records,
    id: SandboxId,
    cancelled: bool,
    r: Result<(), SandboxError>,
) -> bool {
    match too_late(records, id, cancelled) {
        Some(err) => r == Err::<(), SandboxError>(err),
        None => r matches Err(SandboxError::Unsupported(why)) && why@ == PAUSE_UNSUPPORTED@,
    }
}

/// What a request to resume the sandbox `id` is answered, with these records after the look at its
/// process: there is nothing to do for one that runs, and no resuming otherwise.
pub open spec fn resume_answer(
    records: Records,
    id: SandboxId,
    cancelled: bool,
    r: Result<(), SandboxError>,
) -> bool {
    match too_late(records, id, cancelled) {
        Some(err) => r == Err::<(), SandboxError>(err),
        None => if records[id@].state is Running {
            r is Ok
        } else {
            r matches Err(SandboxError::Unsupported(why)) && why@ == PAUSE_UNSUPPORTED@
        },
    }
}

struct Entry {
    id: SandboxId,
    record: SandboxRecord,
}

/// Dev/test backend over child processes. It cannot pause.
///
/// What of a spec this backend does not act on: the image is taken as the path of a program,
/// secrets are never injected, storage is not provisioned, labels have nowhere to go, and the
/// deadline is not enforced.
pub struct LocalSandboxBackend {
    id: SandboxBackendId,
    entries: Vec<Entry>,
}

/// The pairs of id and record of a list of entries.
spec fn listing(entries: Seq<Entry>) -> Seq<(Seq<char>, RecordModel)> {
    entries.map_values(|e: Entry| (e.id@, e.record@))
}

/// The pairs of id and channel of a list of entries.
spec fn wiring(entries: Seq<Entry>) -> Seq<(Seq<char>, broadcast::Sender<SandboxStatusEvent>)> {
    entries.map_values(|e: Entry| (e.id@, e.record.publisher().sender()))
}

/// The channels are told apart by the ids as the records are.
proof fn lemma_wiring(entries: Seq<Entry>)
    requires
        distinct(listing(entries)),
    ensures
        distinct(wiring(entries)),
        forall|id: Seq<char>| has_key(wiring(entries), id) <==> has_key(listing(entries), id),
{
    let list = listing(entries);
    let wires = wiring(entries);
    assert forall|i: int, j: int| 0 <= i < j < wires.len() implies (#[trigger] wires[i]).0 != (
    #[trigger] wires[j]).0 by {
        assert(wires[i].0 == list[i].0);
        assert(wires[j].0 == list[j].0);
    }
    assert forall|id: Seq<char>| has_key(wires, id) <==> has_key(list, id) by {
        if has_key(wires, id) {
            let i = choose|i: int| 0 <= i < wires.len() && (#[trigger] wires[i]).0 == id;
            assert(list[i].0 == id);
        }
        if has_key(list, id) {
            let i = choose|i: int| 0 <= i < list.len() && (#[trigger] list[i]).0 == id;
            assert(wires[i].0 == id);
        }
    }
}

/// Whether all subscribers may lag behind as far as they should.
spec fn all_roomy(entries: Seq<Entry>) -> bool {
    forall|i: int|
        0 <= i < entries.len() ==> (#[trigger] entries[i]).record.publisher().capacity()
            == EVENTS_CAPACITY
}

impl View for LocalSandboxBackend {
    type V = Records;

    closed spec fn view(&self) -> Records {
        pairs_map(listing(self.entries@))
    }
}

impl LocalSandboxBackend {
    #[verifier::type_invariant]
    spec fn consistent(self) -> bool {
        &&& self.id@ == "local"@
        &&& distinct(listing(self.entries@))
        &&& all_plausible(pairs_map(listing(self.entries@)))
        &&& all_roomy(self.entries@)
    }

    /// The channels that the events of the sandboxes on record are published on, by their ids.
    pub closed spec fn channels(self) -> Map<Seq<char>, broadcast::Sender<SandboxStatusEvent>> {
        pairs_map(wiring(self.entries@))
    }

    /// A backend without sandboxes.
    pub fn new() -> (r: Self)
        ensures
            r@ == Records::empty(),
            r.channels() == Map::<Seq<char>, broadcast::Sender<SandboxStatusEvent>>::empty(),
    {
        let r = LocalSandboxBackend {
            id: SandboxBackendId::new("local"),
            entries: Vec::new(),
        };
        assert(r@ =~= Records::empty());
        assert(r.channels() =~= Map::empty());
        r
    }

    /// Where the sandbox `id` stands among the entries.
    fn find(&self, id: &SandboxId) -> (r: Option<usize>)
        ensures
            match r {
                Some(i) => {
                    &&& i < self.entries@.len()
                    &&& self.entries@[i as int].id@ == id@
                    &&& self@.contains_pair(id@, self.entries@[i as int].record@)
                    &&& self.channels().contains_pair(
                        id@,
                        self.entries@[i as int].record.publisher().sender(),
                    )
                },
                None => !self@.contains_key(id@),
            },
    {
        proof {
            use_type_invariant(self);
        }
        let ghost list = listing(self.entries@);
        let n: usize = self.entries.len();
        let mut i: usize = 0;
        while i < n
            invariant
                n == self.entries@.len(),
                i <= n,
                list == listing(self.entries@),
                distinct(list),
                forall|j: int| 0 <= j < i ==> (#[trigger] list[j]).0 != id@,
            decreases n - i,
        {
            if self.entries[i].id.same(id) {
                proof {
                    lemma_pair_at(list, i as int);
                    lemma_wiring(self.entries@);
                    lemma_pair_at(wiring(self.entries@), i as int);
                }
                return Some(i);
            }
            i = i + 1;
        }
        None
    }

    /// Takes note of what was seen of the process of the sandbox `id`, and where the sandbox
    /// stands among the entries.
    fn refresh_known(&mut self, id: &SandboxId, probe: ChildProbe, now: Timestamp) -> (r: Option<
        usize,
    >)
        ensures
            final(self)@ == refreshed_records(old(self)@, id@, probe, now),
            final(self).channels() == old(self).channels(),
            r is Some <==> old(self)@.contains_key(id@),
            r matches Some(i) ==> {
                &&& i < final(self).entries@.len()
                &&& final(self).entries@[i as int].record@ == final(self)@[id@]
            },
    {
        proof {
            use_type_invariant(&*self);
        }
        match self.find(id) {
            None => None,
            Some(i) => {
                let ghost before = listing(self.entries@);
                let ghost wires = wiring(self.entries@);
                let ghost record = self.entries@[i as int].record@;
                let mut entries: Vec<Entry> = Vec::new();
                std::mem::swap(&mut entries, &mut self.entries);
                entries[i].record.refresh(id, probe, now);
                proof {
                    let after = before.update(i as int, (id@, record.refreshed(id@, probe, now)));
                    assert(before[i as int] == (id@, record));
                    lemma_replace_value(before, i as int, record.refreshed(id@, probe, now));
                    assert(listing(entries@) =~= after);
                    assert(wiring(entries@) =~= wires);
                    law_refresh_keeps_plausible(pairs_map(before), id@, probe, now);
                }
                self.entries = entries;
                Some(i)
            },
        }
    }

    /// The name of the backend.
    pub fn id(&self) -> (r: SandboxBackendId)
        ensures
            r@ == "local"@,
    {
        proof {
            use_type_invariant(self);
        }
        self.id.clone()
    }

    /// What the backend can do: it has neither pausing nor volumes nor pools, and no capacity of
    /// its own to run out of.
    pub fn capabilities(&self) -> (r: SandboxBackendCapabilities)
        ensures
            r == (SandboxBackendCapabilities {
                pause_fidelity: PauseFidelity::NoPause,
                state_volumes: false,
                warm_pool: false,
                gpu: false,
                max_memory_mb: u32::MAX,
            }),
    {
        SandboxBackendCapabilities {
            pause_fidelity: PauseFidelity::NoPause,
            state_volumes: false,
            warm_pool: false,
            gpu: false,
            max_memory_mb: u32::MAX,
        }
    }

    /// Always ready, without an answer on how much more it takes.
    pub fn health(&self) -> (r: SandboxBackendHealth)
        ensures
            r == (SandboxBackendHealth::Ready { available_slots: None }),
    {
        SandboxBackendHealth::Ready { available_slots: None }
    }

    /// The process that a sandbox of `spec` is to run in, unless the caller has already
    /// cancelled.
    pub fn plan_create(spec: &SandboxSpec, cancelled: bool) -> (r: Result<SpawnPlan, SandboxError>)
        ensures
            if cancelled {
                r matches Err(SandboxError::Cancelled)
            } else {
                &&& r matches Ok(plan)
                &&& plan.program@ == spec.image.reference()
                &&& plan.address_space == spec.resources.memory_mb * 1_048_576
                &&& plan.environment@.len() == spec.env.vars.pairs().len()
                &&& forall|i: int|
                    0 <= i < plan.environment@.len() ==> {
                        &&& (#[trigger] plan.environment@[i]).0@ == spec.env.vars.pairs()[i].0
                        &&& plan.environment@[i].1 == spec.env.vars.pairs()[i].1
                    }
            },
    {
        if cancelled {
            return Err(SandboxError::Cancelled);
        }
        let mut environment: Vec<(String, String)> = Vec::new();
        let n: usize = spec.env.vars.len();
        let mut i: usize = 0;
        while i < n
            invariant
                n == spec.env.vars.pairs().len(),
                i <= n,
                environment@.len() == i,
                forall|j: int|
                    0 <= j < i ==> {
                        &&& (#[trigger] environment@[j]).0@ == spec.env.vars.pairs()[j].0
                        &&& environment@[j].1 == spec.env.vars.pairs()[j].1
                    },
            decreases n - i,
        {
            let (name, value): (&str, &String) = spec.env.vars.entry(i);
            environment.push((name.to_owned(), value.clone()));
            i = i + 1;
        }
        Ok(
            SpawnPlan {
                program: image_path(&spec.image).to_owned(),
                environment,
                address_space: address_space_limit(spec.resources.memory_mb),
            },
        )
    }

    /// What is left to do once the process of a sandbox was to be started: where that failed, or
    /// the caller cancelled meanwhile, there is to be no sandbox.
    pub fn after_start(started: Result<u32, std::io::Error>, cancelled: bool) -> (r: StartStep)
        ensures
            r == (match started {
                Err(err) => StartStep::Fail(SandboxError::Backend(err)),
                Ok(pid) => if cancelled {
                    StartStep::KillThenFail(SandboxError::Cancelled)
                } else {
                    StartStep::Register(pid)
                },
            }),
    {
        match started {
            Err(err) => StartStep::Fail(SandboxError::Backend(err)),
            Ok(pid) => if cancelled {
                StartStep::KillThenFail(SandboxError::Cancelled)
            } else {
                StartStep::Register(pid)
            },
        }
    }

    /// Puts a sandbox on record whose process `pid` was started. A record that an earlier process
    /// of the same number left is replaced.
    pub fn finish_create(&mut self, pid: u32, now: Timestamp) -> (r: SandboxId)
        ensures
            r@ == local_id(pid),
            final(self)@ == old(self)@.insert(local_id(pid), RecordModel::fresh(pid, now)),
            final(self).channels().remove(local_id(pid)) == old(self).channels().remove(
                local_id(pid),
            ),
            final(self).channels().contains_key(local_id(pid)),
    {
        proof {
            use_type_invariant(&*self);
            lemma_wiring(self.entries@);
        }
        let id = SandboxId::new(String::from_str("local-").concat(decimal_text(pid as u64).as_str()));
        let record = SandboxRecord::new(pid, now);
        let ghost before = listing(self.entries@);
        let ghost wires = wiring(self.entries@);
        let ghost channel = record.publisher().sender();
        let ghost fresh = RecordModel::fresh(pid, now);
        let found: Option<usize> = self.find(&id);
        let mut entries: Vec<Entry> = Vec::new();
        std::mem::swap(&mut entries, &mut self.entries);
        match found {
            Some(i) => {
                entries[i] = Entry { id: id.clone(), record };
                proof {
                    lemma_replace_value(before, i as int, fresh);
                    assert(listing(entries@) =~= before.update(i as int, (id@, fresh)));
                    lemma_replace_value(wires, i as int, channel);
                    assert(wiring(entries@) =~= wires.update(i as int, (id@, channel)));
                }
            },
            None => {
                entries.push(Entry { id: id.clone(), record });
                proof {
                    lemma_insert_pair(before, before.len() as int, id@, fresh);
                    assert(listing(entries@) =~= before.insert(before.len() as int, (id@, fresh)));
                    lemma_insert_pair(wires, wires.len() as int, id@, channel);
                    assert(wiring(entries@) =~= wires.insert(wires.len() as int, (id@, channel)));
                }
            },
        }
        self.entries = entries;
        proof {
            assert(self.channels() == pairs_map(wires).insert(id@, channel));
            assert(self.channels().remove(id@) =~= pairs_map(wires).remove(id@));
        }
        id
    }

    /// Whether the process of the sandbox `id` has to be looked at before an operation on it:
    /// the sandbox is on record, and not in a terminal state.
    pub fn needs_probe(&self, id: &SandboxId) -> (r: bool)
        ensures
            r == (self@.contains_key(id@) && !self@[id@].state.terminal()),
    {
        match self.find(id) {
            Some(i) => !is_terminal(self.entries[i].record.state()),
            None => false,
        }
    }

    /// The state of the sandbox `id` after a look at its process, unless a request to pause or
    /// resume it came too late.
    fn unfinished(
        &mut self,
        id: &SandboxId,
        cancelled: bool,
        probe: ChildProbe,
        now: Timestamp,
    ) -> (r: Result<SandboxState, SandboxError>)
        ensures
            final(self)@ == (if cancelled {
                old(self)@
            } else {
                refreshed_records(old(self)@, id@, probe, now)
            }),
            final(self).channels() == old(self).channels(),
            match too_late(final(self)@, *id, cancelled) {
                Some(err) => r == Err::<SandboxState, SandboxError>(err),
                None => r == Ok::<SandboxState, SandboxError>(final(self)@[id@].state),
            },
    {
        if cancelled {
            return Err(SandboxError::Cancelled);
        }
        match self.refresh_known(id, probe, now) {
            None => Err(SandboxError::NotFound(id.clone())),
            Some(i) => {
                let state: &SandboxState = self.entries[i].record.state();
                if is_terminal(state) {
                    Err(SandboxError::Terminal(state.clone()))
                } else {
                    Ok(state.clone())
                }
            },
        }
    }

    /// Pausing is never supported. Freezing the process would keep more than the backends that
    /// do pause, and would let tests pass on guarantees that those do not give.
    pub fn pause(
        &mut self,
        id: &SandboxId,
        cancelled: bool,
        probe: ChildProbe,
        now: Timestamp,
    ) -> (r: Result<(), SandboxError>)
        ensures
            final(self)@ == (if cancelled {
                old(self)@
            } else {
                refreshed_records(old(self)@, id@, probe, now)
            }),
            pause_answer(final(self)@, *id, cancelled, r),
            final(self).channels() == old(self).channels(),
    {
        match self.unfinished(id, cancelled, probe, now) {
            Ok(_) => Err(SandboxError::Unsupported(PAUSE_UNSUPPORTED)),
            Err(err) => Err(err),
        }
    }

    /// Resuming a sandbox that runs does nothing and succeeds. There are no paused ones to
    /// resume.
    pub fn resume(
        &mut self,
        id: &SandboxId,
        cancelled: bool,
        probe: ChildProbe,
        now: Timestamp,
    ) -> (r: Result<(), SandboxError>)
        ensures
            final(self)@ == (if cancelled {
                old(self)@
            } else {
                refreshed_records(old(self)@, id@, probe, now)
            }),
            resume_answer(final(self)@, *id, cancelled, r),
            final(self).channels() == old(self).channels(),
            !cancelled && final(self)@.contains_key(id@) && final(self)@[id@].state is Running
                ==> r is Ok,
            probe is StillRunning ==> final(self)@ == old(self)@,
    {
        proof {
            assert(refreshed_records(old(self)@, id@, ChildProbe::StillRunning, now) =~= old(
                self,
            )@);
        }
        match self.unfinished(id, cancelled, probe, now) {
            Ok(SandboxState::Running) => Ok(()),
            Ok(_) => Err(SandboxError::Unsupported(PAUSE_UNSUPPORTED)),
            Err(err) => Err(err),
        }
    }

    /// Starts to stop a sandbox. One in a terminal state is stopped already, and stopping it
    /// again succeeds.
    pub fn stop(
        &mut self,
        id: &SandboxId,
        cancelled: bool,
        probe: ChildProbe,
        now: Timestamp,
    ) -> (r: StopStep)
        ensures
            final(self)@ == (if cancelled {
                old(self)@
            } else {
                refreshed_records(old(self)@, id@, probe, now)
            }),
            stop_answer(final(self)@, *id, cancelled, r),
            final(self).channels() == old(self).channels(),
    {
        if cancelled {
            return StopStep::Done(Err(SandboxError::Cancelled));
        }
        match self.refresh_known(id, probe, now) {
            None => StopStep::Done(Err(SandboxError::NotFound(id.clone()))),
            Some(i) => {
                if is_terminal(self.entries[i].record.state()) {
                    StopStep::Done(Ok(()))
                } else {
                    StopStep::KillThenComplete
                }
            },
        }
    }

    /// Takes note of the process of a sandbox that was being stopped having been killed.
    pub fn complete_stop(&mut self, id: &SandboxId, now: Timestamp) -> (r: Result<(), SandboxError>)
        requires
            old(self)@.contains_key(id@),
            !old(self)@[id@].state.terminal(),
        ensures
            final(self)@ == stopped_records(old(self)@, id@, now),
            final(self).channels() == old(self).channels(),
            r is Ok,
    {
        proof {
            use_type_invariant(&*self);
        }
        let found: Option<usize> = self.find(id);
        let i: usize = found.unwrap();
        let ghost before = listing(self.entries@);
        let ghost wires = wiring(self.entries@);
        let ghost stopped = self.entries@[i as int].record@.stopped_by_request(
            id@,
            SandboxOutcome::Killed,
            now,
        );
        let mut entries: Vec<Entry> = Vec::new();
        std::mem::swap(&mut entries, &mut self.entries);
        entries[i].record.mark_stopped_by(id, SandboxOutcome::Killed, now);
        proof {
            assert(before[i as int].0 == id@);
            lemma_replace_value(before, i as int, stopped);
            assert(listing(entries@) =~= before.update(i as int, (id@, stopped)));
            assert(wiring(entries@) =~= wires);
        }
        self.entries = entries;
        Ok(())
    }

    /// Takes a sandbox off the record. A sandbox on record is destroyed by this, whether its
    /// process still runs or not; `Leaked` is for when there is nothing on record, because the
    /// id was never known or was destroyed before.
    pub fn destroy(&mut self, id: &SandboxId) -> (r: Teardown)
        ensures
            final(self)@ == old(self)@.remove(id@),
            final(self).channels() == old(self).channels().remove(id@),
            r.result == destroy_result(old(self)@, id@),
            r.kill == (old(self)@.contains_key(id@) && !old(self)@[id@].state.terminal()),
    {
        proof {
            use_type_invariant(&*self);
        }
        match self.find(id) {
            None => {
                proof {
                    lemma_wiring(self.entries@);
                    assert(self@ =~= self@.remove(id@));
                    assert(self.channels() =~= self.channels().remove(id@));
                }
                Teardown { result: SandboxDestroyed::Leaked, kill: false }
            },
            Some(i) => {
                let ghost before = listing(self.entries@);
                let ghost wires = wiring(self.entries@);
                proof {
                    lemma_wiring(self.entries@);
                }
                let mut entries: Vec<Entry> = Vec::new();
                std::mem::swap(&mut entries, &mut self.entries);
                let entry: Entry = entries.remove(i);
                proof {
                    assert(before[i as int].0 == id@);
                    lemma_remove_pair(before, i as int);
                    assert(listing(entries@) =~= before.remove(i as int));
                    assert(wires[i as int].0 == id@);
                    lemma_remove_pair(wires, i as int);
                    assert(wiring(entries@) =~= wires.remove(i as int));
                }
                self.entries = entries;
                Teardown {
                    result: SandboxDestroyed::Destroyed,
                    kill: !is_terminal(entry.record.state()),
                }
            },
        }
    }

    /// The generation of the handles that a sandbox's input and output are given out by: always
    /// the first, for without pausing no handle goes stale. Nothing keeps a caller from asking
    /// more than once.
    pub fn open_io(&self, id: &SandboxId) -> (r: Result<u64, SandboxError>)
        ensures
            if self@.contains_key(id@) {
                r matches Ok(generation) && generation == 0
            } else {
                r == Err::<u64, SandboxError>(SandboxError::NotFound(*id))
            },
    {
        match self.find(id) {
            Some(_) => Ok(0),
            None => Err(SandboxError::NotFound(id.clone())),
        }
    }

    /// The status of a sandbox, after a look at its process.
    pub fn status(&mut self, id: &SandboxId, probe: ChildProbe, now: Timestamp) -> (r: Result<
        SandboxStatus,
        SandboxError,
    >)
        ensures
            final(self)@ == refreshed_records(old(self)@, id@, probe, now),
            final(self).channels() == old(self).channels(),
            if old(self)@.contains_key(id@) {
                r matches Ok(status) && shows(status, *id, final(self)@[id@])
            } else {
                r == Err::<SandboxStatus, SandboxError>(SandboxError::NotFound(*id))
            },
    {
        match self.refresh_known(id, probe, now) {
            None => Err(SandboxError::NotFound(id.clone())),
            Some(i) => {
                let backend_id: SandboxBackendId = self.id();
                let record: &SandboxRecord = &self.entries[i].record;
                Ok(
                    SandboxStatus {
                        id: id.clone(),
                        backend_id,
                        state: record.state().clone(),
                        seq: record.seq(),
                        io_generation: 0,
                        created_at: record.created_at(),
                        state_since: record.state_since(),
                        outcome: record.outcome(),
                    },
                )
            },
        }
    }

    /// The process whose use of resources is that of the sandbox `id`.
    pub fn usage_pid(&self, id: &SandboxId) -> (r: Result<u32, SandboxError>)
        ensures
            if self@.contains_key(id@) {
                r == Ok::<u32, SandboxError>(self@[id@].pid)
            } else {
                r == Err::<u32, SandboxError>(SandboxError::NotFound(*id))
            },
    {
        match self.find(id) {
            Some(i) => Ok(self.entries[i].record.pid()),
            None => Err(SandboxError::NotFound(id.clone())),
        }
    }

    /// Subscribes to the events of the sandbox `id` from now on, if it is on record. There is no
    /// replay of earlier ones.
    pub fn subscribe(&self, id: &SandboxId) -> (r: Option<EventFeed>)
        ensures
            r is Some <==> self@.contains_key(id@),
            r matches Some(feed) ==> {
                &&& feed.process() == self@[id@].pid
                &&& feed.missed() == self@[id@].events
                &&& self.channels().contains_key(id@)
                &&& feed.follows(self.channels()[id@], self@[id@])
                &&& feed.subscription().source().capacity() == EVENTS_CAPACITY
            },
    {
        proof {
            use_type_invariant(self);
        }
        match self.find(id) {
            Some(i) => Some(self.entries[i].record.subscribe()),
            None => None,
        }
    }

    /// Every sandbox on record, after a look at its process, in no particular order.
    pub fn discover(&mut self, observations: &Vec<Observation>, now: Timestamp) -> (r: Vec<
        DiscoveredSandbox,
    >)
        ensures
            final(self)@ == all_refreshed(old(self)@, observations@, now),
            final(self).channels() == old(self).channels(),
            lists_all(r@, final(self)@),
    {
        proof {
            use_type_invariant(&*self);
        }
        let ghost before = listing(self.entries@);
        let ghost wires = wiring(self.entries@);
        let backend_id: SandboxBackendId = self.id();
        let mut entries: Vec<Entry> = Vec::new();
        std::mem::swap(&mut entries, &mut self.entries);
        let mut found: Vec<DiscoveredSandbox> = Vec::new();
        let n: usize = entries.len();
        let mut i: usize = 0;
        proof {
            assert forall|j: int| 0 <= j < before.len() implies plausible(
                (#[trigger] before[j]).0,
                before[j].1,
            ) by {
                lemma_pair_at(before, j);
                assert(pairs_map(before).contains_key(before[j].0));
            }
        }
        while i < n
            invariant
                n == entries@.len(),
                n == before.len(),
                i <= n,
                backend_id@ == "local"@,
                forall|j: int| 0 <= j < n ==> plausible((#[trigger] before[j]).0, before[j].1),
                forall|j: int| 0 <= j < n ==> (#[trigger] entries@[j]).id@ == before[j].0,
                forall|j: int|
                    0 <= j < i ==> (#[trigger] entries@[j]).record@ == before[j].1.refreshed(
                        before[j].0,
                        observed(observations@, before[j].0),
                        now,
                    ),
                forall|j: int| i <= j < n ==> (#[trigger] entries@[j]).record@ == before[j].1,
                all_roomy(entries@),
                wiring(entries@) == wires,
                found@.len() == i,
                forall|j: int|
                    0 <= j < i ==> discovery(
                        #[trigger] found@[j],
                        entries@[j].id@,
                        entries@[j].record@,
                    ),
            decreases n - i,
        {
            let id: SandboxId = entries[i].id.clone();
            let probe: ChildProbe = find_probe(observations, &id);
            assert(plausible(before[i as int].0, before[i as int].1));
            entries[i].record.refresh(&id, probe, now);
            assert(wiring(entries@) =~= wires);
            found.push(
                DiscoveredSandbox {
                    id,
                    backend_id: backend_id.clone(),
                    state: entries[i].record.state().clone(),
                    artifacts: SandboxObservedArtifacts {
                        pid: Some(entries[i].record.pid()),
                        crd_uid: None,
                        pod_name: None,
                        pvc_name: None,
                    },
                },
            );
            i = i + 1;
        }
        proof {
            let after = listing(entries@);
            let records = pairs_map(before);
            assert(forall|j: int| 0 <= j < n ==> (#[trigger] after[j]).0 == before[j].0);
            lemma_same_keys(before, after);
            assert forall|id: Seq<char>| has_key(after, id) implies pairs_map(after)[id]
                == records[id].refreshed(id, observed(observations@, id), now) by {
                let j = choose|j: int| 0 <= j < after.len() && (#[trigger] after[j]).0 == id;
                lemma_pair_at(after, j);
                lemma_pair_at(before, j);
                assert(entries@[j].record@ == after[j].1);
            }
            assert(pairs_map(after) =~= all_refreshed(records, observations@, now));
            law_discover_keeps_plausible(records, observations@, now);
            assert forall|j: int| 0 <= j < found@.len() implies pairs_map(after).contains_key(
                (#[trigger] found@[j]).id@,
            ) && discovery(found@[j], found@[j].id@, pairs_map(after)[found@[j].id@]) by {
                lemma_pair_at(after, j);
                assert(after[j] == (entries@[j].id@, entries@[j].record@));
            }
            assert forall|id: Seq<char>| #[trigger] pairs_map(after).contains_key(id) implies exists|
                j: int,
            |
                0 <= j < found@.len() && (#[trigger] found@[j]).id@ == id by {
                let j = choose|j: int| 0 <= j < after.len() && (#[trigger] after[j]).0 == id;
                assert(after[j].0 == entries@[j].id@);
                assert(found@[j].id@ == id);
            }
            assert forall|j: int, k: int| 0 <= j < k < found@.len() implies (
            #[trigger] found@[j]).id@ != (#[trigger] found@[k]).id@ by {
                assert(after[j].0 == entries@[j].id@);
                assert(after[k].0 == entries@[k].id@);
            }
        }
        self.entries = entries;
        found
    }
}

/// Whether `found` is what is discovered of the sandbox `id` with this record.
pub open spec fn discovery(found: DiscoveredSandbox, id: Seq<char>, record: RecordModel) -> bool {
    &&& found.id@ == id
    &&& found.backend_id@ == "local"@
    &&& found.state == record.state
    &&& found.artifacts == (SandboxObservedArtifacts {
        pid: Some(record.pid),
        crd_uid: None,
        pod_name: None,
        pvc_name: None,
    })
}

/// Whether `found` lists every sandbox on record once and nothing else.
pub open spec fn lists_all(found: Seq<DiscoveredSandbox>, records: Records) -> bool {
    &&& forall|i: int|
        0 <= i < found.len() ==> {
            &&& records.contains_key((#[trigger] found[i]).id@)
            &&& discovery(found[i], found[i].id@, records[found[i].id@])
        }
    &&& forall|id: Seq<char>| #[trigger]
        records.contains_key(id) ==> exists|i: int|
            0 <= i < found.len() && (#[trigger] found[i]).id@ == id
    &&& forall|i: int, j: int|
        0 <= i < j < found.len() ==> (#[trigger] found[i]).id@ != (#[trigger] found[j]).id@
}

/// What a stop of the sandbox `id` is answered, with these records after the look at its
/// process.
pub open spec fn stop_answer(records: Records, id: SandboxId, cancelled: bool, r: StopStep) -> bool {
    if cancelled {
        r == StopStep::Done(Err(SandboxError::Cancelled))
    } else if !records.contains_key(id@) {
        r == StopStep::Done(Err(SandboxError::NotFound(id)))
    } else if records[id@].state.terminal() {
        r == StopStep::Done(Ok(()))
    } else {
        r == StopStep::KillThenComplete
    }
}

/// What destroying the sandbox `id` comes to.
pub open spec fn destroy_result(records: Records, id: Seq<char>) -> SandboxDestroyed {
    if records.contains_key(id) {
        SandboxDestroyed::Destroyed
    } else {
        SandboxDestroyed::Leaked
    }
}

/// The records after the sandbox `id` was stopped: a look at its process, and a kill unless that
/// showed it to be over.
pub open spec fn after_stop(
    records: Records,
    id: Seq<char>,
    probe: ChildProbe,
    now: Timestamp,
) -> Records {
    let seen = refreshed_records(records, id, probe, now);
    if seen.contains_key(id) && !seen[id].state.terminal() {
        stopped_records(seen, id, now)
    } else {
        seen
    }
}

/// Whether `status` is the snapshot of the sandbox `id` with this record.
pub open spec fn shows(status: SandboxStatus, id: SandboxId, record: RecordModel) -> bool {
    &&& status.id == id
    &&& status.backend_id@ == "local"@
    &&& status.state == record.state
    &&& status.seq == record.seq
    &&& status.io_generation == 0
    &&& status.created_at == record.created_at
    &&& status.state_since == record.state_since
    &&& status.outcome == record.outcome
}

/// What a sandbox uses, out of the system's status report on its process, if there is one: the
/// memory that it tells, or none; the one process; and nothing where an honest number cannot be
/// had.
pub fn usage_report(report: Option<&str>) -> (r: SandboxUsage)
    ensures
        r == (SandboxUsage {
            memory_mb: match report {
                Some(report) => match resident_mb(report@) {
                    Some(memory_mb) => memory_mb,
                    None => 0,
                },
                None => 0,
            },
            cpu_millis: 0,
            disk_mb: 0,
            pids: 1,
        }),
{
    let memory_mb: u32 = match report {
        Some(report) => match read_memory_mb(report) {
            Some(memory_mb) => memory_mb,
            None => 0,
        },
        None => 0,
    };
    SandboxUsage { memory_mb, cpu_millis: 0, disk_mb: 0, pids: 1 }
}

// ---------------------------------------------------------------------------
// Laws
// ---------------------------------------------------------------------------

/// Looking at a process leaves the records plausible.
pub proof fn law_refresh_keeps_plausible(
    records: Records,
    id: Seq<char>,
    probe: ChildProbe,
    now: Timestamp,
)
    requires
        all_plausible(records),
    ensures
        all_plausible(refreshed_records(records, id, probe, now)),
{
}

/// Looking at all processes leaves the records plausible.
pub proof fn law_discover_keeps_plausible(
    records: Records,
    observations: Seq<Observation>,
    now: Timestamp,
)
    requires
        all_plausible(records),
    ensures
        all_plausible(all_refreshed(records, observations, now)),
{
}

/// A backend starts with plausible records, and creating, stopping and destroying leave them
/// plausible. So every sandbox changes its state at most once, from running to its end.
pub proof fn law_records_are_plausible(
    records: Records,
    id: Seq<char>,
    pid: u32,
    probe: ChildProbe,
    now: Timestamp,
)
    requires
        all_plausible(records),
    ensures
        all_plausible(Records::empty()),
        all_plausible(records.insert(local_id(pid), RecordModel::fresh(pid, now))),
        all_plausible(after_stop(records, id, probe, now)),
        all_plausible(records.remove(id)),
{
}

/// Stopping twice succeeds: after a stop of a sandbox on record it is in a terminal state, and
/// another stop, whatever the process shows, finds nothing to do and changes nothing.
pub proof fn law_stop_is_idempotent(
    records: Records,
    id: SandboxId,
    probe: ChildProbe,
    now: Timestamp,
    later_probe: ChildProbe,
    later: Timestamp,
    answer: StopStep,
)
    requires
        records.contains_key(id@),
        stop_answer(
            refreshed_records(after_stop(records, id@, probe, now), id@, later_probe, later),
            id,
            false,
            answer,
        ),
    ensures
        after_stop(records, id@, probe, now)[id@].state.terminal(),
        answer == StopStep::Done(Ok(())),
        after_stop(after_stop(records, id@, probe, now), id@, later_probe, later) == after_stop(
            records,
            id@,
            probe,
            now,
        ),
{
    let once = after_stop(records, id@, probe, now);
    assert(refreshed_records(once, id@, later_probe, later) =~= once);
}

/// Destroying twice succeeds: the first destroy of a sandbox on record destroys it, the second
/// finds nothing and changes nothing, and the sandbox is not found from then on.
pub proof fn law_destroy_is_idempotent(
    records: Records,
    id: SandboxId,
    probe: ChildProbe,
    now: Timestamp,
)
    requires
        records.contains_key(id@),
    ensures
        destroy_result(records, id@) == SandboxDestroyed::Destroyed,
        destroy_result(records.remove(id@), id@) == SandboxDestroyed::Leaked,
        records.remove(id@).remove(id@) == records.remove(id@),
        !refreshed_records(records.remove(id@), id@, probe, now).contains_key(id@),
{
    assert(records.remove(id@).remove(id@) =~= records.remove(id@));
}

/// A sandbox that is not on record is not found: pausing, resuming and stopping it fail in that
/// way, destroying it finds nothing, and nothing changes.
pub proof fn law_unknown_is_not_found(
    records: Records,
    id: SandboxId,
    probe: ChildProbe,
    now: Timestamp,
    paused: Result<(), SandboxError>,
    resumed: Result<(), SandboxError>,
    stopped: StopStep,
)
    requires
        !records.contains_key(id@),
        pause_answer(refreshed_records(records, id@, probe, now), id, false, paused),
        resume_answer(refreshed_records(records, id@, probe, now), id, false, resumed),
        stop_answer(refreshed_records(records, id@, probe, now), id, false, stopped),
    ensures
        paused == Err::<(), SandboxError>(SandboxError::NotFound(id)),
        resumed == Err::<(), SandboxError>(SandboxError::NotFound(id)),
        stopped == StopStep::Done(Err(SandboxError::NotFound(id))),
        destroy_result(records, id@) == SandboxDestroyed::Leaked,
        refreshed_records(records, id@, probe, now) == records,
        records.remove(id@) == records,
{
    assert(records.remove(id@) =~= records);
}

/// A terminal state is final: no look, no stop and no request to pause or resume changes
/// anything of a sandbox in one, and such a request is answered with that state.
pub proof fn law_terminal_is_final(
    records: Records,
    id: SandboxId,
    probe: ChildProbe,
    observations: Seq<Observation>,
    now: Timestamp,
    paused: Result<(), SandboxError>,
    resumed: Result<(), SandboxError>,
)
    requires
        records.contains_key(id@),
        records[id@].state.terminal(),
        pause_answer(refreshed_records(records, id@, probe, now), id, false, paused),
        resume_answer(refreshed_records(records, id@, probe, now), id, false, resumed),
    ensures
        refreshed_records(records, id@, probe, now) == records,
        after_stop(records, id@, probe, now) == records,
        all_refreshed(records, observations, now)[id@] == records[id@],
        paused == Err::<(), SandboxError>(SandboxError::Terminal(records[id@].state)),
        resumed == Err::<(), SandboxError>(SandboxError::Terminal(records[id@].state)),
{
    assert(refreshed_records(records, id@, probe, now) =~= records);
}

/// Pausing never succeeds, and changes nothing of a sandbox that runs: it goes on running.
pub proof fn law_pausing_is_refused(
    records: Records,
    id: SandboxId,
    cancelled: bool,
    now: Timestamp,
    answer: Result<(), SandboxError>,
)
    requires
        pause_answer(
            refreshed_records(records, id@, ChildProbe::StillRunning, now),
            id,
            cancelled,
            answer,
        ),
    ensures
        answer is Err,
        refreshed_records(records, id@, ChildProbe::StillRunning, now) == records,
        !cancelled && records.contains_key(id@) && !records[id@].state.terminal() ==> answer
            matches Err(SandboxError::Unsupported(_)),
{
    assert(refreshed_records(records, id@, ChildProbe::StillRunning, now) =~= records);
}

/// Resuming a sandbox that runs succeeds and does nothing: nothing on record changes, and so
/// no event is published.
pub proof fn law_resuming_a_running_sandbox_does_nothing(
    records: Records,
    id: SandboxId,
    now: Timestamp,
    answer: Result<(), SandboxError>,
)
    requires
        records.contains_key(id@),
        records[id@].state is Running,
        resume_answer(
            refreshed_records(records, id@, ChildProbe::StillRunning, now),
            id,
            false,
            answer,
        ),
    ensures
        answer is Ok,
        refreshed_records(records, id@, ChildProbe::StillRunning, now) == records,
{
    assert(refreshed_records(records, id@, ChildProbe::StillRunning, now) =~= records);
}

/// A sandbox that has not come to its end, a paused one too, is stopped directly: by killing its
/// process, without waking it first.
pub proof fn law_stop_needs_no_waking(records: Records, id: SandboxId, answer: StopStep)
    requires
        records.contains_key(id@),
        records[id@].state is Paused || records[id@].state is Running || records[id@].state
            is Creating || records[id@].state is Stopping,
        stop_answer(records, id, false, answer),
    ensures
        answer == StopStep::KillThenComplete,
{
}

/// Stop wins: whether a request to pause comes before a stop or after it, the sandbox ends in a
/// terminal state.
pub proof fn law_stop_wins(
    records: Records,
    id: Seq<char>,
    stop_probe: ChildProbe,
    pause_probe: ChildProbe,
    stop_at: Timestamp,
    pause_at: Timestamp,
)
    requires
        records.contains_key(id),
    ensures
        refreshed_records(
            after_stop(records, id, stop_probe, stop_at),
            id,
            pause_probe,
            pause_at,
        )[id].state.terminal(),
        after_stop(
            refreshed_records(records, id, pause_probe, pause_at),
            id,
            stop_probe,
            stop_at,
        )[id].state.terminal(),
{
}

/// A watcher misses nothing that happens to its sandbox: a feed of the sandbox `id` goes on
/// following it, on the same channel, whichever sandbox is looked at or stopped, and hears of
/// exactly what is added to its events.
pub proof fn law_watchers_hear_every_change(
    feed: EventFeed,
    channel: broadcast::Sender<SandboxStatusEvent>,
    records: Records,
    id: Seq<char>,
    other: Seq<char>,
    probe: ChildProbe,
    observations: Seq<Observation>,
    now: Timestamp,
)
    requires
        all_plausible(records),
        records.contains_key(id),
        feed.follows(channel, records[id]),
    ensures
        forall|after: Records|
            #![trigger after.contains_key(id)]
            after == refreshed_records(records, other, probe, now) || after == after_stop(
                records,
                other,
                probe,
                now,
            ) || after == all_refreshed(records, observations, now) ==> {
                &&& after.contains_key(id)
                &&& feed.follows(channel, after[id])
                &&& feed.heard(after[id]) == feed.heard(records[id]) + after[id].events.skip(
                    records[id].events.len() as int,
                )
            },
{
    let record = records[id];
    assert(record.events.skip(record.events.len() as int) =~= Seq::empty());
    assert(feed.heard(record) + record.events.skip(record.events.len() as int) =~= feed.heard(
        record,
    ));
    let state = SandboxState::Stopped;
    let cause = SandboxTransitionCause::Requested;
    let killed = SandboxOutcome::Killed;
    law_subscribers_are_told(feed, channel, id, record, state, cause, probe, killed, now);
    let seen = observed(observations, id);
    law_subscribers_are_told(feed, channel, id, record, state, cause, seen, killed, now);
    let stopped = record.stopped_by_request(id, killed, now);
    assert(stopped.events.skip(record.events.len() as int) =~= seq![stopped.events.last()]);
    assert(feed.heard(stopped) =~= feed.heard(record) + seq![stopped.events.last()]);
}

/// Operations on one sandbox leave every other as it was.
pub proof fn law_other_sandboxes_are_untouched(
    records: Records,
    id: Seq<char>,
    other: Seq<char>,
    record: RecordModel,
    probe: ChildProbe,
    now: Timestamp,
)
    requires
        id != other,
    ensures
        forall|after: Records|
            #![trigger after.contains_key(other)]
            after == refreshed_records(records, id, probe, now) || after == after_stop(
                records,
                id,
                probe,
                now,
            ) || after == records.remove(id) || after == records.insert(id, record) ==> (
            after.contains_key(other) <==> records.contains_key(other)) && (records.contains_key(
                other,
            ) ==> after[other] == records[other]),
{
}

/// The id of a sandbox tells its process and the process its id, so every sandbox that is
/// discovered can be mapped back.
pub proof fn law_ids_are_recoverable(
    records: Records,
    found: Seq<DiscoveredSandbox>,
    i: int,
    p: u32,
    q: u32,
)
    requires
        all_plausible(records),
        lists_all(found, records),
        0 <= i < found.len(),
    ensures
        found[i].artifacts.pid matches Some(pid) && found[i].id@ == local_id(pid),
        local_id(p) == local_id(q) <==> p == q,
{
    assert(records.contains_key(found[i].id@));
    let prefix = "local-"@;
    if local_id(p) == local_id(q) {
        assert(decimal(p as nat) =~= local_id(p).skip(prefix.len() as int));
        assert(decimal(q as nat) =~= local_id(q).skip(prefix.len() as int));
        decimal_injective(p as nat, q as nat);
    }
}

/// What was observed of a sandbox counts wherever it stands among the observations: the first one
/// of it is taken, whatever others come before or after, and without one it is taken to run.
pub proof fn law_every_observation_counts(
    observations: Vec<Observation>,
    id: SandboxId,
    r: ChildProbe,
    i: int,
)
    requires
        call_ensures(find_probe, (&observations, &id), r),
    ensures
        0 <= i < observations@.len() && observations@[i].id@ == id@ && (forall|j: int|
            0 <= j < i ==> (#[trigger] observations@[j]).id@ != id@) ==> r == observations@[i].probe,
        (forall|j: int| 0 <= j < observations@.len() ==> (#[trigger] observations@[j]).id@ != id@)
            ==> r is StillRunning,
{
    lemma_observed(observations@, id@, i);
}

/// The first observation of a sandbox is what was observed of it.
pub proof fn lemma_observed(observations: Seq<Observation>, id: Seq<char>, i: int)
    ensures
        0 <= i < observations.len() && observations[i].id@ == id && (forall|j: int|
            0 <= j < i ==> (#[trigger] observations[j]).id@ != id) ==> observed(observations, id)
            == observations[i].probe,
        (forall|j: int| 0 <= j < observations.len() ==> (#[trigger] observations[j]).id@ != id)
            ==> observed(observations, id) is StillRunning,
    decreases observations.len(),
{
    if observations.len() > 0 && observations[0].id@ != id {
        let rest = observations.drop_first();
        lemma_observed(rest, id, i - 1);
        assert forall|j: int| 0 <= j < rest.len() implies (#[trigger] rest[j]) == observations[j
            + 1] by {}
    }
}

/// The program of an image is the digest or the tag as it stands.
pub proof fn law_programs_are_the_images(image: ImageRef, r: &str)
    requires
        call_ensures(image_path, (&image,), r),
    ensures
        match image {
            ImageRef::Digest(digest) => r@ == digest@,
            ImageRef::Tag(tag) => r@ == tag@,
        },
{
}

/// A process is planned if and only if the caller has not cancelled: it runs the image, with the
/// variables of the spec as its whole environment, each with its value and in order, and may
/// reserve the memory of the spec.
pub proof fn law_plans_are_the_specs(
    spec: SandboxSpec,
    cancelled: bool,
    r: Result<SpawnPlan, SandboxError>,
)
    requires
        call_ensures(LocalSandboxBackend::plan_create, (&spec, cancelled), r),
    ensures
        r is Ok <==> !cancelled,
        r matches Err(err) ==> err is Cancelled,
        r matches Ok(plan) ==> {
            let vars = spec.env.vars.pairs();
            &&& match spec.image {
                ImageRef::Digest(digest) => plan.program@ == digest@,
                ImageRef::Tag(tag) => plan.program@ == tag@,
            }
            &&& plan.address_space == spec.resources.memory_mb * (1024 * 1024)
            &&& plan.environment@.len() == vars.len()
            &&& forall|i: int|
                0 <= i < vars.len() ==> (#[trigger] plan.environment@[i]).0@ == vars[i].0
                    && plan.environment@[i].1 == vars[i].1
        },
{
}

/// A process that was started is put on record if and only if the caller has not cancelled; it is
/// killed otherwise. One that could not be started is neither.
pub proof fn law_started_processes_are_kept_or_killed(
    started: Result<u32, std::io::Error>,
    cancelled: bool,
    r: StartStep,
)
    requires
        call_ensures(LocalSandboxBackend::after_start, (started, cancelled), r),
    ensures
        match started {
            Ok(pid) => if cancelled {
                r == StartStep::KillThenFail(SandboxError::Cancelled)
            } else {
                r == StartStep::Register(pid)
            },
            Err(err) => r == StartStep::Fail(SandboxError::Backend(err)),
        },
{
}

/// A new backend has no sandboxes.
pub proof fn law_backends_begin_empty(backend: LocalSandboxBackend, id: Seq<char>)
    requires
        call_ensures(LocalSandboxBackend::new, (), backend),
    ensures
        !backend@.contains_key(id),
{
}

/// A sandbox that was created is named by its process, runs from then on, is found, and takes no
/// other's place.
pub proof fn law_created_sandboxes_run(
    backend: &mut LocalSandboxBackend,
    pid: u32,
    now: Timestamp,
    id: SandboxId,
    other: Seq<char>,
)
    requires
        call_ensures(LocalSandboxBackend::finish_create, (backend, pid, now), id),
    ensures
        exists|digits: Seq<char>| #[trigger]
            written(digits) == pid && id@ == "local-"@ + digits,
        final(backend)@.contains_key(id@),
        ({
            let record = final(backend)@[id@];
            &&& record.pid == pid
            &&& record.state is Running
            &&& record.outcome is None
            &&& record.seq == 0
            &&& record.created_at == now
            &&& record.state_since == now
            &&& record.events.len() == 0
        }),
        other != id@ ==> {
            &&& final(backend)@.contains_key(other) <==> old(backend)@.contains_key(other)
            &&& old(backend)@.contains_key(other) ==> final(backend)@[other] == old(backend)@[other]
        },
{
    lemma_decimal(pid as nat);
    assert(written(decimal(pid as nat)) == pid);
}

/// The status of a sandbox tells the end of its process, however that came: with the exit code, or
/// as a kill without one, since when it was seen, and as the next change. A sandbox that had come
/// to its end before, and one whose process still runs, is told as it was.
pub proof fn law_status_tells_the_end(
    backend: &mut LocalSandboxBackend,
    id: &SandboxId,
    probe: ChildProbe,
    now: Timestamp,
    r: Result<SandboxStatus, SandboxError>,
)
    requires
        call_ensures(LocalSandboxBackend::status, (backend, id, probe, now), r),
        old(backend)@.contains_key(id@) ==> old(backend)@[id@].seq < u64::MAX,
    ensures
        r is Ok <==> old(backend)@.contains_key(id@),
        r matches Err(err) ==> err == SandboxError::NotFound(*id),
        r matches Ok(status) ==> {
            let record = old(backend)@[id@];
            let ended = record.state is Stopped || record.state is Destroyed || record.state
                is Failed;
            &&& status.id == *id
            &&& status.backend_id@ == "local"@
            &&& status.io_generation == 0
            &&& status.created_at == record.created_at
            &&& if ended || probe is StillRunning {
                &&& status.state == record.state
                &&& status.outcome == record.outcome
                &&& status.seq == record.seq
                &&& status.state_since == record.state_since
                &&& final(backend)@[id@] == record
            } else {
                &&& status.seq == record.seq + 1
                &&& status.state_since == now
                &&& final(backend)@[id@].state == status.state
                &&& final(backend)@[id@].outcome == status.outcome
                &&& final(backend)@[id@].seq == status.seq
                &&& final(backend)@[id@].pid == record.pid
                &&& final(backend)@[id@].events.len() == record.events.len() + 1
                &&& final(backend)@[id@].events.last().state == status.state
                &&& final(backend)@[id@].events.last().cause is BackendReported
                &&& match probe {
                    ChildProbe::Exited(Some(code)) => status.state is Stopped && status.outcome
                        == Some(SandboxOutcome::Exited(code)),
                    ChildProbe::Exited(None) => status.state is Stopped && status.outcome == Some(
                        SandboxOutcome::Killed,
                    ),
                    ChildProbe::WaitFailed(message) => status.state == SandboxState::Failed(
                        SandboxFailure::Backend(message),
                    ) && status.outcome == record.outcome,
                    ChildProbe::StillRunning => false,
                }
            }
        },
        forall|other: Seq<char>|
            #![trigger final(backend)@.contains_key(other)]
            other != id@ ==> (final(backend)@.contains_key(other) <==> old(backend)@.contains_key(
                other,
            )) && (old(backend)@.contains_key(other) ==> final(backend)@[other]
                == old(backend)@[other]),
{
}

/// Two looks tell one story: a status after the end of a process was seen is the same again,
/// whatever is seen later.
pub proof fn law_status_is_settled_by_the_end(
    backend: &mut LocalSandboxBackend,
    again: &mut LocalSandboxBackend,
    id: &SandboxId,
    code: Option<i32>,
    probe: ChildProbe,
    now: Timestamp,
    later: Timestamp,
    first: Result<SandboxStatus, SandboxError>,
    second: Result<SandboxStatus, SandboxError>,
)
    requires
        call_ensures(
            LocalSandboxBackend::status,
            (backend, id, ChildProbe::Exited(code), now),
            first,
        ),
        *old(again) == *final(backend),
        call_ensures(LocalSandboxBackend::status, (again, id, probe, later), second),
        old(backend)@.contains_key(id@),
    ensures
        first matches Ok(a) && second matches Ok(b) && a.state == b.state && a.outcome == b.outcome
            && a.seq == b.seq && a.state_since == b.state_since && a.created_at == b.created_at,
{
}

/// What pausing, resuming and stopping are answered, exactly. A cancelled request changes nothing
/// and is told so; a sandbox that is not on record is not found; one that has come to its end
/// cannot be paused or resumed, and is stopped already. One that runs is not paused, needs no
/// resuming, and is stopped by killing it.
pub proof fn law_requests_are_answered_by_the_state(
    a: &mut LocalSandboxBackend,
    b: &mut LocalSandboxBackend,
    c: &mut LocalSandboxBackend,
    id: &SandboxId,
    cancelled: bool,
    now: Timestamp,
    paused: Result<(), SandboxError>,
    resumed: Result<(), SandboxError>,
    stopped: StopStep,
)
    requires
        *old(a) == *old(b),
        *old(b) == *old(c),
        call_ensures(
            LocalSandboxBackend::pause,
            (a, id, cancelled, ChildProbe::StillRunning, now),
            paused,
        ),
        call_ensures(
            LocalSandboxBackend::resume,
            (b, id, cancelled, ChildProbe::StillRunning, now),
            resumed,
        ),
        call_ensures(
            LocalSandboxBackend::stop,
            (c, id, cancelled, ChildProbe::StillRunning, now),
            stopped,
        ),
    ensures
        final(a)@ == old(a)@,
        final(b)@ == old(b)@,
        final(c)@ == old(c)@,
        ({
            let records = old(a)@;
            let state = records[id@].state;
            if cancelled {
                &&& paused == Err::<(), SandboxError>(SandboxError::Cancelled)
                &&& resumed == Err::<(), SandboxError>(SandboxError::Cancelled)
                &&& stopped == StopStep::Done(Err(SandboxError::Cancelled))
            } else if !records.contains_key(id@) {
                &&& paused == Err::<(), SandboxError>(SandboxError::NotFound(*id))
                &&& resumed == Err::<(), SandboxError>(SandboxError::NotFound(*id))
                &&& stopped == StopStep::Done(Err(SandboxError::NotFound(*id)))
            } else if state is Stopped || state is Destroyed || state is Failed {
                &&& paused == Err::<(), SandboxError>(SandboxError::Terminal(state))
                &&& resumed == Err::<(), SandboxError>(SandboxError::Terminal(state))
                &&& stopped == StopStep::Done(Ok(()))
            } else {
                &&& paused matches Err(err)
                &&& err matches SandboxError::Unsupported(why)
                &&& why@ == "sandbox-local: pause_fidelity is None (RFC open question 4)"@
                &&& state is Running ==> resumed is Ok
                &&& stopped is KillThenComplete
            }
        }),
{
    let still = ChildProbe::StillRunning;
    assert(refreshed_records(old(a)@, id@, still, now) =~= old(a)@);
}

/// Requests see the end of a process as a status does: once a look shows it, pausing and resuming
/// are answered with the state that it brought, stopping finds nothing to do, and the end is on
/// record.
pub proof fn law_requests_notice_the_end(
    a: &mut LocalSandboxBackend,
    b: &mut LocalSandboxBackend,
    c: &mut LocalSandboxBackend,
    id: &SandboxId,
    code: Option<i32>,
    now: Timestamp,
    paused: Result<(), SandboxError>,
    resumed: Result<(), SandboxError>,
    stopped: StopStep,
)
    requires
        *old(a) == *old(b),
        *old(b) == *old(c),
        old(a)@.contains_key(id@),
        old(a)@[id@].state is Running,
        old(a)@[id@].seq < u64::MAX,
        call_ensures(
            LocalSandboxBackend::pause,
            (a, id, false, ChildProbe::Exited(code), now),
            paused,
        ),
        call_ensures(
            LocalSandboxBackend::resume,
            (b, id, false, ChildProbe::Exited(code), now),
            resumed,
        ),
        call_ensures(
            LocalSandboxBackend::stop,
            (c, id, false, ChildProbe::Exited(code), now),
            stopped,
        ),
    ensures
        paused == Err::<(), SandboxError>(SandboxError::Terminal(SandboxState::Stopped)),
        resumed == Err::<(), SandboxError>(SandboxError::Terminal(SandboxState::Stopped)),
        stopped == StopStep::Done(Ok(())),
        final(a)@ == final(b)@,
        final(b)@ == final(c)@,
        final(a)@[id@].state is Stopped,
        final(a)@[id@].seq == old(a)@[id@].seq + 1,
        final(a)@[id@].outcome == Some(
            match code {
                Some(c) => SandboxOutcome::Exited(c),
                None => SandboxOutcome::Killed,
            },
        ),
{
}

/// A stop that killed the process leaves the sandbox stopped, as killed, from then on, tells so by
/// one event that it was requested, and leaves every other sandbox as it was.
pub proof fn law_completed_stops_are_on_record(
    backend: &mut LocalSandboxBackend,
    id: &SandboxId,
    now: Timestamp,
    r: Result<(), SandboxError>,
    other: Seq<char>,
)
    requires
        old(backend)@.contains_key(id@),
        !old(backend)@[id@].state.terminal(),
        old(backend)@[id@].seq < u64::MAX,
        call_ensures(LocalSandboxBackend::complete_stop, (backend, id, now), r),
    ensures
        r is Ok,
        ({
            let before = old(backend)@[id@];
            let after = final(backend)@[id@];
            &&& final(backend)@.contains_key(id@)
            &&& after.state is Stopped
            &&& after.outcome == Some(SandboxOutcome::Killed)
            &&& after.state_since == now
            &&& after.seq == before.seq + 1
            &&& after.pid == before.pid
            &&& after.created_at == before.created_at
            &&& after.events.len() == before.events.len() + 1
            &&& after.events.last().cause is Requested
            &&& after.events.last().state is Stopped
            &&& after.events.last().id == id@
        }),
        other != id@ ==> {
            &&& final(backend)@.contains_key(other) <==> old(backend)@.contains_key(other)
            &&& old(backend)@.contains_key(other) ==> final(backend)@[other] == old(backend)@[other]
        },
{
}

/// A sandbox that is destroyed is gone, and no other is. It was there to be destroyed if and only
/// if it was on record, and its process is killed if and only if it has not come to its end.
pub proof fn law_destroyed_sandboxes_are_gone(
    backend: &mut LocalSandboxBackend,
    id: &SandboxId,
    r: Teardown,
    other: Seq<char>,
)
    requires
        call_ensures(LocalSandboxBackend::destroy, (backend, id), r),
    ensures
        !final(backend)@.contains_key(id@),
        r.result == SandboxDestroyed::Destroyed <==> old(backend)@.contains_key(id@),
        r.result == SandboxDestroyed::Leaked <==> !old(backend)@.contains_key(id@),
        r.kill <==> old(backend)@.contains_key(id@) && !(old(backend)@[id@].state is Stopped
            || old(backend)@[id@].state is Destroyed || old(backend)@[id@].state is Failed),
        other != id@ ==> {
            &&& final(backend)@.contains_key(other) <==> old(backend)@.contains_key(other)
            &&& old(backend)@.contains_key(other) ==> final(backend)@[other] == old(backend)@[other]
        },
{
}

/// What is asked of a sandbox without looking at it: whether it has to be looked at, its process,
/// the generation of its input and output, and its events, each if and only if it is on record.
pub proof fn law_lookups_find_what_is_on_record(
    backend: LocalSandboxBackend,
    id: &SandboxId,
    probe: bool,
    pid: Result<u32, SandboxError>,
    generation: Result<u64, SandboxError>,
    feed: Option<EventFeed>,
)
    requires
        call_ensures(LocalSandboxBackend::needs_probe, (&backend, id), probe),
        call_ensures(LocalSandboxBackend::usage_pid, (&backend, id), pid),
        call_ensures(LocalSandboxBackend::open_io, (&backend, id), generation),
        call_ensures(LocalSandboxBackend::subscribe, (&backend, id), feed),
    ensures
        if backend@.contains_key(id@) {
            let record = backend@[id@];
            &&& probe <==> !(record.state is Stopped || record.state is Destroyed || record.state
                is Failed)
            &&& pid == Ok::<u32, SandboxError>(record.pid)
            &&& generation matches Ok(first) && first == 0
            &&& feed matches Some(feed) && feed.process() == record.pid && feed.heard(record).len()
                == 0 && feed.missed() == record.events
        } else {
            &&& !probe
            &&& pid == Err::<u32, SandboxError>(SandboxError::NotFound(*id))
            &&& generation == Err::<u64, SandboxError>(SandboxError::NotFound(*id))
            &&& feed is None
        },
{
}

/// Every sandbox is discovered once, with the state that its process is really in: one whose end
/// was observed, at whatever place among the observations, is discovered as stopped, one that could
/// not be looked at as failed, and one that was not observed as it was. Each is found by its
/// process, and nothing else is found.
pub proof fn law_discovery_shows_what_was_observed(
    backend: &mut LocalSandboxBackend,
    observations: &Vec<Observation>,
    now: Timestamp,
    r: Vec<DiscoveredSandbox>,
    k: int,
    i: int,
)
    requires
        call_ensures(LocalSandboxBackend::discover, (backend, observations, now), r),
        0 <= k < r@.len(),
    ensures
        ({
            let found = r@[k];
            let before = old(backend)@[found.id@];
            let ended = before.state is Stopped || before.state is Destroyed || before.state
                is Failed;
            &&& old(backend)@.contains_key(found.id@)
            &&& final(backend)@.contains_key(found.id@)
            &&& found.backend_id@ == "local"@
            &&& found.artifacts.pid == Some(before.pid)
            &&& found.artifacts.crd_uid is None && found.artifacts.pod_name is None
                && found.artifacts.pvc_name is None
            &&& found.state == final(backend)@[found.id@].state
            &&& ended ==> final(backend)@[found.id@] == before
            &&& (forall|j: int|
                0 <= j < observations@.len() ==> (#[trigger] observations@[j]).id@ != found.id@)
                ==> final(backend)@[found.id@] == before
            &&& !ended && 0 <= i < observations@.len() && observations@[i].id@ == found.id@ && (
            forall|j: int| 0 <= j < i ==> (#[trigger] observations@[j]).id@ != found.id@)
                ==> match observations@[i].probe {
                ChildProbe::StillRunning => final(backend)@[found.id@] == before,
                ChildProbe::Exited(code) => {
                    &&& found.state is Stopped
                    &&& final(backend)@[found.id@].outcome == Some(
                        match code {
                            Some(c) => SandboxOutcome::Exited(c),
                            None => SandboxOutcome::Killed,
                        },
                    )
                    &&& final(backend)@[found.id@].state_since == now
                },
                ChildProbe::WaitFailed(message) => found.state == SandboxState::Failed(
                    SandboxFailure::Backend(message),
                ),
            }
        }),
{
    lemma_observed(observations@, r@[k].id@, i);
    assert(final(backend)@.contains_key(r@[k].id@));
}

/// Discovery leaves nothing out: every sandbox on record is found, at one place and no other.
pub proof fn law_discovery_is_complete(
    backend: &mut LocalSandboxBackend,
    observations: &Vec<Observation>,
    now: Timestamp,
    r: Vec<DiscoveredSandbox>,
    id: Seq<char>,
)
    requires
        call_ensures(LocalSandboxBackend::discover, (backend, observations, now), r),
    ensures
        final(backend)@.contains_key(id) <==> old(backend)@.contains_key(id),
        old(backend)@.contains_key(id) <==> exists|k: int|
            0 <= k < r@.len() && (#[trigger] r@[k]).id@ == id,
        forall|k: int, l: int|
            0 <= k < l < r@.len() ==> (#[trigger] r@[k]).id@ != (#[trigger] r@[l]).id@,
{
    assert(final(backend)@.contains_key(id) <==> old(backend)@.contains_key(id));
}

/// What the backend says of itself: its name, that it is always ready, and that it can neither pause
/// nor keep volumes, nor has anything but processes.
pub proof fn law_the_backend_says_what_it_is(
    backend: LocalSandboxBackend,
    id: SandboxBackendId,
    capabilities: SandboxBackendCapabilities,
    health: SandboxBackendHealth,
)
    requires
        call_ensures(LocalSandboxBackend::id, (&backend,), id),
        call_ensures(LocalSandboxBackend::capabilities, (&backend,), capabilities),
        call_ensures(LocalSandboxBackend::health, (&backend,), health),
    ensures
        id@ == "local"@,
        capabilities.pause_fidelity is NoPause,
        !capabilities.state_volumes,
        !capabilities.warm_pool,
        !capabilities.gpu,
        capabilities.max_memory_mb == u32::MAX,
        health == (SandboxBackendHealth::Ready { available_slots: None }),
{
}

/// The memory that a sandbox is told to use is that of the report on its process, or none without
/// one; it has one process, and nothing else is made up.
pub proof fn law_usage_is_what_was_reported(
    report: Option<&str>,
    r: SandboxUsage,
    told: Option<u32>,
)
    requires
        call_ensures(usage_report, (report,), r),
        report matches Some(text) ==> call_ensures(read_memory_mb, (text,), told),
    ensures
        report is Some ==> r.memory_mb == (match told {
            Some(memory_mb) => memory_mb,
            None => 0,
        }),
        report is None ==> r.memory_mb == 0,
        r.cpu_millis == 0,
        r.disk_mb == 0,
        r.pids == 1,
{
}

} // verus!
