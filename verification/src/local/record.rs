//! What the local backend keeps of a sandbox, and how it learns that the process ended.
use tokio::sync::broadcast;
use vstd::prelude::*;

use crate::lifecycle::{
    EventModel, SandboxFailure, SandboxOutcome, SandboxState, SandboxStatusEvent,
    SandboxTransitionCause, Timestamp,
};
use crate::outside::channel::{
    open_broadcast, send_to_all, subscribe_to, Publisher, Subscription,
};
use crate::types::SandboxId;

verus! {

broadcast use vstd::string::group_string_axioms;

/// How many events a subscriber may lag behind before it misses some.
pub const EVENTS_CAPACITY: usize = 64;

/// The milliseconds that a killed process is waited for at most.
pub const REAP_TIMEOUT_MILLIS: u64 = 5000;

/// The milliseconds between two looks at a killed process.
pub const REAP_POLL_INTERVAL_MILLIS: u64 = 20;

/// What a look at a child process showed, without waiting for it: it still runs, it ended with
/// an exit code or by a signal, or looking failed.
#[derive(Debug, PartialEq, Eq)]
pub enum ChildProbe {
    StillRunning,
    Exited(Option<i32>),
    WaitFailed(String),
}

impl Clone for ChildProbe {
    fn clone(&self) -> (r: Self)
        ensures
            r == *self,
    {
        match self {
            ChildProbe::StillRunning => ChildProbe::StillRunning,
            ChildProbe::Exited(code) => ChildProbe::Exited(*code),
            ChildProbe::WaitFailed(message) => ChildProbe::WaitFailed(message.clone()),
        }
    }
}

/// What is on record of a sandbox.
pub struct RecordModel {
    pub pid: u32,
    pub state: SandboxState,
    pub outcome: Option<SandboxOutcome>,
    pub created_at: Timestamp,
    pub state_since: Timestamp,
    pub seq: u64,
    /// The events that were published of the sandbox, in order.
    pub events: Seq<EventModel>,
}

impl RecordModel {
    /// What is on record of a sandbox whose process `pid` was just started.
    pub open spec fn fresh(pid: u32, now: Timestamp) -> RecordModel {
        RecordModel {
            pid,
            state: SandboxState::Running,
            outcome: None,
            created_at: now,
            state_since: now,
            seq: 0,
            events: Seq::empty(),
        }
    }

    /// The record after the sandbox `id` entered `state`, which an event told.
    pub open spec fn entering(
        self,
        id: Seq<char>,
        state: SandboxState,
        cause: SandboxTransitionCause,
        now: Timestamp,
    ) -> RecordModel {
        let seq = (self.seq + 1) as u64;
        let event = EventModel { id, seq, at: now, state, cause };
        RecordModel { state, state_since: now, seq, events: self.events.push(event), ..self }
    }

    /// The record after a look at the process showed `probe`: a sandbox whose process ended is
    /// stopped, one that cannot be looked at has failed, and one in a terminal state is left
    /// alone.
    pub open spec fn refreshed(
        self,
        id: Seq<char>,
        probe: ChildProbe,
        now: Timestamp,
    ) -> RecordModel {
        let cause = SandboxTransitionCause::BackendReported;
        if self.state.terminal() {
            self
        } else {
            match probe {
                ChildProbe::StillRunning => self,
                ChildProbe::Exited(code) => RecordModel {
                    outcome: Some(exit_outcome(code)),
                    ..self.entering(id, SandboxState::Stopped, cause, now)
                },
                ChildProbe::WaitFailed(message) => self.entering(
                    id,
                    SandboxState::Failed(SandboxFailure::Backend(message)),
                    cause,
                    now,
                ),
            }
        }
    }

    /// The record after the sandbox was stopped on request.
    pub open spec fn stopped_by_request(
        self,
        id: Seq<char>,
        outcome: SandboxOutcome,
        now: Timestamp,
    ) -> RecordModel {
        RecordModel {
            outcome: Some(outcome),
            ..self.entering(id, SandboxState::Stopped, SandboxTransitionCause::Requested, now)
        }
    }

    /// Whether the events tell the whole story of the sandbox `id`: they are numbered from one
    /// without gaps up to the number on record, and the last of them tells the state on record
    /// and since when.
    pub open spec fn told(self, id: Seq<char>) -> bool {
        &&& self.events.len() == self.seq
        &&& forall|i: int|
            0 <= i < self.events.len() ==> {
                &&& (#[trigger] self.events[i]).seq == i + 1
                &&& self.events[i].id == id
            }
        &&& self.events.len() > 0 ==> {
            &&& self.events.last().state == self.state
            &&& self.events.last().at == self.state_since
        }
    }
}

/// How a process ended that has the exit code `code`: a process without one died to a signal.
pub open spec fn exit_outcome(code: Option<i32>) -> SandboxOutcome {
    match code {
        Some(code) => SandboxOutcome::Exited(code),
        None => SandboxOutcome::Killed,
    }
}

/// How a process ended that has the exit code `code`.
pub fn outcome_from_exit_status(code: Option<i32>) -> (r: SandboxOutcome)
    ensures
        r == exit_outcome(code),
{
    match code {
        Some(code) => SandboxOutcome::Exited(code),
        None => SandboxOutcome::Killed,
    }
}

/// Whether the state is never left again.
pub fn is_terminal(state: &SandboxState) -> (r: bool)
    ensures
        r == state.terminal(),
{
    match state {
        SandboxState::Stopped => true,
        SandboxState::Destroyed => true,
        SandboxState::Failed(_) => true,
        _ => false,
    }
}

/// What the events tell.
pub open spec fn told_events(events: Seq<SandboxStatusEvent>) -> Seq<EventModel> {
    events.map_values(|event: SandboxStatusEvent| event@)
}

/// What the local backend keeps of a sandbox.
pub struct SandboxRecord {
    pid: u32,
    state: SandboxState,
    outcome: Option<SandboxOutcome>,
    created_at: Timestamp,
    state_since: Timestamp,
    seq: u64,
    events: Publisher<SandboxStatusEvent>,
}

impl View for SandboxRecord {
    type V = RecordModel;

    closed spec fn view(&self) -> RecordModel {
        RecordModel {
            pid: self.pid,
            state: self.state,
            outcome: self.outcome,
            created_at: self.created_at,
            state_since: self.state_since,
            seq: self.seq,
            events: told_events(self.events.sent()),
        }
    }
}

/// The events of one sandbox from some point on.
pub struct EventFeed {
    pid: u32,
    subscription: Subscription<SandboxStatusEvent>,
}

impl EventFeed {
    /// The process of the sandbox whose events these are.
    pub closed spec fn process(self) -> u32 {
        self.pid
    }

    /// What is listened on for them.
    pub closed spec fn subscription(self) -> Subscription<SandboxStatusEvent> {
        self.subscription
    }

    /// What was told of the sandbox before the feed began, and is not told again.
    pub open spec fn missed(self) -> Seq<EventModel> {
        told_events(self.subscription().source().sent())
    }

    /// Whether it listens on the channel that the events of this record are published on, from a
    /// point of its history on.
    pub open spec fn follows(
        self,
        channel: broadcast::Sender<SandboxStatusEvent>,
        record: RecordModel,
    ) -> bool {
        &&& self.subscription().source().sender() == channel
        &&& self.missed().is_prefix_of(record.events)
    }

    /// The events of the record that were published on its channel since it began.
    pub open spec fn heard(self, record: RecordModel) -> Seq<EventModel> {
        record.events.skip(self.missed().len() as int)
    }

    /// The process of the sandbox whose events these are.
    pub fn pid(&self) -> (r: u32)
        ensures
            r == self.process(),
    {
        self.pid
    }

    /// Gives up the feed for its receiving end, to wait on.
    pub fn into_receiver(self) -> (r: broadcast::Receiver<SandboxStatusEvent>)
        ensures
            r == self.subscription().receiver(),
    {
        self.subscription.into_receiver()
    }
}

impl SandboxRecord {
    /// What the events of the sandbox are published by.
    pub closed spec fn publisher(self) -> Publisher<SandboxStatusEvent> {
        self.events
    }

    /// The record of a sandbox whose process `pid` was just started.
    pub fn new(pid: u32, now: Timestamp) -> (r: Self)
        ensures
            r@ == RecordModel::fresh(pid, now),
            r.publisher().capacity() == EVENTS_CAPACITY,
    {
        let r = SandboxRecord {
            pid,
            state: SandboxState::Running,
            outcome: None,
            created_at: now,
            state_since: now,
            seq: 0,
            events: open_broadcast(EVENTS_CAPACITY),
        };
        assert(r@.events =~= Seq::empty());
        r
    }

    /// The process of the sandbox.
    pub fn pid(&self) -> (r: u32)
        ensures
            r == self@.pid,
    {
        self.pid
    }

    /// The state of the sandbox.
    pub fn state(&self) -> (r: &SandboxState)
        ensures
            *r == self@.state,
    {
        &self.state
    }

    /// How the work of the sandbox ended, if it did.
    pub fn outcome(&self) -> (r: Option<SandboxOutcome>)
        ensures
            r == self@.outcome,
    {
        self.outcome
    }

    /// When the sandbox was created.
    pub fn created_at(&self) -> (r: Timestamp)
        ensures
            r == self@.created_at,
    {
        self.created_at
    }

    /// Since when the sandbox is in its state.
    pub fn state_since(&self) -> (r: Timestamp)
        ensures
            r == self@.state_since,
    {
        self.state_since
    }

    /// The number of the last event of the sandbox.
    pub fn seq(&self) -> (r: u64)
        ensures
            r == self@.seq,
    {
        self.seq
    }

    /// Subscribes to the events that are published from now on.
    pub fn subscribe(&self) -> (r: EventFeed)
        ensures
            r.process() == self@.pid,
            r.subscription().source() == self.publisher(),
            r.missed() == self@.events,
            r.follows(self.publisher().sender(), self@),
            r.heard(self@) == Seq::<EventModel>::empty(),
    {
        EventFeed { pid: self.pid, subscription: subscribe_to(&self.events) }
    }

    /// Enters `state` and publishes the event that tells so.
    fn transition(
        &mut self,
        id: &SandboxId,
        state: SandboxState,
        cause: SandboxTransitionCause,
        now: Timestamp,
    )
        requires
            old(self)@.seq < u64::MAX,
        ensures
            final(self)@ == old(self)@.entering(id@, state, cause, now),
            final(self).publisher().capacity() == old(self).publisher().capacity(),
            final(self).publisher().sender() == old(self).publisher().sender(),
    {
        self.state = state.clone();
        self.state_since = now;
        self.seq = self.seq + 1;
        let event = SandboxStatusEvent { id: id.clone(), seq: self.seq, at: now, state, cause };
        // Where nobody is subscribed, there is nobody to tell.
        let _ = send_to_all(&mut self.events, event);
        assert(self@.events =~= old(self)@.events.push(event@));
    }

    /// Takes note of what a look at the process of the sandbox `id` showed.
    pub fn refresh(&mut self, id: &SandboxId, probe: ChildProbe, now: Timestamp)
        requires
            !old(self)@.state.terminal() && !(probe is StillRunning) ==> old(self)@.seq < u64::MAX,
        ensures
            final(self)@ == old(self)@.refreshed(id@, probe, now),
            final(self).publisher().capacity() == old(self).publisher().capacity(),
            final(self).publisher().sender() == old(self).publisher().sender(),
    {
        if is_terminal(&self.state) {
            return ;
        }
        match probe {
            ChildProbe::StillRunning => {},
            ChildProbe::Exited(code) => {
                self.outcome = Some(outcome_from_exit_status(code));
                let cause = SandboxTransitionCause::BackendReported;
                self.transition(id, SandboxState::Stopped, cause, now);
            },
            ChildProbe::WaitFailed(message) => {
                // The look itself failing is not the process ending badly: it is the
                // bookkeeping of this backend that broke.
                let state = SandboxState::Failed(SandboxFailure::Backend(message));
                let cause = SandboxTransitionCause::BackendReported;
                self.transition(id, state, cause, now);
            },
        }
    }

    /// Takes note of the process of the sandbox `id` having been killed on request.
    pub fn mark_stopped_by(&mut self, id: &SandboxId, outcome: SandboxOutcome, now: Timestamp)
        requires
            old(self)@.seq < u64::MAX,
        ensures
            final(self)@ == old(self)@.stopped_by_request(id@, outcome, now),
            final(self).publisher().capacity() == old(self).publisher().capacity(),
            final(self).publisher().sender() == old(self).publisher().sender(),
    {
        self.outcome = Some(outcome);
        self.transition(id, SandboxState::Stopped, SandboxTransitionCause::Requested, now)
    }
}

/// What to do about a killed process after a look at it.
#[derive(Debug, Clone, Copy, PartialEq, Eq)]
pub enum ReapStep {
    /// It ended, with this exit code.
    Reaped(Option<i32>),
    /// Look again in so many milliseconds.
    LookAgainIn(u64),
    /// Leave it.
    GiveUp,
}

/// What to do about a killed process after a look at it, `waited_millis` after it was killed: it
/// is looked at again and again until it ended or the time is up.
pub open spec fn reaping(probe: ChildProbe, waited_millis: u64) -> ReapStep {
    match probe {
        ChildProbe::Exited(code) => ReapStep::Reaped(code),
        _ => if waited_millis >= REAP_TIMEOUT_MILLIS {
            ReapStep::GiveUp
        } else if waited_millis + REAP_POLL_INTERVAL_MILLIS <= REAP_TIMEOUT_MILLIS {
            ReapStep::LookAgainIn(REAP_POLL_INTERVAL_MILLIS)
        } else {
            ReapStep::LookAgainIn((REAP_TIMEOUT_MILLIS - waited_millis) as u64)
        },
    }
}

/// What to do about a killed process after a look at it, `waited_millis` after it was killed.
pub fn reap_step(probe: &ChildProbe, waited_millis: u64) -> (r: ReapStep)
    ensures
        r == reaping(*probe, waited_millis),
{
    match probe {
        ChildProbe::Exited(code) => ReapStep::Reaped(*code),
        _ => if waited_millis >= REAP_TIMEOUT_MILLIS {
            ReapStep::GiveUp
        } else {
            let left: u64 = REAP_TIMEOUT_MILLIS - waited_millis;
            if REAP_POLL_INTERVAL_MILLIS <= left {
                ReapStep::LookAgainIn(REAP_POLL_INTERVAL_MILLIS)
            } else {
                ReapStep::LookAgainIn(left)
            }
        },
    }
}

// ---------------------------------------------------------------------------
// Laws
// ---------------------------------------------------------------------------

/// A terminal state is never left, nor anything else on record changed, by a look at the
/// process.
pub proof fn law_terminal_states_stay(
    id: Seq<char>,
    record: RecordModel,
    probe: ChildProbe,
    now: Timestamp,
)
    requires
        record.state.terminal(),
    ensures
        record.refreshed(id, probe, now) == record,
{
}

/// A look at the process leaves a sandbox as it was, or brings it into a terminal state.
pub proof fn law_refresh_settles(
    id: Seq<char>,
    record: RecordModel,
    probe: ChildProbe,
    now: Timestamp,
)
    ensures
        record.refreshed(id, probe, now) == record || record.refreshed(
            id,
            probe,
            now,
        ).state.terminal(),
        probe is StillRunning ==> record.refreshed(id, probe, now) == record,
{
}

/// Every change of state is told by one event: it has the number after the last one, and tells
/// the state, the time and the cause. How the work ended and when the sandbox was created are
/// left alone.
pub proof fn law_every_change_is_told(
    id: Seq<char>,
    record: RecordModel,
    state: SandboxState,
    cause: SandboxTransitionCause,
    now: Timestamp,
)
    requires
        record.seq < u64::MAX,
    ensures
        ({
            let after = record.entering(id, state, cause, now);
            let seq = (record.seq + 1) as u64;
            &&& after.state == state
            &&& after.state_since == now
            &&& after.seq == record.seq + 1
            &&& after.outcome == record.outcome
            &&& after.created_at == record.created_at
            &&& after.events == record.events.push(EventModel { id, seq, at: now, state, cause })
        }),
{
}

/// The events of a sandbox tell its whole story, without gaps, from its creation on and after
/// whatever happens to it.
pub proof fn law_events_are_gap_free(
    id: Seq<char>,
    record: RecordModel,
    pid: u32,
    probe: ChildProbe,
    outcome: SandboxOutcome,
    now: Timestamp,
)
    requires
        record.seq < u64::MAX,
        record.told(id),
    ensures
        RecordModel::fresh(pid, now).told(id),
        record.refreshed(id, probe, now).told(id),
        record.stopped_by_request(id, outcome, now).told(id),
{
}

/// What was published stays published: the events on record before are those on record after,
/// with at most one more.
pub proof fn law_events_are_only_added(
    id: Seq<char>,
    record: RecordModel,
    probe: ChildProbe,
    outcome: SandboxOutcome,
    now: Timestamp,
)
    ensures
        record.events.is_prefix_of(record.refreshed(id, probe, now).events),
        record.refreshed(id, probe, now).events.len() <= record.events.len() + 1,
        record.refreshed(id, probe, now).state != record.state ==> record.refreshed(
            id,
            probe,
            now,
        ).events.len() == record.events.len() + 1,
        record.events.is_prefix_of(record.stopped_by_request(id, outcome, now).events),
        record.stopped_by_request(id, outcome, now).events.len() == record.events.len() + 1,
{
}

/// Every event goes to those who subscribed before it: a feed of a sandbox goes on following it,
/// on the same channel, whatever happens to it, and hears of each change by one more event, and
/// of nothing else.
pub proof fn law_subscribers_are_told(
    feed: EventFeed,
    channel: broadcast::Sender<SandboxStatusEvent>,
    id: Seq<char>,
    record: RecordModel,
    state: SandboxState,
    cause: SandboxTransitionCause,
    probe: ChildProbe,
    outcome: SandboxOutcome,
    now: Timestamp,
)
    requires
        record.seq < u64::MAX,
        feed.follows(channel, record),
    ensures
        ({
            let after = record.entering(id, state, cause, now);
            let event = EventModel { id, seq: (record.seq + 1) as u64, at: now, state, cause };
            feed.follows(channel, after) && feed.heard(after) == feed.heard(record).push(event)
        }),
        feed.follows(channel, record.refreshed(id, probe, now)),
        feed.heard(record.refreshed(id, probe, now)) == feed.heard(record)
            + record.refreshed(id, probe, now).events.skip(record.events.len() as int),
        feed.follows(channel, record.stopped_by_request(id, outcome, now)),
        feed.heard(record.stopped_by_request(id, outcome, now)) == feed.heard(record).push(
            record.stopped_by_request(id, outcome, now).events.last(),
        ),
{
    assert(record.events.skip(record.events.len() as int) =~= Seq::empty());
    let after = record.refreshed(id, probe, now);
    assert(feed.heard(after) =~= feed.heard(record) + after.events.skip(record.events.len() as int));
}

/// Waiting for a killed process is bounded: another look comes after some time and within the
/// timeout, it is given up on only when the time is up, and no end of it is made up.
pub proof fn law_reaping_is_bounded(probe: ChildProbe, waited_millis: u64)
    ensures
        match reaping(probe, waited_millis) {
            ReapStep::LookAgainIn(millis) => 0 < millis && waited_millis + millis
                <= REAP_TIMEOUT_MILLIS,
            ReapStep::GiveUp => waited_millis >= REAP_TIMEOUT_MILLIS,
            ReapStep::Reaped(code) => probe == ChildProbe::Exited(code),
        },
{
}

/// The process and the time of creation stay as they were, whatever happens to the sandbox.
pub proof fn law_identity_stays(
    id: Seq<char>,
    record: RecordModel,
    probe: ChildProbe,
    outcome: SandboxOutcome,
    now: Timestamp,
)
    ensures
        record.refreshed(id, probe, now).pid == record.pid,
        record.refreshed(id, probe, now).created_at == record.created_at,
        record.stopped_by_request(id, outcome, now).pid == record.pid,
        record.stopped_by_request(id, outcome, now).created_at == record.created_at,
{
}

/// How a process ended is told by its exit code, and by that alone: with one it exited, with that
/// very code, and without one it was killed.
pub proof fn law_outcomes_tell_exits_from_kills(code: Option<i32>, r: SandboxOutcome)
    requires
        call_ensures(outcome_from_exit_status, (code,), r),
    ensures
        code matches Some(c) ==> r == SandboxOutcome::Exited(c),
        code is None ==> r == SandboxOutcome::Killed,
{
}

/// A state is told to be terminal if and only if it is stopped, destroyed or failed.
pub proof fn law_terminal_states_are_told(state: SandboxState, r: bool)
    requires
        call_ensures(is_terminal, (&state,), r),
    ensures
        r <==> state is Stopped || state is Destroyed || state is Failed,
{
}

/// A sandbox begins running, with nothing told of it, at the time of its creation.
pub proof fn law_records_begin_running(pid: u32, now: Timestamp, r: SandboxRecord)
    requires
        call_ensures(SandboxRecord::new, (pid, now), r),
    ensures
        r@.pid == pid,
        r@.state is Running,
        r@.outcome is None,
        r@.seq == 0,
        r@.created_at == now,
        r@.state_since == now,
        r@.events.len() == 0,
        r.publisher().capacity() == 64,
{
}

/// The end of a process is noticed however it came: a look that shows it, with an exit code or
/// without one, stops a sandbox that has not come to its end, tells how it ended, since when, and
/// publishes one event of it. What identifies the sandbox stays.
pub proof fn law_every_end_of_a_process_is_noticed(
    record: &mut SandboxRecord,
    id: &SandboxId,
    code: Option<i32>,
    now: Timestamp,
)
    requires
        old(record)@.seq < u64::MAX,
        !(old(record)@.state is Stopped || old(record)@.state is Destroyed || old(record)@.state
            is Failed),
        call_ensures(SandboxRecord::refresh, (record, id, ChildProbe::Exited(code), now), ()),
    ensures
        final(record)@.state is Stopped,
        final(record)@.outcome == Some(
            match code {
                Some(c) => SandboxOutcome::Exited(c),
                None => SandboxOutcome::Killed,
            },
        ),
        final(record)@.state_since == now,
        final(record)@.seq == old(record)@.seq + 1,
        final(record)@.pid == old(record)@.pid,
        final(record)@.created_at == old(record)@.created_at,
        final(record)@.events.len() == old(record)@.events.len() + 1,
        old(record)@.events.is_prefix_of(final(record)@.events),
        ({
            let event = final(record)@.events.last();
            &&& event.id == id@
            &&& event.seq == old(record)@.seq + 1
            &&& event.at == now
            &&& event.state is Stopped
            &&& event.cause is BackendReported
        }),
{
}

/// A look that fails is a failure of the sandbox, with the reason that was given: it ends it, is
/// told by one event, and no outcome is made up for it.
pub proof fn law_a_failed_look_is_a_failure(
    record: &mut SandboxRecord,
    id: &SandboxId,
    message: String,
    now: Timestamp,
)
    requires
        old(record)@.seq < u64::MAX,
        !(old(record)@.state is Stopped || old(record)@.state is Destroyed || old(record)@.state
            is Failed),
        call_ensures(SandboxRecord::refresh, (record, id, ChildProbe::WaitFailed(message), now), ()),
    ensures
        final(record)@.state == SandboxState::Failed(SandboxFailure::Backend(message)),
        final(record)@.outcome == old(record)@.outcome,
        final(record)@.state_since == now,
        final(record)@.seq == old(record)@.seq + 1,
        final(record)@.pid == old(record)@.pid,
        final(record)@.created_at == old(record)@.created_at,
        final(record)@.events.len() == old(record)@.events.len() + 1,
        ({
            let event = final(record)@.events.last();
            &&& event.id == id@
            &&& event.seq == old(record)@.seq + 1
            &&& event.at == now
            &&& event.state == final(record)@.state
            &&& event.cause is BackendReported
        }),
{
}

/// A look changes nothing if and only if the process still runs or the sandbox has come to its end
/// before.
pub proof fn law_only_an_end_changes_a_record(
    record: &mut SandboxRecord,
    id: &SandboxId,
    probe: ChildProbe,
    now: Timestamp,
)
    requires
        old(record)@.seq < u64::MAX,
        call_ensures(SandboxRecord::refresh, (record, id, probe, now), ()),
    ensures
        final(record)@ == old(record)@ <==> probe is StillRunning || old(record)@.state is Stopped
            || old(record)@.state is Destroyed || old(record)@.state is Failed,
{
}

/// A sandbox that was stopped on request is stopped, with the outcome that was given, from then on,
/// and one event tells that it was requested.
pub proof fn law_requested_stops_are_told(
    record: &mut SandboxRecord,
    id: &SandboxId,
    outcome: SandboxOutcome,
    now: Timestamp,
)
    requires
        old(record)@.seq < u64::MAX,
        call_ensures(SandboxRecord::mark_stopped_by, (record, id, outcome, now), ()),
    ensures
        final(record)@.state is Stopped,
        final(record)@.outcome == Some(outcome),
        final(record)@.state_since == now,
        final(record)@.seq == old(record)@.seq + 1,
        final(record)@.pid == old(record)@.pid,
        final(record)@.created_at == old(record)@.created_at,
        final(record)@.events.len() == old(record)@.events.len() + 1,
        old(record)@.events.is_prefix_of(final(record)@.events),
        ({
            let event = final(record)@.events.last();
            &&& event.id == id@
            &&& event.seq == old(record)@.seq + 1
            &&& event.at == now
            &&& event.state is Stopped
            &&& event.cause is Requested
        }),
{
}

/// A record is read as it is.
pub proof fn law_records_are_read_as_they_are(
    record: SandboxRecord,
    pid: u32,
    state: &SandboxState,
    outcome: Option<SandboxOutcome>,
    created_at: Timestamp,
    state_since: Timestamp,
    seq: u64,
)
    requires
        call_ensures(SandboxRecord::pid, (&record,), pid),
        call_ensures(SandboxRecord::state, (&record,), state),
        call_ensures(SandboxRecord::outcome, (&record,), outcome),
        call_ensures(SandboxRecord::created_at, (&record,), created_at),
        call_ensures(SandboxRecord::state_since, (&record,), state_since),
        call_ensures(SandboxRecord::seq, (&record,), seq),
    ensures
        pid == record@.pid,
        *state == record@.state,
        outcome == record@.outcome,
        created_at == record@.created_at,
        state_since == record@.state_since,
        seq == record@.seq,
{
}

/// A subscriber hears the events of its sandbox that come after it subscribed: it listens on the
/// channel of the record, and every change of the record adds one event to what it hears.
pub proof fn law_subscribing_then_stopping_is_heard(
    feed: EventFeed,
    pid: u32,
    record: &mut SandboxRecord,
    id: &SandboxId,
    outcome: SandboxOutcome,
    now: Timestamp,
)
    requires
        old(record)@.seq < u64::MAX,
        call_ensures(SandboxRecord::subscribe, (&*old(record),), feed),
        call_ensures(EventFeed::pid, (&feed,), pid),
        call_ensures(SandboxRecord::mark_stopped_by, (record, id, outcome, now), ()),
    ensures
        pid == old(record)@.pid,
        feed.subscription().source().sender() == final(record).publisher().sender(),
        feed.heard(old(record)@).len() == 0,
        feed.heard(final(record)@).len() == 1,
        feed.heard(final(record)@)[0] == final(record)@.events.last(),
{
}

/// A killed process is looked at every twenty milliseconds until it ended or five seconds are
/// over: its end is always noticed, with its exit code, and it is given up on if and only if it
/// has not ended by then.
pub proof fn law_killed_processes_are_waited_for(
    probe: ChildProbe,
    waited_millis: u64,
    r: ReapStep,
)
    requires
        call_ensures(reap_step, (&probe, waited_millis), r),
    ensures
        probe matches ChildProbe::Exited(code) ==> r == ReapStep::Reaped(code),
        r is Reaped <==> probe is Exited,
        r is GiveUp <==> !(probe is Exited) && waited_millis >= 5000,
        r matches ReapStep::LookAgainIn(millis) ==> millis == (if waited_millis <= 4980 {
            20int
        } else {
            5000 - waited_millis
        }),
{
}

} // verus!
