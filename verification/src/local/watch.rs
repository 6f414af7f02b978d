//! Watching a sandbox: its events as they happen, from a given one on.
use tokio::sync::broadcast;
use vstd::prelude::*;

use crate::lifecycle::{EventModel, SandboxStatusEvent};
use crate::local::record::{told_events, EventFeed, RecordModel};

verus! {

/// What happened to a watch.
pub enum WatchEvent {
    /// It was subscribed to the events of the sandbox.
    Subscribed,
    /// The sandbox to watch is not on record.
    UnknownSandbox,
    Received(SandboxStatusEvent),
    /// So many events were missed: the watch had fallen behind.
    Lagged(u64),
    /// The sandbox is gone.
    Closed,
}

/// What the watch does about it.
pub enum WatchStep {
    /// It gives out the event, then waits for the next.
    Emit(SandboxStatusEvent),
    /// It waits for the next event.
    Wait,
    /// It ends.
    End,
}

/// What a watch does that is to give out the events after number `since_seq`.
pub open spec fn watch_answer(since_seq: u64, event: WatchEvent) -> WatchStep {
    match event {
        WatchEvent::Subscribed => WatchStep::Wait,
        WatchEvent::UnknownSandbox => WatchStep::End,
        WatchEvent::Received(event) => if event.seq > since_seq {
            WatchStep::Emit(event)
        } else {
            WatchStep::Wait
        },
        WatchEvent::Lagged(_) => WatchStep::Wait,
        WatchEvent::Closed => WatchStep::End,
    }
}

/// What a watch does that is to give out the events after number `since_seq`. Nothing from
/// before it was subscribed is made up for: the number only filters what arrives.
pub fn watch_step(since_seq: u64, event: WatchEvent) -> (r: WatchStep)
    ensures
        r == watch_answer(since_seq, event),
{
    match event {
        WatchEvent::Subscribed => WatchStep::Wait,
        WatchEvent::UnknownSandbox => WatchStep::End,
        WatchEvent::Received(event) => {
            if event.seq > since_seq {
                WatchStep::Emit(event)
            } else {
                WatchStep::Wait
            }
        },
        WatchEvent::Lagged(_) => WatchStep::Wait,
        WatchEvent::Closed => WatchStep::End,
    }
}

// ---------------------------------------------------------------------------
// Laws
// ---------------------------------------------------------------------------

/// The events that a watch gives out over what happens to it.
pub open spec fn emitted(since_seq: u64, happened: Seq<WatchEvent>) -> Seq<SandboxStatusEvent>
    decreases happened.len(),
{
    if happened.len() == 0 {
        Seq::empty()
    } else {
        let rest = happened.drop_first();
        match watch_answer(since_seq, happened[0]) {
            WatchStep::Emit(event) => seq![event] + emitted(since_seq, rest),
            WatchStep::Wait => emitted(since_seq, rest),
            WatchStep::End => Seq::empty(),
        }
    }
}

/// What happens to a watch that receives these events.
pub open spec fn arrivals(events: Seq<SandboxStatusEvent>) -> Seq<WatchEvent> {
    events.map_values(|event: SandboxStatusEvent| WatchEvent::Received(event))
}

/// A watch that is subscribed after the first `start` events of a sandbox and keeps up gives out
/// every later event after number `since_seq` once and in order: none is missing and none comes
/// twice.
pub proof fn law_watch_has_no_gap(history: Seq<SandboxStatusEvent>, start: nat, since_seq: u64)
    requires
        start <= history.len(),
        forall|i: int| 0 <= i < history.len() ==> (#[trigger] history[i]).seq == i + 1,
    ensures
        emitted(since_seq, arrivals(history.skip(start as int))) == (if since_seq <= start {
            history.skip(start as int)
        } else if since_seq <= history.len() {
            history.skip(since_seq as int)
        } else {
            Seq::empty()
        }),
    decreases history.len() - start,
{
    let happened = arrivals(history.skip(start as int));
    if start < history.len() {
        let event = history[start as int];
        law_watch_has_no_gap(history, start + 1, since_seq);
        assert(happened[0] == WatchEvent::Received(event));
        assert(happened.drop_first() =~= arrivals(history.skip(start as int + 1)));
        if event.seq > since_seq {
            assert(seq![event] + history.skip(start as int + 1) =~= history.skip(start as int));
        }
    } else {
        assert(history.skip(start as int) =~= Seq::empty());
    }
}

/// A watch from the number of a snapshot on, subscribed before anything more happens, goes on
/// exactly where the snapshot stands.
pub proof fn law_watch_continues_a_snapshot(history: Seq<SandboxStatusEvent>, seq: u64)
    requires
        seq <= history.len(),
        forall|i: int| 0 <= i < history.len() ==> (#[trigger] history[i]).seq == i + 1,
    ensures
        emitted(seq, arrivals(history.skip(seq as int))) == history.skip(seq as int),
{
    law_watch_has_no_gap(history, seq as nat, seq);
}

proof fn lemma_emitted_from(events: Seq<SandboxStatusEvent>, base: nat, since_seq: u64)
    requires
        forall|i: int| 0 <= i < events.len() ==> (#[trigger] events[i]).seq == base + i + 1,
    ensures
        emitted(since_seq, arrivals(events)) == (if since_seq <= base {
            events
        } else if since_seq - base <= events.len() {
            events.skip(since_seq - base)
        } else {
            Seq::empty()
        }),
    decreases events.len(),
{
    let happened = arrivals(events);
    if events.len() > 0 {
        let rest = events.drop_first();
        assert forall|i: int| 0 <= i < rest.len() implies (#[trigger] rest[i]).seq == base + 1 + i
            + 1 by {
            assert(rest[i] == events[i + 1]);
        }
        lemma_emitted_from(rest, base + 1, since_seq);
        assert(happened[0] == WatchEvent::Received(events[0]));
        assert(happened.drop_first() =~= arrivals(rest));
        if since_seq <= base {
            assert(seq![events[0]] + rest =~= events);
        } else if since_seq - base <= events.len() {
            assert(rest.skip(since_seq - base - 1) =~= events.skip(since_seq - base));
            assert(since_seq == base + 1 ==> rest =~= events.skip(1));
        }
    } else if since_seq == base {
        assert(happened =~= Seq::empty());
    }
}

/// A watch that keeps up with the feed of a sandbox gives out the events of that sandbox: all
/// that were published on its channel since the feed began and come after number `since_seq`,
/// once each and in order, and no others.
pub proof fn law_watch_follows_its_sandbox(
    feed: EventFeed,
    channel: broadcast::Sender<SandboxStatusEvent>,
    id: Seq<char>,
    record: RecordModel,
    events: Seq<SandboxStatusEvent>,
    since_seq: u64,
)
    requires
        feed.follows(channel, record),
        record.told(id),
        told_events(events) == feed.heard(record),
    ensures
        told_events(emitted(since_seq, arrivals(events))) == (if since_seq
            <= feed.missed().len() {
            feed.heard(record)
        } else if since_seq <= record.events.len() {
            record.events.skip(since_seq as int)
        } else {
            Seq::<EventModel>::empty()
        }),
        forall|i: int|
            0 <= i < emitted(since_seq, arrivals(events)).len() ==> (#[trigger] emitted(
                since_seq,
                arrivals(events),
            )[i]).id@ == id,
{
    let start = feed.missed().len();
    let heard = feed.heard(record);
    let given = emitted(since_seq, arrivals(events));
    assert(told_events(events).len() == events.len());
    assert(start <= record.events.len());
    assert forall|i: int| 0 <= i < events.len() implies (#[trigger] events[i]).seq == start + i + 1
        && events[i].id@ == id by {
        assert(told_events(events)[i] == events[i]@);
        assert(heard[i] == record.events[start + i]);
    }
    lemma_emitted_from(events, start, since_seq);
    if since_seq > start && since_seq <= record.events.len() {
        assert(told_events(events.skip(since_seq - start)) =~= heard.skip(since_seq - start));
        assert(heard.skip(since_seq - start) =~= record.events.skip(since_seq as int));
    } else if since_seq > record.events.len() {
        assert(told_events(given) =~= Seq::empty());
    }
}

/// Only events after number `since_seq` are given out, whatever happens.
pub proof fn law_watch_filters(since_seq: u64, happened: Seq<WatchEvent>)
    ensures
        forall|i: int|
            0 <= i < emitted(since_seq, happened).len() ==> (#[trigger] emitted(
                since_seq,
                happened,
            )[i]).seq > since_seq,
    decreases happened.len(),
{
    if happened.len() > 0 {
        law_watch_filters(since_seq, happened.drop_first());
    }
}

/// The events that a watch receives, in order.
pub open spec fn received(happened: Seq<WatchEvent>) -> Seq<SandboxStatusEvent>
    decreases happened.len(),
{
    if happened.len() == 0 {
        Seq::empty()
    } else {
        let rest = received(happened.drop_first());
        match happened[0] {
            WatchEvent::Received(event) => seq![event] + rest,
            _ => rest,
        }
    }
}

/// Whether nothing that happens ends a watch.
pub open spec fn goes_on(happened: Seq<WatchEvent>) -> bool {
    forall|i: int|
        0 <= i < happened.len() ==> !((#[trigger] happened[i]) is UnknownSandbox) && !(happened[i]
            is Closed)
}

/// As long as nothing ends a watch, it gives out exactly the events that it receives and that
/// come after number `since_seq`, in the order in which it receives them, however often it falls
/// behind.
pub proof fn law_watch_gives_what_it_receives(since_seq: u64, happened: Seq<WatchEvent>)
    requires
        goes_on(happened),
    ensures
        emitted(since_seq, happened) == received(happened).filter(
            |event: SandboxStatusEvent| event.seq > since_seq,
        ),
    decreases happened.len(),
{
    let late = |event: SandboxStatusEvent| event.seq > since_seq;
    reveal(Seq::filter);
    if happened.len() > 0 {
        let rest = happened.drop_first();
        assert forall|i: int| 0 <= i < rest.len() implies !((#[trigger] rest[i])
            is UnknownSandbox) && !(rest[i] is Closed) by {
            assert(rest[i] == happened[i + 1]);
        }
        law_watch_gives_what_it_receives(since_seq, rest);
        assert(!(happened[0] is UnknownSandbox) && !(happened[0] is Closed));
        if let WatchEvent::Received(event) = happened[0] {
            let one = seq![event];
            Seq::filter_distributes_over_add(one, received(rest), late);
            assert(one.drop_last() =~= Seq::empty());
            assert(one.last() == event);
            assert(one.drop_last().filter(late) =~= Seq::empty());
            if !late(event) {
                assert(one.filter(late) =~= Seq::empty());
                assert(one.filter(late) + received(rest).filter(late) =~= received(rest).filter(
                    late,
                ));
            } else {
                assert(one.filter(late) =~= one);
            }
        }
    }
}

/// Whether the numbers of the events rise.
pub open spec fn rising(events: Seq<SandboxStatusEvent>) -> bool {
    forall|i: int, j: int|
        0 <= i < j < events.len() ==> (#[trigger] events[i]).seq < (#[trigger] events[j]).seq
}

proof fn lemma_emitted_are_received(since_seq: u64, happened: Seq<WatchEvent>, i: int)
    requires
        0 <= i < emitted(since_seq, happened).len(),
    ensures
        exists|j: int|
            0 <= j < received(happened).len() && #[trigger] received(happened)[j] == emitted(
                since_seq,
                happened,
            )[i],
    decreases happened.len(),
{
    let rest = happened.drop_first();
    let inner = received(rest);
    let all = received(happened);
    if let WatchEvent::Received(event) = happened[0] {
        assert(all[0] == event);
        assert forall|j: int| 0 <= j < inner.len() implies #[trigger] inner[j] == all[j + 1] by {}
        if event.seq > since_seq {
            if i > 0 {
                lemma_emitted_are_received(since_seq, rest, i - 1);
                let j = choose|j: int|
                    0 <= j < inner.len() && #[trigger] inner[j] == emitted(since_seq, rest)[i - 1];
                assert(all[j + 1] == emitted(since_seq, happened)[i]);
            }
        } else {
            lemma_emitted_are_received(since_seq, rest, i);
            let j = choose|j: int|
                0 <= j < inner.len() && #[trigger] inner[j] == emitted(since_seq, rest)[i];
            assert(all[j + 1] == emitted(since_seq, happened)[i]);
        }
    } else {
        lemma_emitted_are_received(since_seq, rest, i);
    }
}

/// No event is given out twice, and none out of order: where the numbers of what is received
/// rise, so do those of what is given out, whatever else happens.
pub proof fn law_watch_numbers_rise(since_seq: u64, happened: Seq<WatchEvent>)
    requires
        rising(received(happened)),
    ensures
        rising(emitted(since_seq, happened)),
    decreases happened.len(),
{
    if happened.len() > 0 {
        let rest = happened.drop_first();
        let inner = received(rest);
        let all = received(happened);
        let given = emitted(since_seq, happened);
        let later = emitted(since_seq, rest);
        if let WatchEvent::Received(event) = happened[0] {
            assert forall|i: int, j: int| 0 <= i < j < inner.len() implies (
            #[trigger] inner[i]).seq < (#[trigger] inner[j]).seq by {
                assert(inner[i] == all[i + 1]);
                assert(inner[j] == all[j + 1]);
            }
            law_watch_numbers_rise(since_seq, rest);
            if event.seq > since_seq {
                assert forall|i: int, j: int| 0 <= i < j < given.len() implies (
                #[trigger] given[i]).seq < (#[trigger] given[j]).seq by {
                    assert(given[j] == later[j - 1]);
                    if i == 0 {
                        lemma_emitted_are_received(since_seq, rest, j - 1);
                        let k = choose|k: int|
                            0 <= k < inner.len() && #[trigger] inner[k] == later[j - 1];
                        assert(inner[k] == all[k + 1]);
                        assert(all[0].seq < all[k + 1].seq);
                    } else {
                        assert(given[i] == later[i - 1]);
                    }
                }
            }
        } else {
            law_watch_numbers_rise(since_seq, rest);
        }
    }
}

/// Falling behind costs the events that were missed and no others: the watch goes on with what
/// comes next.
pub proof fn law_watch_survives_lag(since_seq: u64, missed: u64, rest: Seq<WatchEvent>)
    ensures
        emitted(since_seq, seq![WatchEvent::Lagged(missed)] + rest) == emitted(since_seq, rest),
{
    let happened = seq![WatchEvent::Lagged(missed)] + rest;
    assert(happened.drop_first() =~= rest);
}

/// A watch of a sandbox that is not on record, and one whose sandbox is gone, gives out nothing
/// more.
pub proof fn law_watch_ends(since_seq: u64, rest: Seq<WatchEvent>)
    ensures
        emitted(since_seq, seq![WatchEvent::UnknownSandbox] + rest).len() == 0,
        emitted(since_seq, seq![WatchEvent::Closed] + rest).len() == 0,
{
    assert((seq![WatchEvent::UnknownSandbox] + rest)[0] == WatchEvent::UnknownSandbox);
    assert((seq![WatchEvent::Closed] + rest)[0] == WatchEvent::Closed);
}

/// What a watch does about an event, exactly: it gives it out, as it came, if and only if its number
/// is higher than the one to watch from. It ends if and only if the sandbox is not on record or is
/// gone; falling behind does not end it.
pub proof fn law_watches_give_later_events(since_seq: u64, event: WatchEvent, r: WatchStep)
    requires
        call_ensures(watch_step, (since_seq, event), r),
    ensures
        r is Emit <==> (event matches WatchEvent::Received(received) && received.seq > since_seq),
        r matches WatchStep::Emit(given) ==> event == WatchEvent::Received(given),
        r is End <==> event is UnknownSandbox || event is Closed,
{
}

} // verus!
