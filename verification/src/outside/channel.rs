//! The channels of the `tokio` crate.
//!
//! A channel is shared with the tasks that read from it, so what it holds, and whether anyone is
//! left to read it, is not a property of its sending half. What was handed to a sending half is:
//! each half is only ever sent through exclusively, and what is said of it is the history of
//! what was handed to it.
use bytes::Bytes;
use tokio::sync::{broadcast, mpsc};
use vstd::prelude::*;

use crate::outside::buffer::bytes_content;

verus! {

/// The sending half of a `tokio` broadcast channel.
#[verifier::external_type_specification]
#[verifier::external_body]
#[verifier::reject_recursive_types(T)]
pub struct ExBroadcastSender<T>(tokio::sync::broadcast::Sender<T>);

/// A receiving half of a `tokio` broadcast channel.
#[verifier::external_type_specification]
#[verifier::external_body]
#[verifier::reject_recursive_types(T)]
pub struct ExBroadcastReceiver<T>(tokio::sync::broadcast::Receiver<T>);

/// The sending half of an unbounded `tokio` channel.
#[verifier::external_type_specification]
#[verifier::external_body]
#[verifier::reject_recursive_types(T)]
pub struct ExUnboundedSender<T>(tokio::sync::mpsc::UnboundedSender<T>);

/// The largest capacity that a broadcast channel is opened with.
pub const MAX_CAPACITY: usize = 4096;

/// Publishes values to every subscriber. A subscriber that falls behind by more than the
/// capacity misses the oldest of them; publishing never waits for one.
#[verifier::reject_recursive_types(T)]
pub struct Publisher<T> {
    sender: broadcast::Sender<T>,
    sent: Ghost<Seq<T>>,
    capacity: Ghost<nat>,
}

/// What a subscriber listens on.
#[verifier::reject_recursive_types(T)]
pub struct Subscription<T> {
    receiver: broadcast::Receiver<T>,
    source: Ghost<Publisher<T>>,
}

impl<T> Publisher<T> {
    /// The values that were handed to the channel, in order.
    pub closed spec fn sent(self) -> Seq<T> {
        self.sent@
    }

    /// The sending half of the channel, which tells it from every other channel.
    pub closed spec fn sender(self) -> broadcast::Sender<T> {
        self.sender
    }

    /// How many values the channel was asked to keep for those who read it.
    pub closed spec fn capacity(self) -> nat {
        self.capacity@
    }
}

impl<T> Subscription<T> {
    /// The publisher that it was made by, as it stood then.
    pub closed spec fn source(self) -> Publisher<T> {
        self.source@
    }

    /// How many values had been published before it began.
    pub open spec fn start(self) -> nat {
        self.source().sent().len()
    }

    /// The receiving end that the publisher gave out for it.
    pub closed spec fn receiver(self) -> broadcast::Receiver<T> {
        self.receiver
    }

    /// Gives up the subscription for its receiving end, to wait on. What comes out of it is up to
    /// its publisher.
    pub fn into_receiver(self) -> (r: broadcast::Receiver<T>)
        ensures
            r == self.receiver(),
    {
        self.receiver
    }
}

/// `broadcast::channel` opens a channel to which nothing was handed yet and which keeps at least
/// the last `capacity` values: it rounds up to a power of two. The receiver that comes with it is
/// dropped. It panics where the capacity is zero or cannot be allocated, so small capacities
/// alone are admitted.
#[verifier::external_body]
pub(crate) fn open_broadcast<T: Clone>(capacity: usize) -> (r: Publisher<T>)
    requires
        0 < capacity <= MAX_CAPACITY,
    ensures
        r.sent() == Seq::<T>::empty(),
        r.capacity() == capacity,
{
    let (sender, _receiver) = broadcast::channel(capacity);
    Publisher { sender, sent: Ghost(Seq::empty()), capacity: Ghost(capacity as nat) }
}

/// `broadcast::Sender::send` is handed `value`, for every receiver that is subscribed, and returns
/// how many those are; where there is none, it hands the value back. How many there are is up to
/// the tasks that hold them. It sends through a shared reference, so the channel stays the one
/// that it was.
#[verifier::external_body]
pub(crate) fn send_to_all<T>(publisher: &mut Publisher<T>, value: T) -> (r: Result<usize, T>)
    ensures
        final(publisher).sent() == old(publisher).sent().push(value),
        final(publisher).sender() == old(publisher).sender(),
        final(publisher).capacity() == old(publisher).capacity(),
        r matches Ok(receivers) ==> receivers > 0,
        r matches Err(back) ==> back == value,
{
    match publisher.sender.send(value) {
        Ok(receivers) => Ok(receivers),
        Err(err) => Err(err.0),
    }
}

/// `broadcast::Sender::subscribe` gives a receiver of the values that this sender is handed from
/// now on, and of no earlier ones. It panics past a number of receivers that no memory can hold.
#[verifier::external_body]
pub(crate) fn subscribe_to<T>(publisher: &Publisher<T>) -> (r: Subscription<T>)
    ensures
        r.source() == *publisher,
{
    Subscription { receiver: publisher.sender.subscribe(), source: Ghost(*publisher) }
}

/// What was handed to the sending half, value by value, whatever became of it.
pub uninterp spec fn offered_to(
    sender: tokio::sync::mpsc::UnboundedSender<bytes::Bytes>,
) -> Seq<Seq<u8>>;

/// What was queued through the sending half, value by value.
pub uninterp spec fn queued_by(
    sender: tokio::sync::mpsc::UnboundedSender<bytes::Bytes>,
) -> Seq<Seq<u8>>;

/// `mpsc::UnboundedSender::send` is handed `value`. It queues it for the receiving half and returns
/// `Ok`, or, where that half is gone, queues nothing and hands the value back. Whether it is gone
/// is up to the task that holds it.
#[verifier::external_body]
pub(crate) fn send_to_one(sender: &mut mpsc::UnboundedSender<Bytes>, value: Bytes) -> (r: Result<
    (),
    Bytes,
>)
    ensures
        offered_to(*final(sender)) == offered_to(*old(sender)).push(bytes_content(value)),
        match r {
            Ok(_) => queued_by(*final(sender)) == queued_by(*old(sender)).push(
                bytes_content(value),
            ),
            Err(back) => back == value && queued_by(*final(sender)) == queued_by(*old(sender)),
        },
{
    match sender.send(value) {
        Ok(()) => Ok(()),
        Err(err) => Err(err.0),
    }
}

} // verus!
