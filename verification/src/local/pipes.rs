//! The input and output of a sandbox, between the pipes of its process and the handles that are
//! given out.
//!
//! Output fans out: every handle on it is a subscription of its own and sees a full copy of what
//! comes from then on. A handle that falls too far behind misses chunks; the process is never
//! held up. Input fans in: what is written on any handle goes to the process in the order in
//! which it arrives. Reading and writing the pipes themselves, and waiting, are up to the caller.
use bytes::Bytes;
use tokio::sync::{broadcast, mpsc};
use vstd::prelude::*;
use vstd::slice::slice_subrange;

use crate::outside::buffer::{bytes_content, bytes_slice, copy_to_bytes};
use crate::outside::channel::{
    offered_to, open_broadcast, queued_by, send_to_all, send_to_one, subscribe_to, Publisher,
    Subscription,
};

verus! {

/// How many chunks of output a reader may lag behind before it misses some.
pub const BROADCAST_CAPACITY: usize = 256;

/// The most bytes of output that one chunk holds.
pub const READ_CHUNK: usize = 8192;

// ---------------------------------------------------------------------------
// Output
// ---------------------------------------------------------------------------

/// What the chunks hold.
pub open spec fn contents(chunks: Seq<Bytes>) -> Seq<Seq<u8>> {
    chunks.map_values(|chunk: Bytes| bytes_content(chunk))
}

/// One stream of output. It ends once: when the pipe did, or when reading it failed.
///
/// Its view is what was sent down it, chunk by chunk, as long as it has not ended.
pub struct BroadcastChannel {
    publisher: Option<Publisher<Bytes>>,
}

impl View for BroadcastChannel {
    type V = Option<Seq<Seq<u8>>>;

    closed spec fn view(&self) -> Option<Seq<Seq<u8>>> {
        match self.publisher {
            Some(publisher) => Some(contents(publisher.sent())),
            None => None,
        }
    }
}

impl BroadcastChannel {
    /// How many chunks are kept for readers that fall behind, as long as the stream has not ended.
    pub closed spec fn capacity(self) -> Option<nat> {
        match self.publisher {
            Some(publisher) => Some(publisher.capacity()),
            None => None,
        }
    }

    /// What its readers are subscribed to, as long as it has not ended.
    pub closed spec fn publisher(self) -> Option<Publisher<Bytes>> {
        self.publisher
    }

    /// The channel that its readers listen on, as long as it has not ended.
    pub open spec fn sender(self) -> Option<broadcast::Sender<Bytes>> {
        match self.publisher() {
            Some(publisher) => Some(publisher.sender()),
            None => None,
        }
    }
}

/// A stream of output after `chunk` was sent down it. One that has ended takes nothing more.
pub open spec fn sent_down(channel: Option<Seq<Seq<u8>>>, chunk: Seq<u8>) -> Option<Seq<Seq<u8>>> {
    match channel {
        Some(chunks) => Some(chunks.push(chunk)),
        None => None,
    }
}

/// A stream of output after its pipe was read: what came is sent down, and the stream ends where
/// nothing came or reading failed.
pub open spec fn pumped(
    channel: Option<Seq<Seq<u8>>>,
    buf: Seq<u8>,
    read: Result<usize, std::io::Error>,
) -> Option<Seq<Seq<u8>>> {
    match read {
        Ok(n) => if n > 0 {
            sent_down(channel, buf.take(n as int))
        } else {
            None
        },
        Err(_) => None,
    }
}

/// Whether a subscription listens on this channel, on which the chunks were sent, from a point
/// among them on.
pub open spec fn follows(
    subscription: Subscription<Bytes>,
    channel: broadcast::Sender<Bytes>,
    chunks: Seq<Seq<u8>>,
) -> bool {
    &&& subscription.source().sender() == channel
    &&& contents(subscription.source().sent()).is_prefix_of(chunks)
}

/// The chunks that were sent since the subscription began.
pub open spec fn output(subscription: Subscription<Bytes>, chunks: Seq<Seq<u8>>) -> Seq<Seq<u8>> {
    chunks.skip(subscription.start() as int)
}

impl BroadcastChannel {
    /// A stream that nothing was sent down.
    pub fn new() -> (r: Self)
        ensures
            r@ == Some(Seq::<Seq<u8>>::empty()),
            r.capacity() == Some(BROADCAST_CAPACITY as nat),
    {
        let publisher: Publisher<Bytes> = open_broadcast(BROADCAST_CAPACITY);
        assert(contents(publisher.sent()) =~= Seq::empty());
        BroadcastChannel { publisher: Some(publisher) }
    }

    /// Sends a chunk to every reader.
    pub fn send(&mut self, bytes: Bytes)
        ensures
            final(self)@ == sent_down(old(self)@, bytes_content(bytes)),
            final(self).capacity() == old(self).capacity(),
            final(self).sender() == old(self).sender(),
    {
        if let Some(publisher) = &mut self.publisher {
            let ghost before = publisher.sent();
            // Where nobody is subscribed, there is nobody to tell.
            let _ = send_to_all(publisher, bytes);
            assert(contents(before.push(bytes)) =~= contents(before).push(bytes_content(bytes)));
        }
    }

    /// Ends the stream.
    pub fn finish(&mut self)
        ensures
            final(self)@ is None,
    {
        self.publisher = None;
    }

    /// Subscribes to what is sent from now on, unless the stream has ended.
    pub fn subscribe(&self) -> (r: Option<Subscription<Bytes>>)
        ensures
            match self@ {
                Some(chunks) => {
                    &&& r matches Some(subscription)
                    &&& Some(subscription.source()) == self.publisher()
                    &&& follows(subscription, subscription.source().sender(), chunks)
                    &&& output(subscription, chunks) == Seq::<Seq<u8>>::empty()
                },
                None => r is None,
            },
    {
        match &self.publisher {
            Some(publisher) => Some(subscribe_to(publisher)),
            None => None,
        }
    }

    /// Takes note of the pipe having been read into `buf`, and whether to go on reading it.
    pub fn pump(&mut self, buf: &[u8], read: Result<usize, std::io::Error>) -> (r: bool)
        requires
            read matches Ok(n) ==> n <= buf@.len(),
        ensures
            final(self)@ == pumped(old(self)@, buf@, read),
            r == (read matches Ok(n) && n > 0),
            final(self)@ is Some ==> {
                &&& final(self).capacity() == old(self).capacity()
                &&& final(self).sender() == old(self).sender()
            },
    {
        match read {
            Ok(n) => {
                if n > 0 {
                    self.send(copy_to_bytes(slice_subrange(buf, 0, n)));
                    true
                } else {
                    self.finish();
                    false
                }
            },
            Err(_) => {
                self.finish();
                false
            },
        }
    }
}

/// How a reader stands to its stream.
#[derive(Debug, Clone, Copy, PartialEq, Eq, Structural)]
pub enum RecvState {
    /// It is not waiting for the next chunk.
    Idle,
    /// It is waiting for the next chunk.
    Pending,
    /// The stream has ended.
    Eof,
}

/// What waiting for the next chunk came to.
pub enum RecvEvent {
    /// There is none yet.
    Pending,
    Received(Bytes),
    /// So many chunks were missed: the reader had fallen behind.
    Lagged(u64),
    /// The stream has ended.
    Closed,
}

/// What a read has to do next.
#[derive(Debug, Clone, Copy, PartialEq, Eq)]
pub enum ReadStep {
    /// The read is done, with so many bytes.
    Ready(usize),
    /// Begin to wait for the next chunk, then go on.
    StartRecv,
    /// See what waiting for the next chunk came to.
    PollRecv,
    /// There is nothing to be had yet.
    Suspend,
    /// Go on.
    Continue,
}

/// What a reader holds.
pub struct ReaderModel {
    /// What is left of the last chunk, if it was not read to its end.
    pub leftover: Option<Seq<u8>>,
    pub state: RecvState,
}

/// How much of `left` a read into a buffer of `room` bytes takes.
pub open spec fn taken(left: Seq<u8>, room: nat) -> Seq<u8> {
    if left.len() <= room {
        left
    } else {
        left.take(room as int)
    }
}

/// What such a read leaves.
pub open spec fn leaves(left: Seq<u8>, room: nat) -> Option<Seq<u8>> {
    if left.len() <= room {
        None
    } else {
        Some(left.skip(room as int))
    }
}

impl ReaderModel {
    /// A reader of a stream, or of none if it has ended.
    pub open spec fn fresh(open: bool) -> ReaderModel {
        ReaderModel {
            leftover: None,
            state: if open {
                RecvState::Idle
            } else {
                RecvState::Eof
            },
        }
    }

    /// What a read into a buffer of `room` bytes has to do next.
    pub open spec fn step(self, room: nat) -> ReadStep {
        match self.leftover {
            Some(left) => ReadStep::Ready(taken(left, room).len() as usize),
            None => match self.state {
                RecvState::Idle => ReadStep::StartRecv,
                RecvState::Pending => ReadStep::PollRecv,
                RecvState::Eof => ReadStep::Ready(0),
            },
        }
    }

    /// The bytes that the step puts into the buffer.
    pub open spec fn given(self, room: nat) -> Seq<u8> {
        match self.leftover {
            Some(left) => taken(left, room),
            None => Seq::empty(),
        }
    }

    /// The reader after that step.
    pub open spec fn advanced(self, room: nat) -> ReaderModel {
        match self.leftover {
            Some(left) => ReaderModel { leftover: leaves(left, room), ..self },
            None => match self.state {
                RecvState::Idle => ReaderModel { state: RecvState::Pending, ..self },
                _ => self,
            },
        }
    }

    /// The reader after waiting for the next chunk came to `event`.
    pub open spec fn told(self, event: RecvEvent) -> ReaderModel {
        match event {
            RecvEvent::Pending => self,
            RecvEvent::Received(bytes) => ReaderModel {
                leftover: Some(bytes_content(bytes)),
                state: RecvState::Idle,
            },
            RecvEvent::Lagged(_) => ReaderModel { state: RecvState::Idle, ..self },
            RecvEvent::Closed => ReaderModel { state: RecvState::Eof, ..self },
        }
    }
}

/// A handle to read output from.
pub struct BroadcastAsyncRead {
    leftover: Option<(Bytes, usize)>,
    state: RecvState,
}

impl View for BroadcastAsyncRead {
    type V = ReaderModel;

    closed spec fn view(&self) -> ReaderModel {
        ReaderModel {
            leftover: match self.leftover {
                Some((chunk, offset)) => Some(bytes_content(chunk).skip(offset as int)),
                None => None,
            },
            state: self.state,
        }
    }
}

impl BroadcastAsyncRead {
    #[verifier::type_invariant]
    spec fn consistent(self) -> bool {
        self.leftover matches Some((chunk, offset)) ==> {
            &&& offset <= bytes_content(chunk).len()
            &&& self.state == RecvState::Idle
        }
    }

    /// A handle on the stream of `rx`; without one the stream has ended.
    pub fn new(rx: &Option<Subscription<Bytes>>) -> (r: Self)
        ensures
            r@ == ReaderModel::fresh(rx is Some),
    {
        BroadcastAsyncRead {
            leftover: None,
            state: match rx {
                Some(_) => RecvState::Idle,
                None => RecvState::Eof,
            },
        }
    }

    /// Goes on with a read into `buf`: what is left of the last chunk comes first, and only when
    /// nothing is, the next chunk is waited for.
    pub fn advance(&mut self, buf: &mut [u8]) -> (r: ReadStep)
        ensures
            r == old(self)@.step(old(buf)@.len()),
            final(self)@ == old(self)@.advanced(old(buf)@.len()),
            final(buf)@ == old(self)@.given(old(buf)@.len()) + old(buf)@.skip(
                old(self)@.given(old(buf)@.len()).len() as int,
            ),
    {
        proof {
            use_type_invariant(&*self);
        }
        let mut leftover: Option<(Bytes, usize)> = None;
        std::mem::swap(&mut leftover, &mut self.leftover);
        match leftover {
            Some((chunk, offset)) => {
                let data: &[u8] = bytes_slice(&chunk);
                let ghost left = data@.skip(offset as int);
                let ghost before = buf@;
                let room: usize = buf.len();
                let len: usize = data.len();
                let remaining: usize = len - offset;
                let n: usize = if remaining <= room {
                    remaining
                } else {
                    room
                };
                let mut i: usize = 0;
                while i < n
                    invariant
                        i <= n,
                        n <= room,
                        room == buf@.len(),
                        room == before.len(),
                        left == data@.skip(offset as int),
                        len == data@.len(),
                        offset + n <= len,
                        forall|j: int| 0 <= j < i ==> #[trigger] buf@[j] == left[j],
                        forall|j: int| i <= j < room ==> #[trigger] buf@[j] == before[j],
                    decreases n - i,
                {
                    buf[i] = data[offset + i];
                    i = i + 1;
                }
                proof {
                    assert(buf@ =~= taken(left, room as nat) + before.skip(
                        taken(left, room as nat).len() as int,
                    ));
                }
                if n < remaining {
                    assert(left.skip(n as int) =~= data@.skip(offset + n));
                    self.leftover = Some((chunk, offset + n));
                }
                ReadStep::Ready(n)
            },
            None => {
                assert(buf@ =~= Seq::<u8>::empty() + buf@.skip(0));
                match self.state {
                    RecvState::Idle => {
                        self.state = RecvState::Pending;
                        ReadStep::StartRecv
                    },
                    RecvState::Pending => ReadStep::PollRecv,
                    RecvState::Eof => ReadStep::Ready(0),
                }
            },
        }
    }

    /// Takes note of what waiting for the next chunk came to. Chunks that were missed are lost;
    /// the read goes on with whatever comes next.
    pub fn on_recv(&mut self, event: RecvEvent) -> (r: ReadStep)
        requires
            old(self)@.state == RecvState::Pending,
        ensures
            final(self)@ == old(self)@.told(event),
            r == (match event {
                RecvEvent::Pending => ReadStep::Suspend,
                RecvEvent::Received(_) => ReadStep::Continue,
                RecvEvent::Lagged(_) => ReadStep::Continue,
                RecvEvent::Closed => ReadStep::Ready(0),
            }),
    {
        proof {
            use_type_invariant(&*self);
        }
        match event {
            RecvEvent::Pending => ReadStep::Suspend,
            RecvEvent::Received(bytes) => {
                assert(bytes_content(bytes).skip(0) =~= bytes_content(bytes));
                self.state = RecvState::Idle;
                self.leftover = Some((bytes, 0));
                ReadStep::Continue
            },
            RecvEvent::Lagged(_) => {
                self.state = RecvState::Idle;
                ReadStep::Continue
            },
            RecvEvent::Closed => {
                self.state = RecvState::Eof;
                ReadStep::Ready(0)
            },
        }
    }
}

// ---------------------------------------------------------------------------
// Input
// ---------------------------------------------------------------------------

/// Why input was not taken.
#[derive(Debug, Clone, Copy, PartialEq, Eq)]
pub enum WriteError {
    /// The handle was closed before.
    HandleClosed,
    /// Nobody passes input on to the process any more.
    PumpGone,
}

impl WriteError {
    /// What the error is reported as.
    pub open spec fn text(self) -> Seq<char> {
        match self {
            WriteError::HandleClosed => "this stdin handle was already closed"@,
            WriteError::PumpGone => "stdin pump thread is gone"@,
        }
    }

    /// What the error is reported as.
    pub fn message(&self) -> (r: &'static str)
        ensures
            r@ == self.text(),
    {
        match self {
            WriteError::HandleClosed => "this stdin handle was already closed",
            WriteError::PumpGone => "stdin pump thread is gone",
        }
    }
}

/// What went through a handle to write input to, write by write.
pub struct InputModel {
    /// What was handed on.
    pub offered: Seq<Seq<u8>>,
    /// What of it was queued for the process.
    pub queued: Seq<Seq<u8>>,
}

/// What went through a sending half.
pub open spec fn input_model(tx: mpsc::UnboundedSender<Bytes>) -> InputModel {
    InputModel { offered: offered_to(tx), queued: queued_by(tx) }
}

/// A handle to write input to. Closing it leaves other handles on the same input open.
///
/// Its view is what went through it, as long as it is open.
pub struct MpscAsyncWrite {
    tx: Option<mpsc::UnboundedSender<Bytes>>,
}

impl View for MpscAsyncWrite {
    type V = Option<InputModel>;

    closed spec fn view(&self) -> Option<InputModel> {
        match self.tx {
            Some(tx) => Some(input_model(tx)),
            None => None,
        }
    }
}

/// What writing `len` bytes comes to, after they were handed on.
pub fn write_result(handed_on: Result<(), Bytes>, len: usize) -> (r: Result<usize, WriteError>)
    ensures
        r == (match handed_on {
            Ok(()) => Ok::<usize, WriteError>(len),
            Err(_) => Err(WriteError::PumpGone),
        }),
{
    match handed_on {
        Ok(()) => Ok(len),
        Err(_) => Err(WriteError::PumpGone),
    }
}

impl MpscAsyncWrite {
    /// An open handle that hands input to `tx`.
    pub fn new(tx: mpsc::UnboundedSender<Bytes>) -> (r: Self)
        ensures
            r@ == Some(input_model(tx)),
    {
        MpscAsyncWrite { tx: Some(tx) }
    }

    /// Hands the whole of `buf` on for the process, in one piece: it succeeds exactly if that was
    /// queued. Whether anyone is left to take it is up to the other end.
    pub fn write(&mut self, buf: &[u8]) -> (r: Result<usize, WriteError>)
        ensures
            match old(self)@ {
                None => {
                    &&& r == Err::<usize, WriteError>(WriteError::HandleClosed)
                    &&& final(self)@ is None
                },
                Some(before) => {
                    &&& final(self)@ matches Some(after)
                    &&& after.offered == before.offered.push(buf@)
                    &&& match r {
                        Ok(n) => n == buf@.len() && after.queued == before.queued.push(buf@),
                        Err(err) => err == WriteError::PumpGone && after.queued == before.queued,
                    }
                },
            },
    {
        match &mut self.tx {
            Some(tx) => write_result(send_to_one(tx, copy_to_bytes(buf)), buf.len()),
            None => Err(WriteError::HandleClosed),
        }
    }

    /// Nothing is held back, so there is nothing to do: every write has handed its bytes on.
    pub fn flush(&mut self) -> (r: Result<(), WriteError>)
        ensures
            r is Ok,
            final(self)@ == old(self)@,
    {
        Ok(())
    }

    /// Closes this handle.
    pub fn close(&mut self) -> (r: Result<(), WriteError>)
        ensures
            r is Ok,
            final(self)@ is None,
    {
        self.tx = None;
        Ok(())
    }
}

/// What happened to whoever passes input on to the process.
pub enum PumpEvent {
    Received(Bytes),
    /// All handles are gone, and nothing is queued any more.
    SendersGone,
    /// The process took the last chunk.
    Written,
    /// The process takes nothing more.
    WriteFailed,
}

/// What is to be done about it.
pub enum PumpStep {
    Write(Bytes),
    Receive,
    Stop,
}

/// How input is passed on: chunk by chunk as it arrives, until there is no more or the process
/// takes none.
pub fn stdin_pump_step(event: PumpEvent) -> (r: PumpStep)
    ensures
        r == (match event {
            PumpEvent::Received(bytes) => PumpStep::Write(bytes),
            PumpEvent::Written => PumpStep::Receive,
            PumpEvent::SendersGone => PumpStep::Stop,
            PumpEvent::WriteFailed => PumpStep::Stop,
        }),
{
    match event {
        PumpEvent::Received(bytes) => PumpStep::Write(bytes),
        PumpEvent::Written => PumpStep::Receive,
        PumpEvent::SendersGone => PumpStep::Stop,
        PumpEvent::WriteFailed => PumpStep::Stop,
    }
}

// ---------------------------------------------------------------------------
// Laws
// ---------------------------------------------------------------------------

/// The bytes of all chunks, one after the other.
pub open spec fn joined(chunks: Seq<Seq<u8>>) -> Seq<u8>
    decreases chunks.len(),
{
    if chunks.len() == 0 {
        Seq::empty()
    } else {
        joined(chunks.drop_last()) + chunks.last()
    }
}

/// The bytes that the reader still has to give out of the chunks that it was handed.
pub open spec fn held(reader: ReaderModel) -> Seq<u8> {
    match reader.leftover {
        Some(left) => left,
        None => Seq::empty(),
    }
}

/// What a reader that is handed the chunks in order, one whenever it waits for one, comes to over
/// reads into buffers of these sizes: the bytes that the reads give, in order, and those that
/// are still to be given.
pub open spec fn read_out(
    reader: ReaderModel,
    chunks: Seq<Bytes>,
    rooms: Seq<nat>,
) -> (Seq<u8>, Seq<u8>)
    decreases rooms.len(), chunks.len(),
{
    if rooms.len() == 0 || (reader.leftover is None && chunks.len() == 0) {
        (Seq::empty(), held(reader) + joined(contents(chunks)))
    } else if reader.leftover is Some {
        let (given, left) = read_out(reader.advanced(rooms[0]), chunks, rooms.drop_first());
        (reader.given(rooms[0]) + given, left)
    } else {
        let event = RecvEvent::Received(chunks[0]);
        read_out(reader.advanced(rooms[0]).told(event), chunks.drop_first(), rooms)
    }
}

proof fn lemma_joined_first(chunks: Seq<Seq<u8>>)
    requires
        chunks.len() > 0,
    ensures
        joined(chunks) == chunks[0] + joined(chunks.drop_first()),
    decreases chunks.len(),
{
    if chunks.len() == 1 {
        assert(chunks.drop_last() =~= Seq::empty());
        assert(chunks.drop_first() =~= Seq::empty());
        assert(joined(chunks) =~= chunks[0] + joined(chunks.drop_first()));
    } else {
        lemma_joined_first(chunks.drop_last());
        assert(chunks.drop_last().drop_first() =~= chunks.drop_first().drop_last());
        assert(joined(chunks) =~= chunks[0] + joined(chunks.drop_first()));
    }
}

/// Output is passed on whole and in order: what a stream was sent down, taken together, grows by
/// exactly the bytes that were read from the pipe.
pub proof fn law_pumping_keeps_every_byte(
    chunks: Seq<Seq<u8>>,
    buf: Seq<u8>,
    read: Result<usize, std::io::Error>,
)
    ensures
        match pumped(Some(chunks), buf, read) {
            Some(after) => read matches Ok(n) && joined(after) == joined(chunks) + buf.take(n as int),
            None => read is Err || (read matches Ok(n) && n == 0),
        },
{
    if let Ok(n) = read {
        assert(chunks.push(buf.take(n as int)).drop_last() =~= chunks);
    }
}

/// Every reader gets a full copy of the output from when it subscribed on: as long as the stream
/// goes on, whatever is read from the pipe is added to what was sent since then, on the channel
/// that the reader listens on, and nothing else is.
pub proof fn law_readers_get_all_output(
    subscription: Subscription<Bytes>,
    channel: broadcast::Sender<Bytes>,
    chunks: Seq<Seq<u8>>,
    buf: Seq<u8>,
    read: Result<usize, std::io::Error>,
)
    requires
        follows(subscription, channel, chunks),
    ensures
        match pumped(Some(chunks), buf, read) {
            Some(after) => {
                &&& read matches Ok(n)
                &&& follows(subscription, channel, after)
                &&& output(subscription, after) == output(subscription, chunks).push(
                    buf.take(n as int),
                )
                &&& joined(output(subscription, after)) == joined(output(subscription, chunks))
                    + buf.take(n as int)
            },
            None => read is Err || (read matches Ok(n) && n == 0),
        },
{
    if let Ok(n) = read {
        let chunk = buf.take(n as int);
        let before = output(subscription, chunks);
        assert(contents(subscription.source().sent()).len() == subscription.start());
        assert(output(subscription, chunks.push(chunk)) =~= before.push(chunk));
        assert(before.push(chunk).drop_last() =~= before);
    }
}

/// A reader loses nothing, adds nothing and changes no order: whatever the sizes of its buffers,
/// the bytes that it gives, followed by those it has still to give, are those of the chunks that
/// it was handed.
pub proof fn law_reading_keeps_every_byte(
    reader: ReaderModel,
    chunks: Seq<Bytes>,
    rooms: Seq<nat>,
)
    requires
        reader.state == RecvState::Idle,
    ensures
        read_out(reader, chunks, rooms).0 + read_out(reader, chunks, rooms).1 == held(reader)
            + joined(contents(chunks)),
    decreases rooms.len(), chunks.len(),
{
    let all = held(reader) + joined(contents(chunks));
    if rooms.len() == 0 || (reader.leftover is None && chunks.len() == 0) {
        assert(Seq::<u8>::empty() + all =~= all);
    } else if reader.leftover is Some {
        let next = reader.advanced(rooms[0]);
        law_reading_keeps_every_byte(next, chunks, rooms.drop_first());
        let (given, left) = read_out(next, chunks, rooms.drop_first());
        assert(reader.given(rooms[0]) + held(next) =~= held(reader));
        assert((reader.given(rooms[0]) + given) + left =~= reader.given(rooms[0]) + (given + left));
        assert(reader.given(rooms[0]) + (held(next) + joined(contents(chunks))) =~= all);
    } else {
        let next = reader.advanced(rooms[0]).told(RecvEvent::Received(chunks[0]));
        law_reading_keeps_every_byte(next, chunks.drop_first(), rooms);
        lemma_joined_first(contents(chunks));
        assert(contents(chunks).drop_first() =~= contents(chunks.drop_first()));
        assert(all =~= held(next) + joined(contents(chunks.drop_first())));
    }
}

/// What the reads into buffers of these sizes give, one after the other, where the reader is
/// handed the chunks in order, one whenever it waits for one, and told of the end of the stream
/// after the last.
pub open spec fn reads_to_end(
    reader: ReaderModel,
    chunks: Seq<Bytes>,
    rooms: Seq<nat>,
) -> Seq<Seq<u8>>
    decreases rooms.len(), chunks.len(),
{
    if rooms.len() == 0 {
        Seq::empty()
    } else if reader.step(rooms[0]) is Ready {
        seq![reader.given(rooms[0])] + reads_to_end(
            reader.advanced(rooms[0]),
            chunks,
            rooms.drop_first(),
        )
    } else if chunks.len() == 0 {
        let closed = reader.advanced(rooms[0]).told(RecvEvent::Closed);
        seq![Seq::empty()] + reads_to_end(closed, chunks, rooms.drop_first())
    } else {
        let event = RecvEvent::Received(chunks[0]);
        reads_to_end(reader.advanced(rooms[0]).told(event), chunks.drop_first(), rooms)
    }
}

/// Whether reads that give nothing come only after all those that give something.
pub open spec fn ends_once(reads: Seq<Seq<u8>>) -> bool {
    forall|i: int, j: int|
        0 <= i < j < reads.len() && (#[trigger] reads[i]).len() == 0 ==> (#[trigger] reads[j]).len()
            == 0
}

proof fn lemma_reads_after_the_end(reader: ReaderModel, chunks: Seq<Bytes>, rooms: Seq<nat>)
    requires
        reader.state == RecvState::Eof,
        reader.leftover is None,
    ensures
        reads_to_end(reader, chunks, rooms).len() == rooms.len(),
        forall|i: int|
            0 <= i < rooms.len() ==> (#[trigger] reads_to_end(reader, chunks, rooms)[i]).len() == 0,
        joined(reads_to_end(reader, chunks, rooms)).len() == 0,
    decreases rooms.len(),
{
    if rooms.len() > 0 {
        let rest = reads_to_end(reader, chunks, rooms.drop_first());
        let reads = reads_to_end(reader, chunks, rooms);
        lemma_reads_after_the_end(reader, chunks, rooms.drop_first());
        assert(reads == seq![reader.given(rooms[0])] + rest);
        lemma_joined_first(reads);
        assert(reads.drop_first() =~= rest);
    }
}

/// Reading a stream to its end gives the whole of it: over more reads than there are bytes, into
/// buffers that hold at least one each, the reads give exactly the bytes of the chunks, in order,
/// none more than its buffer holds; then, and only then, they give nothing any more.
pub proof fn law_reading_to_the_end(reader: ReaderModel, chunks: Seq<Bytes>, rooms: Seq<nat>)
    requires
        reader.state == RecvState::Idle,
        reader.leftover matches Some(left) ==> left.len() > 0,
        forall|i: int| 0 <= i < chunks.len() ==> bytes_content(#[trigger] chunks[i]).len() > 0,
        forall|i: int| 0 <= i < rooms.len() ==> #[trigger] rooms[i] > 0,
        rooms.len() > (held(reader) + joined(contents(chunks))).len(),
    ensures
        reads_to_end(reader, chunks, rooms).len() == rooms.len(),
        joined(reads_to_end(reader, chunks, rooms)) == held(reader) + joined(contents(chunks)),
        ends_once(reads_to_end(reader, chunks, rooms)),
        reads_to_end(reader, chunks, rooms).last().len() == 0,
        forall|i: int|
            0 <= i < rooms.len() ==> (#[trigger] reads_to_end(reader, chunks, rooms)[i]).len()
                <= rooms[i],
    decreases rooms.len(), chunks.len(),
{
    let reads = reads_to_end(reader, chunks, rooms);
    let all = held(reader) + joined(contents(chunks));
    let tail = rooms.drop_first();
    if let Some(left) = reader.leftover {
        let next = reader.advanced(rooms[0]);
        let given = reader.given(rooms[0]);
        let rest = reads_to_end(next, chunks, tail);
        assert(given + held(next) =~= held(reader));
        assert forall|i: int| 0 <= i < tail.len() implies #[trigger] tail[i] > 0 by {
            assert(tail[i] == rooms[i + 1]);
        }
        law_reading_to_the_end(next, chunks, tail);
        assert(reads == seq![given] + rest);
        lemma_joined_first(reads);
        assert(reads.drop_first() =~= rest);
        assert(given + (held(next) + joined(contents(chunks))) =~= all);
        assert forall|i: int| 0 <= i < rooms.len() implies (#[trigger] reads[i]).len() <= rooms[i] by {
            if i > 0 {
                assert(reads[i] == rest[i - 1]);
                assert(rooms[i] == tail[i - 1]);
            }
        }
        assert forall|i: int, j: int|
            0 <= i < j < reads.len() && (#[trigger] reads[i]).len() == 0 implies (
        #[trigger] reads[j]).len() == 0 by {
            assert(reads[j] == rest[j - 1]);
            if i > 0 {
                assert(reads[i] == rest[i - 1]);
            }
        }
    } else if chunks.len() == 0 {
        let closed = reader.advanced(rooms[0]).told(RecvEvent::Closed);
        let rest = reads_to_end(closed, chunks, tail);
        lemma_reads_after_the_end(closed, chunks, tail);
        assert(reads == seq![Seq::<u8>::empty()] + rest);
        lemma_joined_first(reads);
        assert(reads.drop_first() =~= rest);
        assert(joined(reads) =~= all);
        assert forall|i: int| 0 <= i < rooms.len() implies (#[trigger] reads[i]).len() == 0 by {
            if i > 0 {
                assert(reads[i] == rest[i - 1]);
            }
        }
    } else {
        let next = reader.advanced(rooms[0]).told(RecvEvent::Received(chunks[0]));
        lemma_joined_first(contents(chunks));
        assert(contents(chunks).drop_first() =~= contents(chunks.drop_first()));
        assert(all =~= held(next) + joined(contents(chunks.drop_first())));
        law_reading_to_the_end(next, chunks.drop_first(), rooms);
    }
}

/// The end of a stream is final: nothing is sent down it any more, and a reader that has come to
/// it gives nothing on any read and stays there.
pub proof fn law_the_end_is_final(
    chunk: Seq<u8>,
    buf: Seq<u8>,
    read: Result<usize, std::io::Error>,
    reader: ReaderModel,
    room: nat,
)
    requires
        reader.state == RecvState::Eof,
        reader.leftover is None,
    ensures
        sent_down(None, chunk) is None,
        pumped(None, buf, read) is None,
        reader.step(room) == ReadStep::Ready(0),
        reader.given(room).len() == 0,
        reader.advanced(room) == reader,
        ReaderModel::fresh(false) == reader,
{
}

/// A stream takes what it is sent until it ends, and nothing after that; readers that come while it
/// goes on are given a place to listen, and later ones none.
pub proof fn law_streams_take_until_they_end(
    channel: &mut BroadcastChannel,
    bytes: Bytes,
    before: Option<Subscription<Bytes>>,
    after: Option<Subscription<Bytes>>,
)
    requires
        call_ensures(BroadcastChannel::send, (channel, bytes), ()),
        call_ensures(BroadcastChannel::subscribe, (&*old(channel),), before),
        call_ensures(BroadcastChannel::subscribe, (&*final(channel),), after),
    ensures
        final(channel)@ is Some <==> old(channel)@ is Some,
        old(channel)@ matches Some(chunks) ==> final(channel)@ == Some(
            chunks.push(bytes_content(bytes)),
        ),
        before is Some <==> old(channel)@ is Some,
        after is Some <==> final(channel)@ is Some,
        before matches Some(subscription) ==> {
            &&& final(channel)@ matches Some(chunks)
            &&& output(subscription, chunks) == seq![bytes_content(bytes)]
        },
        after matches Some(subscription) ==> {
            &&& final(channel)@ matches Some(chunks)
            &&& output(subscription, chunks).len() == 0
        },
{
    if let Some(subscription) = before {
        let sent = old(channel)@->Some_0;
        let start = subscription.start() as int;
        assert(contents(subscription.source().sent()).len() == start);
        assert(sent.skip(start).len() == 0);
        assert(start == sent.len());
        assert(sent.push(bytes_content(bytes)).skip(start) =~= seq![bytes_content(bytes)]);
    }
}

/// A new stream goes on and has been sent nothing; a finished one is over.
pub proof fn law_streams_begin_and_end(fresh: BroadcastChannel, channel: &mut BroadcastChannel)
    requires
        call_ensures(BroadcastChannel::new, (), fresh),
        call_ensures(BroadcastChannel::finish, (channel,), ()),
    ensures
        fresh@ matches Some(chunks) && chunks.len() == 0,
        fresh.capacity() matches Some(room) && room == 256,
        final(channel)@ is None,
{
}

/// What is read from a pipe is passed on, all of it and nothing else: so many bytes of the buffer
/// as were read. Where none were, or reading failed, the stream ends, and in no other case.
pub proof fn law_pumping_passes_on_what_was_read(
    channel: &mut BroadcastChannel,
    buf: &[u8],
    read: Result<usize, std::io::Error>,
    r: bool,
)
    requires
        read matches Ok(n) ==> n <= buf@.len(),
        call_ensures(BroadcastChannel::pump, (channel, buf, read), r),
    ensures
        r <==> (read matches Ok(n) && n > 0),
        !r ==> final(channel)@ is None,
        r && old(channel)@ is Some ==> {
            let chunks = old(channel)@->Some_0;
            &&& final(channel)@ matches Some(after)
            &&& after.len() == chunks.len() + 1
            &&& chunks.is_prefix_of(after)
            &&& after.last().len() == read->Ok_0
            &&& forall|i: int| 0 <= i < read->Ok_0 ==> #[trigger] after.last()[i] == buf@[i]
        },
        old(channel)@ is None ==> final(channel)@ is None,
{
}

/// A reader begins at the end if and only if there is no stream to read from.
pub proof fn law_readers_begin_where_the_stream_is(
    rx: Option<Subscription<Bytes>>,
    r: BroadcastAsyncRead,
)
    requires
        call_ensures(BroadcastAsyncRead::new, (&rx,), r),
    ensures
        r@.leftover is None,
        r@.state == RecvState::Idle <==> rx is Some,
        r@.state == RecvState::Eof <==> rx is None,
{
}

/// A read of a chunk that is held takes as much of it as the buffer holds, from its front and in
/// order, leaves the rest of the buffer as it was, and keeps the rest of the chunk for the next
/// read. Without one, a reader that is not waiting begins to, one that waits looks, and one at the
/// end gives nothing; the buffer is left as it was.
pub proof fn law_reads_take_what_is_held(
    reader: &mut BroadcastAsyncRead,
    buf: &mut [u8],
    r: ReadStep,
)
    requires
        call_ensures(BroadcastAsyncRead::advance, (reader, buf), r),
    ensures
        final(buf)@.len() == old(buf)@.len(),
        match old(reader)@.leftover {
            Some(left) => {
                let n: int = if left.len() <= old(buf)@.len() {
                    left.len() as int
                } else {
                    old(buf)@.len() as int
                };
                &&& r matches ReadStep::Ready(given)
                &&& given == n
                &&& forall|i: int| 0 <= i < n ==> #[trigger] final(buf)@[i] == left[i]
                &&& forall|i: int|
                    n <= i < old(buf)@.len() ==> #[trigger] final(buf)@[i] == old(buf)@[i]
                &&& final(reader)@.leftover is Some <==> n < left.len()
                &&& final(reader)@.leftover matches Some(rest) ==> rest == left.skip(n)
                &&& final(reader)@.state == old(reader)@.state
            },
            None => {
                &&& final(buf)@ == old(buf)@
                &&& final(reader)@.leftover is None
                &&& old(reader)@.state == RecvState::Idle ==> r is StartRecv
                    && final(reader)@.state == RecvState::Pending
                &&& old(reader)@.state == RecvState::Pending ==> r is PollRecv
                    && final(reader)@.state == RecvState::Pending
                &&& old(reader)@.state == RecvState::Eof ==> r == ReadStep::Ready(0)
                    && final(reader)@.state == RecvState::Eof
            },
        },
{
    assert(old(buf)@.len() <= usize::MAX) by {
        assert(old(buf)@.len() == old(buf).len());
    }
    match old(reader)@.leftover {
        Some(left) => {
            let n = taken(left, old(buf)@.len()).len() as int;
            let tail = old(buf)@.skip(n);
            assert forall|i: int| n <= i < old(buf)@.len() implies #[trigger] final(buf)@[i]
                == old(buf)@[i] by {
                assert(tail[i - n] == old(buf)@[i]);
            }
        },
        None => {
            assert(Seq::<u8>::empty() + old(buf)@.skip(0) =~= old(buf)@);
        },
    }
}

/// Waiting for a chunk ends when something comes: a chunk is held, whole, and the read goes on;
/// chunks that were missed are passed over, and the read goes on; the end of the stream ends the
/// read with nothing; and while nothing comes, nothing changes.
pub proof fn law_waiting_ends_when_something_comes(
    reader: &mut BroadcastAsyncRead,
    event: RecvEvent,
    r: ReadStep,
)
    requires
        old(reader)@.state == RecvState::Pending,
        call_ensures(BroadcastAsyncRead::on_recv, (reader, event), r),
    ensures
        match event {
            RecvEvent::Pending => r is Suspend && final(reader)@ == old(reader)@,
            RecvEvent::Received(bytes) => {
                &&& r is Continue
                &&& final(reader)@.state == RecvState::Idle
                &&& final(reader)@.leftover == Some(bytes_content(bytes))
            },
            RecvEvent::Lagged(_) => {
                &&& r is Continue
                &&& final(reader)@.state == RecvState::Idle
                &&& final(reader)@.leftover == old(reader)@.leftover
            },
            RecvEvent::Closed => {
                &&& r == ReadStep::Ready(0)
                &&& final(reader)@.state == RecvState::Eof
                &&& final(reader)@.leftover == old(reader)@.leftover
            },
        },
{
}

/// A write on an open handle succeeds if and only if all its bytes were queued, in one piece, and
/// then counts all of them; one that fails has queued nothing. A closed handle takes nothing, and
/// stays closed.
pub proof fn law_writes_are_whole(
    handle: &mut MpscAsyncWrite,
    buf: &[u8],
    r: Result<usize, WriteError>,
)
    requires
        call_ensures(MpscAsyncWrite::write, (handle, buf), r),
    ensures
        final(handle)@ is Some <==> old(handle)@ is Some,
        old(handle)@ is None ==> r == Err::<usize, WriteError>(WriteError::HandleClosed),
        old(handle)@ matches Some(before) ==> {
            let after = final(handle)@->Some_0;
            &&& after.offered == before.offered.push(buf@)
            &&& r matches Ok(n) ==> n == buf@.len() && after.queued == before.queued.push(buf@)
            &&& r matches Err(err) ==> err is PumpGone && after.queued == before.queued
        },
{
}

/// A handle is open until it is closed, and flushing it does nothing.
pub proof fn law_handles_are_open_until_closed(
    tx: mpsc::UnboundedSender<Bytes>,
    fresh: MpscAsyncWrite,
    a: &mut MpscAsyncWrite,
    b: &mut MpscAsyncWrite,
    flushed: Result<(), WriteError>,
    closed: Result<(), WriteError>,
)
    requires
        call_ensures(MpscAsyncWrite::new, (tx,), fresh),
        call_ensures(MpscAsyncWrite::flush, (a,), flushed),
        call_ensures(MpscAsyncWrite::close, (b,), closed),
    ensures
        fresh@ matches Some(model) && model.offered == offered_to(tx) && model.queued == queued_by(
            tx,
        ),
        flushed is Ok,
        final(a)@ == old(a)@,
        closed is Ok,
        final(b)@ is None,
{
}

/// What became of bytes that were handed on is what a write comes to: all of them, or that nobody
/// takes any.
pub proof fn law_write_results_follow_the_queue(
    handed_on: Result<(), Bytes>,
    len: usize,
    r: Result<usize, WriteError>,
    err: WriteError,
    message: &'static str,
)
    requires
        call_ensures(write_result, (handed_on, len), r),
        call_ensures(WriteError::message, (&err,), message),
    ensures
        handed_on is Ok ==> r == Ok::<usize, WriteError>(len),
        handed_on is Err ==> r == Err::<usize, WriteError>(WriteError::PumpGone),
        err is HandleClosed ==> message@ == "this stdin handle was already closed"@,
        err is PumpGone ==> message@ == "stdin pump thread is gone"@,
{
}

/// Input is passed on as it comes, every chunk whole, until there is no more of it or the process
/// takes none.
pub proof fn law_input_is_passed_on(event: PumpEvent, r: PumpStep)
    requires
        call_ensures(stdin_pump_step, (event,), r),
    ensures
        event matches PumpEvent::Received(bytes) ==> r == PumpStep::Write(bytes),
        event is Written ==> r is Receive,
        r is Stop <==> event is SendersGone || event is WriteFailed,
{
}

} // verus!
