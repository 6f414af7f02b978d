//! The handle on a sandbox that its owner holds: what it keeps count of, on top of whatever
//! backend the sandbox lives in.
use vstd::prelude::*;

use crate::lifecycle::SandboxError;
use crate::types::SandboxId;

verus! {

/// What a handle keeps count of.
pub struct HandleModel {
    pub id: Seq<char>,
    pub generation: nat,
    pub io_taken: bool,
}

impl HandleModel {
    /// A handle on a sandbox that was just created.
    pub open spec fn fresh(id: Seq<char>) -> HandleModel {
        HandleModel { id, generation: 0, io_taken: false }
    }

    /// The handle after its input and output were asked for, where `opened` tells whether the
    /// backend opened them.
    pub open spec fn io_asked(self, opened: bool) -> HandleModel {
        HandleModel { io_taken: self.io_taken || opened, ..self }
    }

    /// Whether input and output are given out when asked for.
    pub open spec fn gives_io(self, opened: bool) -> bool {
        !self.io_taken && opened
    }

    /// The handle after a resume that succeeded or not: after one that did, everything opened
    /// before is dead, and input and output can be taken again.
    pub open spec fn resumed(self, succeeded: bool) -> HandleModel {
        if succeeded {
            HandleModel { generation: self.generation + 1, io_taken: false, ..self }
        } else {
            self
        }
    }
}

/// The input and output of a sandbox, and the generation that they are of.
pub struct SandboxIo<Streams> {
    pub generation: u64,
    pub streams: Streams,
}

/// The handle on a sandbox. Whoever destroys the sandbox gives it up.
#[derive(Debug)]
pub struct SandboxHandle {
    id: SandboxId,
    generation: u64,
    io_taken: bool,
}

impl View for SandboxHandle {
    type V = HandleModel;

    closed spec fn view(&self) -> HandleModel {
        HandleModel {
            id: self.id@,
            generation: self.generation as nat,
            io_taken: self.io_taken,
        }
    }
}

impl SandboxHandle {
    /// The handle on the sandbox that a backend created, or the error that it failed with.
    pub fn create(created: Result<SandboxId, SandboxError>) -> (r: Result<Self, SandboxError>)
        ensures
            match created {
                Ok(id) => r matches Ok(handle) && handle@ == HandleModel::fresh(id@),
                Err(err) => r == Err::<Self, SandboxError>(err),
            },
    {
        match created {
            Ok(id) => Ok(SandboxHandle { id, generation: 0, io_taken: false }),
            Err(err) => Err(err),
        }
    }

    /// The id of the sandbox.
    pub fn id(&self) -> (r: &SandboxId)
        ensures
            r@ == self@.id,
    {
        &self.id
    }

    /// The generation of the input and output that can be had now.
    pub fn io_generation(&self) -> (r: u64)
        ensures
            r == self@.generation,
    {
        self.generation
    }

    /// Whether the input and output of this generation were taken.
    pub fn io_taken(&self) -> (r: bool)
        ensures
            r == self@.io_taken,
    {
        self.io_taken
    }

    /// Takes the input and output that the backend opened, or failed to: once per generation, and
    /// `None` after that. What is given out is marked with the current generation. A failure to
    /// open them takes nothing, so that it can be tried again.
    pub fn take_io<Streams>(&mut self, opened: Result<Streams, SandboxError>) -> (r: Result<
        Option<SandboxIo<Streams>>,
        SandboxError,
    >)
        ensures
            final(self)@ == old(self)@.io_asked(opened is Ok),
            if old(self)@.io_taken {
                r == Ok::<Option<SandboxIo<Streams>>, SandboxError>(None)
            } else {
                match opened {
                    Ok(streams) => {
                        &&& r matches Ok(Some(io))
                        &&& io.generation == old(self)@.generation
                        &&& io.generation == final(self)@.generation
                        &&& io.streams == streams
                    },
                    Err(err) => r == Err::<Option<SandboxIo<Streams>>, SandboxError>(err),
                }
            },
    {
        if self.io_taken {
            return Ok(None);
        }
        match opened {
            Ok(streams) => {
                self.io_taken = true;
                Ok(Some(SandboxIo { generation: self.generation, streams }))
            },
            Err(err) => Err(err),
        }
    }

    /// Takes note of what resuming the sandbox came to: where it succeeded, a new generation of
    /// input and output begins.
    pub fn resume(&mut self, resumed: Result<(), SandboxError>) -> (r: Result<(), SandboxError>)
        requires
            resumed is Ok ==> old(self)@.generation < u64::MAX,
        ensures
            final(self)@ == old(self)@.resumed(resumed is Ok),
            r == resumed,
    {
        if resumed.is_ok() {
            self.generation = self.generation + 1;
            self.io_taken = false;
        }
        resumed
    }

    /// Whether input and output of this generation are still good.
    pub fn check_generation(&self, generation: u64) -> (r: Result<(), SandboxError>)
        ensures
            if generation == self@.generation {
                r is Ok
            } else {
                &&& r matches Err(SandboxError::StaleIoGeneration { stale, current })
                &&& stale == generation
                &&& current == self@.generation
            },
    {
        if generation == self.generation {
            Ok(())
        } else {
            Err(SandboxError::StaleIoGeneration { stale: generation, current: self.generation })
        }
    }
}

// ---------------------------------------------------------------------------
// Laws
// ---------------------------------------------------------------------------

/// Something that an owner does with a handle, and whether the backend went along.
pub enum HandleUse {
    TakeIo(bool),
    Resume(bool),
}

/// A handle after it was used so.
pub open spec fn used(handle: HandleModel, usage: HandleUse) -> HandleModel {
    match usage {
        HandleUse::TakeIo(opened) => handle.io_asked(opened),
        HandleUse::Resume(succeeded) => handle.resumed(succeeded),
    }
}

/// How often input and output are given out over these uses.
pub open spec fn times_given(handle: HandleModel, uses: Seq<HandleUse>) -> nat
    decreases uses.len(),
{
    if uses.len() == 0 {
        0
    } else {
        let now: nat = match uses[0] {
            HandleUse::TakeIo(opened) => if handle.gives_io(opened) {
                1
            } else {
                0
            },
            HandleUse::Resume(_) => 0,
        };
        now + times_given(used(handle, uses[0]), uses.drop_first())
    }
}

/// A handle after all these uses.
pub open spec fn used_up(handle: HandleModel, uses: Seq<HandleUse>) -> HandleModel
    decreases uses.len(),
{
    if uses.len() == 0 {
        handle
    } else {
        used_up(used(handle, uses[0]), uses.drop_first())
    }
}

/// Input and output are given out at most once per generation, over any uses of a handle: as
/// often as generations have begun since, and once more if they were not taken before.
pub proof fn law_io_is_given_once_per_generation(handle: HandleModel, uses: Seq<HandleUse>)
    ensures
        used_up(handle, uses).generation >= handle.generation,
        times_given(handle, uses) <= used_up(handle, uses).generation - handle.generation + (
        if handle.io_taken {
            0int
        } else {
            1
        }),
    decreases uses.len(),
{
    if uses.len() > 0 {
        law_io_is_given_once_per_generation(used(handle, uses[0]), uses.drop_first());
    }
}

/// Input and output are given out again after a resume: once taken they are not given out until
/// a resume succeeds, and then they are, once, in the next generation.
pub proof fn law_resuming_gives_io_again(handle: HandleModel, opened: bool)
    requires
        handle.io_taken,
    ensures
        !handle.gives_io(opened),
        handle.io_asked(opened) == handle,
        !handle.resumed(false).gives_io(opened),
        handle.resumed(true).generation == handle.generation + 1,
        handle.resumed(true).gives_io(true),
        handle.resumed(true).io_asked(true).generation == handle.generation + 1,
        !handle.resumed(true).io_asked(true).gives_io(opened),
{
}

/// A generation begins with every resume that succeeds, and in no other way; the sandbox that a
/// handle is on never changes.
pub proof fn law_only_resuming_begins_a_generation(
    handle: HandleModel,
    opened: bool,
    succeeded: bool,
)
    ensures
        handle.io_asked(opened).generation == handle.generation,
        handle.resumed(succeeded).generation == handle.generation + (if succeeded {
            1int
        } else {
            0
        }),
        handle.io_asked(opened).id == handle.id,
        handle.resumed(succeeded).id == handle.id,
{
}

/// What was opened before a resume is stale after it: no earlier generation is the current one
/// again.
pub proof fn law_stale_stays_stale(handle: HandleModel, generation: nat, uses: Seq<HandleUse>)
    requires
        generation < handle.generation,
    ensures
        generation < used_up(handle, uses).generation,
    decreases uses.len(),
{
    if uses.len() > 0 {
        law_stale_stays_stale(used(handle, uses[0]), generation, uses.drop_first());
    }
}

/// A handle is given out if and only if the sandbox was created: it is on that sandbox, at the
/// first generation, with nothing taken.
pub proof fn law_handles_begin_fresh(
    created: Result<SandboxId, SandboxError>,
    r: Result<SandboxHandle, SandboxError>,
)
    requires
        call_ensures(SandboxHandle::create, (created,), r),
    ensures
        match created {
            Ok(id) => r matches Ok(handle) && handle@.id == id@ && handle@.generation == 0
                && !handle@.io_taken,
            Err(err) => r == Err::<SandboxHandle, SandboxError>(err),
        },
{
}

/// A handle is read as it is.
pub proof fn law_handles_are_read_as_they_are(
    handle: SandboxHandle,
    id: &SandboxId,
    generation: u64,
    taken: bool,
)
    requires
        call_ensures(SandboxHandle::id, (&handle,), id),
        call_ensures(SandboxHandle::io_generation, (&handle,), generation),
        call_ensures(SandboxHandle::io_taken, (&handle,), taken),
    ensures
        id@ == handle@.id,
        generation == handle@.generation,
        taken == handle@.io_taken,
{
}

/// Input and output are given out if and only if they were not taken before in this generation and
/// could be opened; they are marked with the generation, and taken from then on. A failure to open
/// them is passed on and takes nothing.
pub proof fn law_taking_io_takes_it<Streams>(
    handle: &mut SandboxHandle,
    opened: Result<Streams, SandboxError>,
    r: Result<Option<SandboxIo<Streams>>, SandboxError>,
)
    requires
        call_ensures(SandboxHandle::take_io::<Streams>, (handle, opened), r),
    ensures
        r matches Ok(Some(_)) <==> !old(handle)@.io_taken && opened is Ok,
        r matches Ok(Some(io)) ==> Ok::<Streams, SandboxError>(io.streams) == opened && io.generation
            == old(handle)@.generation,
        r matches Ok(None) <==> old(handle)@.io_taken,
        r matches Err(err) ==> Err::<Streams, SandboxError>(err) == opened,
        final(handle)@.io_taken <==> old(handle)@.io_taken || opened is Ok,
        final(handle)@.generation == old(handle)@.generation,
        final(handle)@.id == old(handle)@.id,
{
}

/// A resume is answered as the backend answered it. One that succeeded begins the next generation,
/// in which nothing is taken, and makes stale exactly what was opened before; one that failed
/// changes nothing.
pub proof fn law_resuming_begins_the_next_generation(
    handle: &mut SandboxHandle,
    resumed: Result<(), SandboxError>,
    r: Result<(), SandboxError>,
    generation: u64,
    good: Result<(), SandboxError>,
)
    requires
        old(handle)@.generation < u64::MAX,
        call_ensures(SandboxHandle::resume, (handle, resumed), r),
        call_ensures(SandboxHandle::check_generation, (&*final(handle), generation), good),
    ensures
        r == resumed,
        resumed is Ok ==> final(handle)@.generation == old(handle)@.generation + 1
            && !final(handle)@.io_taken && final(handle)@.id == old(handle)@.id,
        resumed is Err ==> final(handle)@ == old(handle)@,
        good is Ok <==> generation == final(handle)@.generation,
        good matches Err(err) ==> err matches SandboxError::StaleIoGeneration { stale, current }
            && stale == generation && current == final(handle)@.generation,
{
}

} // verus!
