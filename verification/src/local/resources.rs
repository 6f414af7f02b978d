//! The one limit that the local backend enforces: the memory of the process, by its address
//! space.
use vstd::prelude::*;

verus! {

/// The bytes of address space that a limit of `memory_mb` mebibytes of memory stands for.
///
/// This bounds what the process reserves, which can exceed what it uses, so a process can meet
/// the limit before it has used that much memory. The other limits of a sandbox have no
/// counterpart among the limits of a process and are not enforced.
pub fn address_space_limit(memory_mb: u32) -> (r: u64)
    ensures
        r == memory_mb * 1_048_576,
{
    memory_mb as u64 * 1_048_576
}

/// The limit on the address space is the memory of the spec in bytes, exactly: a megabyte is as
/// many bytes as a kilobyte of kilobytes.
pub proof fn law_memory_limits_are_exact(memory_mb: u32, r: u64)
    requires
        call_ensures(address_space_limit, (memory_mb,), r),
    ensures
        r == memory_mb * (1024 * 1024),
{
}

} // verus!
