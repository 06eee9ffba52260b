//! Boot-time memory layout decisions.
//!
//! The entry routine reserves the first sixteenth of RAM for code and
//! stacks and hands the remainder to the heap allocator. The MMIO reads
//! and the allocator call stay outside the library; the split itself is
//! computed here.

use vstd::prelude::*;

use crate::errors::KernelError;

verus! {

/// Base of the single linear RAM region on the platform.
pub const RAM_BASE: u64 = 0x4000_0000;

/// Default RAM size used when no device tree is consulted.
pub const DEFAULT_RAM_SIZE: u64 = 0x800_0000;

/// Split RAM into a reserved region (code and stacks) and the heap.
///
/// The first sixteenth of RAM stays reserved; the heap begins right after
/// it and runs to the end of RAM. A RAM size that leaves no room for the
/// heap is reported as `OutOfMemory`.
pub fn heap_layout(ram_base: u64, ram_size: u64) -> (r: Result<(u64, u64), KernelError>)
    requires
        ram_base + ram_size <= u64::MAX,
    ensures
        ram_size > 0 ==> r == Ok::<(u64, u64), KernelError>(
            ((ram_base + ram_size / 16) as u64, (ram_size - ram_size / 16) as u64),
        ),
        ram_size == 0 ==> r == Err::<(u64, u64), KernelError>(KernelError::OutOfMemory),
{
    let reserved = ram_size / 16;
    if ram_size > reserved {
        Ok((ram_base + reserved, ram_size - reserved))
    } else {
        Err(KernelError::OutOfMemory)
    }
}

} // verus!
