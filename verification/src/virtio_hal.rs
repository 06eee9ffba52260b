//! Address arithmetic for the virtio transport's DMA layer.
//!
//! The kernel runs with memory identity-mapped (or the MMU off), so
//! translation between physical and virtual addresses is the identity
//! and sharing pages with the device is a no-op. Buffer sizes and the
//! alignment the transport demands are computed and checked here; the
//! allocator call itself stays outside.

use vstd::prelude::*;

verus! {

/// Bytes per DMA page.
pub const PAGE_SIZE: u64 = 4096;

/// Bytes needed for a run of DMA pages.
pub fn dma_region_bytes(pages: u64) -> (bytes: u64)
    requires
        pages * PAGE_SIZE <= u64::MAX,
    ensures
        bytes == pages * PAGE_SIZE,
{
    pages * PAGE_SIZE
}

/// Whether an address is aligned to a DMA page.
pub fn is_page_aligned(addr: u64) -> (b: bool)
    ensures
        b <==> addr % PAGE_SIZE == 0,
{
    addr % PAGE_SIZE == 0
}

/// Physical to virtual translation: the identity, since memory is
/// identity-mapped on this platform.
pub fn phys_to_virt(pa: u64) -> (va: u64)
    ensures
        va == pa,
{
    pa
}

/// Virtual to physical translation: the identity as well.
pub fn virt_to_phys(va: u64) -> (pa: u64)
    ensures
        pa == va,
{
    va
}

} // verus!
