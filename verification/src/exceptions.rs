//! Exception-vector layout and routing.
//!
//! The sixteen-entry AArch64 vector table is four groups (current
//! exception level with SP0, current with SPx, lower level in 64-bit,
//! lower level in 32-bit) of four kinds each. The entries themselves
//! are assembly that saves and restores the register frame; which slot
//! an entry occupies and where each kind is routed are decided here.

use vstd::prelude::*;

verus! {

/// Bytes each vector entry may occupy.
pub const VECTOR_ENTRY_BYTES: u64 = 128;

/// Bytes of the whole vector table.
pub const VECTOR_TABLE_BYTES: u64 = 2048;

/// The four exception kinds of each group.
#[derive(Clone, Copy, Debug, PartialEq, Eq, Structural)]
pub enum ExceptionKind {
    /// Synchronous exception.
    Sync,
    /// Ordinary interrupt.
    Irq,
    /// Fast interrupt.
    Fiq,
    /// System error.
    SError,
}

/// Where an exception is routed.
#[derive(Clone, Copy, Debug, PartialEq, Eq, Structural)]
pub enum ExceptionRoute {
    /// Capture the syndrome register and panic; never returns.
    Fatal,
    /// Acknowledge the controller and run the dispatch table.
    DispatchIrq,
}

/// The position of an exception kind within its group.
pub open spec fn spec_kind_index(k: ExceptionKind) -> int {
    match k {
        ExceptionKind::Sync => 0,
        ExceptionKind::Irq => 1,
        ExceptionKind::Fiq => 2,
        ExceptionKind::SError => 3,
    }
}

/// Byte offset of one vector entry: group after group, each entry
/// 128 bytes, all sixteen inside the 2 KiB table.
pub fn vector_entry_offset(group: u64, kind: ExceptionKind) -> (off: u64)
    requires
        group < 4,
    ensures
        off == (group * 4 + spec_kind_index(kind)) * VECTOR_ENTRY_BYTES,
        off + VECTOR_ENTRY_BYTES <= VECTOR_TABLE_BYTES,
{
    let idx = match kind {
        ExceptionKind::Sync => 0u64,
        ExceptionKind::Irq => 1u64,
        ExceptionKind::Fiq => 2u64,
        ExceptionKind::SError => 3u64,
    };
    (group * 4 + idx) * VECTOR_ENTRY_BYTES
}

/// Only ordinary interrupts are dispatched; synchronous exceptions,
/// fast interrupts and system errors are fatal for the whole kernel.
pub fn route_exception(kind: ExceptionKind) -> (r: ExceptionRoute)
    ensures
        r is DispatchIrq <==> kind is Irq,
        r is Fatal <==> !(kind is Irq),
{
    match kind {
        ExceptionKind::Irq => ExceptionRoute::DispatchIrq,
        ExceptionKind::Sync => ExceptionRoute::Fatal,
        ExceptionKind::Fiq => ExceptionRoute::Fatal,
        ExceptionKind::SError => ExceptionRoute::Fatal,
    }
}

} // verus!
