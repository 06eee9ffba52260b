//! Error kinds surfaced by the kernel core.

use vstd::prelude::*;

verus! {

/// The failures that initialization and spawning can report.
#[derive(Clone, Copy, Debug, PartialEq, Eq, Structural)]
pub enum KernelError {
    /// Allocator exhaustion during `spawn` or network buffer allocation.
    OutOfMemory,
    /// No virtio-net device was found on any scanned MMIO slot.
    DeviceNotFound,
    /// Feature negotiation or virt-queue setup failed.
    DeviceInitFailed,
    /// A one-shot initialization was called a second time.
    AlreadyInitialized,
    /// The TCP/IP stack refused to listen on a port.
    ListenFailed,
}

impl KernelError {
    /// A fixed console message for each error kind.
    pub fn message(&self) -> (r: &'static str)
        ensures
            self is OutOfMemory ==> r@ == "out of memory"@,
            self is DeviceNotFound ==> r@ == "no network device found"@,
            self is DeviceInitFailed ==> r@ == "network device init failed"@,
            self is AlreadyInitialized ==> r@ == "already initialized"@,
            self is ListenFailed ==> r@ == "listen failed"@,
    {
        match self {
            KernelError::OutOfMemory => "out of memory",
            KernelError::DeviceNotFound => "no network device found",
            KernelError::DeviceInitFailed => "network device init failed",
            KernelError::AlreadyInitialized => "already initialized",
            KernelError::ListenFailed => "listen failed",
        }
    }
}

} // verus!
