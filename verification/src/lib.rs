//! Core logic of a small bare-metal kernel for an AArch64 virtual machine.
//!
//! The crate models and verifies the decision-making heart of the kernel:
//! the round-robin thread scheduler with mixed cooperative and preemptible
//! threads, the preemption policy driven by a timer-raised software-generated
//! interrupt, the interrupt dispatch table, the generic-interrupt-controller
//! register arithmetic, the monotonic and wall-clock time service with
//! ISO-8601 formatting, and the polled network path with its statistics and
//! echo protocol.
//!
//! Hardware access itself (MMIO loads and stores, the context-switch
//! assembly, the virtio transport) cannot be expressed in verified code; the
//! functions here take the values such reads produce as plain arguments and
//! return the values to be written, so that every decision the kernel makes
//! is covered by a contract.

pub mod boot;
pub mod calendar;
pub mod errors;
pub mod exceptions;
pub mod gic;
pub mod irq;
pub mod network;
pub mod selftest;
pub mod ssh_server;
pub mod threading;
pub mod timer;
pub mod virtio_hal;
