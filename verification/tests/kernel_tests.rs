//! Boot layout, interrupt controller encodings, the dispatch table,
//! exception routing, the accept-loop bookkeeping, and the boot-time
//! self tests.

use kernel_core::boot;
use kernel_core::errors::KernelError;
use kernel_core::exceptions;
use kernel_core::exceptions::ExceptionKind;
use kernel_core::exceptions::ExceptionRoute;
use kernel_core::gic;
use kernel_core::gic::IrqClass;
use kernel_core::irq::IrqDispatch;
use kernel_core::irq::IrqTable;
use kernel_core::selftest;
use kernel_core::ssh_server::AcceptMode;
use kernel_core::ssh_server::SshServer;
use kernel_core::ssh_server::MAX_CONNECTIONS;
use kernel_core::virtio_hal;

#[test]
fn heap_takes_all_but_one_sixteenth_of_ram() {
    let r = boot::heap_layout(0x4000_0000, 128 * 1024 * 1024);
    assert_eq!(r, Ok((0x4000_0000 + 8 * 1024 * 1024, 120 * 1024 * 1024)));
}

#[test]
fn empty_ram_leaves_no_heap() {
    assert_eq!(
        boot::heap_layout(0x4000_0000, 0),
        Err(KernelError::OutOfMemory)
    );
}

#[test]
fn irq_classes_cover_the_identifier_space() {
    assert_eq!(gic::irq_class(0), IrqClass::Sgi);
    assert_eq!(gic::irq_class(15), IrqClass::Sgi);
    assert_eq!(gic::irq_class(16), IrqClass::Ppi);
    assert_eq!(gic::irq_class(30), IrqClass::Ppi);
    assert_eq!(gic::irq_class(32), IrqClass::Spi);
    assert_eq!(gic::irq_class(1019), IrqClass::Spi);
    assert_eq!(gic::irq_class(1020), IrqClass::Spurious);
    assert!(gic::is_spurious(1023));
    assert!(!gic::is_spurious(30));
}

#[test]
fn enable_register_for_the_timer_interrupt() {
    // interrupt 30 lives in the first set-enable register, bit 30
    let (addr, mask) = gic::enable_irq_register(30);
    assert_eq!(addr, 0x0800_0100);
    assert_eq!(mask, 1 << 30);
    let (addr, mask) = gic::enable_irq_register(32);
    assert_eq!(addr, 0x0800_0104);
    assert_eq!(mask, 1);
    let (addr, _) = gic::disable_irq_register(30);
    assert_eq!(addr, 0x0800_0180);
}

#[test]
fn sgi_register_encoding() {
    // scheduler interrupt to CPU zero: one-hot target in bits 16..24,
    // identifier in the low bits
    let v = gic::sgi_register_value(0, gic::SGI_SCHEDULER);
    assert_eq!(v, 0x0001_0001);
    let v = gic::sgi_register_value(3, 5);
    assert_eq!(v, (1 << 19) | 5);
}

#[test]
fn iar_decode_and_eoi_encode_are_inverse() {
    let (irq, cpu) = gic::decode_iar(0x0000_0C1E);
    assert_eq!(irq, 30);
    assert_eq!(cpu, 3);
    assert_eq!(gic::eoi_value(irq, cpu), 0x0000_0C1E);
    let (irq, cpu) = gic::decode_iar(30);
    assert_eq!((irq, cpu), (30, 0));
}

#[test]
fn dispatch_table_routes_registered_handlers() {
    let mut table = IrqTable::new();
    assert_eq!(table.dispatch(30), IrqDispatch::Unhandled);
    table.register_handler(30, 7);
    assert_eq!(table.dispatch(30), IrqDispatch::Invoke(7));
    // spurious identifiers are discarded before the table is consulted
    assert_eq!(table.dispatch(1020), IrqDispatch::Spurious);
    table.unregister_handler(30);
    assert_eq!(table.dispatch(30), IrqDispatch::Unhandled);
}

#[test]
fn only_ordinary_interrupts_are_dispatched() {
    assert_eq!(
        exceptions::route_exception(ExceptionKind::Irq),
        ExceptionRoute::DispatchIrq
    );
    assert_eq!(
        exceptions::route_exception(ExceptionKind::Sync),
        ExceptionRoute::Fatal
    );
    assert_eq!(
        exceptions::route_exception(ExceptionKind::Fiq),
        ExceptionRoute::Fatal
    );
    assert_eq!(
        exceptions::route_exception(ExceptionKind::SError),
        ExceptionRoute::Fatal
    );
}

#[test]
fn vector_entries_fill_the_table() {
    assert_eq!(exceptions::vector_entry_offset(0, ExceptionKind::Sync), 0);
    assert_eq!(exceptions::vector_entry_offset(1, ExceptionKind::Irq), 640);
    assert_eq!(
        exceptions::vector_entry_offset(3, ExceptionKind::SError),
        15 * 128
    );
}

#[test]
fn accept_loop_modes() {
    let mut server = SshServer::new();
    assert_eq!(server.accept_mode(), AcceptMode::CreateSocket);
    server.on_listener_created();
    assert_eq!(server.accept_mode(), AcceptMode::BlockingAccept);
    let id = server.on_accept_success();
    assert_eq!(id, 0);
    // the accepted socket consumed the listener
    assert_eq!(server.accept_mode(), AcceptMode::CreateSocket);
    server.on_listener_created();
    assert_eq!(server.accept_mode(), AcceptMode::TimedAccept);
}

#[test]
fn accept_failure_recreates_the_listener() {
    let mut server = SshServer::new();
    server.on_listener_created();
    server.on_accept_failure();
    assert_eq!(server.accept_mode(), AcceptMode::CreateSocket);
}

#[test]
fn sessions_get_consecutive_identifiers_and_capacity_is_enforced() {
    let mut server = SshServer::new();
    for expected in 0..MAX_CONNECTIONS as u64 {
        server.on_listener_created();
        let id = server.on_accept_success();
        assert_eq!(id, expected);
    }
    assert_eq!(server.active_count(), MAX_CONNECTIONS);
    assert_eq!(server.accept_mode(), AcceptMode::Sleep);
}

#[test]
fn finished_sessions_leave_the_polled_set() {
    let mut server = SshServer::new();
    for _ in 0..3 {
        server.on_listener_created();
        server.on_accept_success();
    }
    // dropping the first session swaps the last into its place
    let id = server.connection_finished(0);
    assert_eq!(id, 0);
    assert_eq!(server.active_count(), 2);
    assert_eq!(server.active_id_at(0), 2);
    assert_eq!(server.active_id_at(1), 1);
}

#[test]
fn boot_self_tests_pass() {
    assert!(selftest::run_all());
}

#[test]
fn error_messages_name_each_failure() {
    assert_eq!(KernelError::OutOfMemory.message(), "out of memory");
    assert_eq!(KernelError::DeviceNotFound.message(), "no network device found");
    assert_eq!(
        KernelError::DeviceInitFailed.message(),
        "network device init failed"
    );
    assert_eq!(
        KernelError::AlreadyInitialized.message(),
        "already initialized"
    );
    assert_eq!(KernelError::ListenFailed.message(), "listen failed");
}

#[test]
fn dma_addressing_is_identity_and_page_sized() {
    assert_eq!(virtio_hal::dma_region_bytes(2), 8192);
    assert!(virtio_hal::is_page_aligned(0x4000_0000));
    assert!(!virtio_hal::is_page_aligned(0x4000_0001));
    assert_eq!(virtio_hal::phys_to_virt(0x0A00_0000), 0x0A00_0000);
    assert_eq!(virtio_hal::virt_to_phys(0x4200_1000), 0x4200_1000);
}
