//! Network path: device discovery, one-shot initialization with each
//! error, statistics counters, and the echo round trip.

use kernel_core::errors::KernelError;
use kernel_core::network;
use kernel_core::network::NetStats;
use kernel_core::network::Network;
use kernel_core::network::SocketAction;
use kernel_core::network::SocketEvent;

fn bring_up(net: &mut Network) {
    let ids = vec![0u32, 2, 1, 0];
    let r = net.init(&ids, true, true, true, true);
    assert!(r.is_ok());
    assert!(net.is_ready());
}

#[test]
fn find_net_device_picks_first_matching_slot() {
    let ids = vec![0u32, 2, 1, 1];
    assert_eq!(network::find_net_device(&ids), Some(2));
    let none = vec![0u32, 2, 3, 0];
    assert_eq!(network::find_net_device(&none), None);
    let empty: Vec<u32> = Vec::new();
    assert_eq!(network::find_net_device(&empty), None);
}

#[test]
fn init_without_device_reports_device_not_found() {
    // the virtio-net slot is absent: init refuses, the stack stays
    // down, and the kernel can keep running without it
    let mut net = Network::new();
    let ids = vec![0u32, 2, 3, 0, 0, 0, 0, 0];
    let r = net.init(&ids, true, true, true, true);
    assert_eq!(r, Err(KernelError::DeviceNotFound));
    assert!(!net.is_ready());
}

#[test]
fn init_version_mismatch_reports_device_init_failed() {
    let mut net = Network::new();
    let ids = vec![1u32];
    assert_eq!(
        net.init(&ids, false, true, true, true),
        Err(KernelError::DeviceInitFailed)
    );
    assert!(!net.is_ready());
}

#[test]
fn init_queue_setup_failure_reports_device_init_failed() {
    let mut net = Network::new();
    let ids = vec![1u32];
    assert_eq!(
        net.init(&ids, true, false, true, true),
        Err(KernelError::DeviceInitFailed)
    );
    assert!(!net.is_ready());
}

#[test]
fn init_listen_refusal_reports_listen_failed() {
    let mut net = Network::new();
    let ids = vec![1u32];
    assert_eq!(
        net.init(&ids, true, true, false, true),
        Err(KernelError::ListenFailed)
    );
    assert!(!net.is_ready());
}

#[test]
fn second_init_reports_already_initialized() {
    let mut net = Network::new();
    bring_up(&mut net);
    let ids = vec![1u32];
    assert_eq!(
        net.init(&ids, true, true, true, true),
        Err(KernelError::AlreadyInitialized)
    );
    assert!(net.is_ready());
}

#[test]
fn echo_round_trip() {
    // open a connection, send "hello\n": the reply is
    // "echo: hello\n", one connection is counted, six bytes in,
    // twelve bytes out
    let mut net = Network::new();
    bring_up(&mut net);
    let act = net.poll_socket(SocketEvent::Connected);
    assert!(matches!(act, SocketAction::SendBanner));
    let act = net.poll_socket(SocketEvent::Received(b"hello\n".to_vec()));
    match act {
        SocketAction::Reply(reply) => assert_eq!(reply, b"echo: hello\n".to_vec()),
        _ => panic!("expected an echoed reply"),
    }
    let (connections, bytes_rx, bytes_tx) = net.stats.get_stats();
    assert_eq!(connections, 1);
    assert_eq!(bytes_rx, 6);
    assert_eq!(bytes_tx, 12);
}

#[test]
fn quit_command_gets_farewell_and_close() {
    let mut net = Network::new();
    bring_up(&mut net);
    net.poll_socket(SocketEvent::Connected);
    let act = net.poll_socket(SocketEvent::Received(b"quit\r\n".to_vec()));
    match act {
        SocketAction::ReplyAndClose(reply) => assert_eq!(reply, b"Goodbye!\n".to_vec()),
        _ => panic!("expected the farewell"),
    }
    let act = net.poll_socket(SocketEvent::Closed);
    assert!(matches!(act, SocketAction::Relisten));
}

#[test]
fn quit_detection_is_exact() {
    assert!(network::is_quit_command(&b"quit".to_vec()));
    assert!(network::is_quit_command(&b"quit\n".to_vec()));
    assert!(network::is_quit_command(&b"exit\r\n".to_vec()));
    assert!(!network::is_quit_command(&b"quits\n".to_vec()));
    assert!(!network::is_quit_command(&b"hello\n".to_vec()));
    assert!(!network::is_quit_command(&b"".to_vec()));
    // line endings alone strip away to an empty command
    assert!(!network::is_quit_command(&b"\r\n".to_vec()));
    // every trailing line-ending byte is stripped, in any mixture
    assert!(network::is_quit_command(&b"quit\n\r\n".to_vec()));
    // a line ending in the middle is part of the payload
    assert!(!network::is_quit_command(&b"qu\nit".to_vec()));
}

#[test]
fn idle_poll_touches_nothing() {
    let mut net = Network::new();
    bring_up(&mut net);
    let act = net.poll_socket(SocketEvent::Quiet);
    assert!(matches!(act, SocketAction::NoAction));
    assert_eq!(net.stats.get_stats(), (0, 0, 0));
}

#[test]
fn stats_count_each_unit_once() {
    let mut stats = NetStats::new();
    stats.increment_connections();
    stats.add_bytes_rx(6);
    stats.add_bytes_tx(12);
    stats.add_bytes_rx(1);
    assert_eq!(stats.get_stats(), (1, 7, 12));
}

#[test]
fn echo_reply_prefixes_without_changing_payload() {
    let reply = network::make_echo_reply(&b"abc".to_vec());
    assert_eq!(reply, b"echo: abc".to_vec());
    let empty = network::make_echo_reply(&Vec::new());
    assert_eq!(empty, b"echo: ".to_vec());
}

#[test]
fn mmio_slot_addresses() {
    assert_eq!(network::slot_base(0), 0x0A00_0000);
    assert_eq!(network::slot_base(7), 0x0A00_0000 + 7 * 0x200);
}
