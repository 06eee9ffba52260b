//! The polled network path: device discovery, one-shot stack
//! initialization, connection statistics, and the echo protocol served
//! on the telnet port.
//!
//! The virtio transport and the TCP/IP stack do the wire work; every
//! decision around them — which MMIO slot holds the network device,
//! whether initialization may proceed, what a socket event does to the
//! counters and what goes back out — is verified here on plain values.

use vstd::prelude::*;

use crate::errors::KernelError;

verus! {

/// Static IPv4 address of the interface, as four packed octets
/// (10.0.2.15).
pub const IP_ADDR: u32 = 0x0A00020F;

/// Prefix length of the interface address.
pub const IP_PREFIX_LEN: u8 = 24;

/// Default gateway, as four packed octets (10.0.2.2).
pub const GATEWAY_ADDR: u32 = 0x0A000202;

/// Port of the echo listener.
pub const TELNET_PORT: u16 = 23;

/// Port of the secure-shell listener.
pub const SSH_PORT: u16 = 22;

/// Most bytes read from a socket in one poll step.
pub const ECHO_READ_CHUNK: usize = 512;

/// First candidate MMIO transport base address.
pub const VIRTIO_MMIO_BASE: u64 = 0x0A00_0000;

/// Spacing of the candidate MMIO transports.
pub const VIRTIO_MMIO_STRIDE: u64 = 0x200;

/// Number of candidate MMIO slots probed at initialization.
pub const VIRTIO_MMIO_SLOTS: usize = 8;

/// Device identifier a virtio network device reports.
pub const VIRTIO_NET_DEVICE_ID: u32 = 1;

/// Base address of one candidate MMIO slot.
pub fn slot_base(i: usize) -> (a: u64)
    requires
        i < VIRTIO_MMIO_SLOTS,
    ensures
        a == VIRTIO_MMIO_BASE + i * VIRTIO_MMIO_STRIDE,
{
    VIRTIO_MMIO_BASE + (i as u64) * VIRTIO_MMIO_STRIDE
}

/// Whether any probed slot reported the network device identifier.
pub open spec fn spec_has_net_device(ids: Seq<u32>) -> bool {
    exists|j: int| 0 <= j < ids.len() && ids[j] == VIRTIO_NET_DEVICE_ID
}

/// Find the first probed slot whose device-identifier register read
/// back as a network device; every slot before it reported something
/// else.
pub fn find_net_device(device_ids: &Vec<u32>) -> (r: Option<usize>)
    ensures
        r is Some <==> spec_has_net_device(device_ids@),
        r is Some ==> r->0 < device_ids@.len() && device_ids@[r->0 as int]
            == VIRTIO_NET_DEVICE_ID && forall|j: int|
            0 <= j < r->0 ==> device_ids@[j] != VIRTIO_NET_DEVICE_ID,
{
    let n = device_ids.len();
    let mut i: usize = 0;
    while i < n
        invariant
            n == device_ids@.len(),
            i <= n,
            forall|j: int| 0 <= j < i ==> device_ids@[j] != VIRTIO_NET_DEVICE_ID,
        decreases n - i,
    {
        if device_ids[i] == VIRTIO_NET_DEVICE_ID {
            return Option::Some(i);
        }
        i += 1;
    }
    Option::None
}

/// Traffic counters for the network path, guarded in the kernel by a
/// spinlock.
#[derive(Clone, Copy, Debug, PartialEq, Eq, Structural)]
pub struct NetStats {
    /// Bytes read from sockets.
    pub bytes_rx: u64,
    /// Bytes written to sockets.
    pub bytes_tx: u64,
    /// Connections accepted.
    pub connections: u64,
}

impl NetStats {
    /// All counters start at zero.
    pub fn new() -> (s: NetStats)
        ensures
            s.bytes_rx == 0,
            s.bytes_tx == 0,
            s.connections == 0,
    {
        NetStats { bytes_rx: 0, bytes_tx: 0, connections: 0 }
    }

    /// Count one accepted connection.
    pub fn increment_connections(&mut self)
        requires
            old(self).connections < u64::MAX,
        ensures
            final(self).connections == old(self).connections + 1,
            final(self).bytes_rx == old(self).bytes_rx,
            final(self).bytes_tx == old(self).bytes_tx,
    {
        self.connections = self.connections + 1;
    }

    /// Count bytes read from a socket.
    pub fn add_bytes_rx(&mut self, bytes: u64)
        requires
            old(self).bytes_rx + bytes <= u64::MAX,
        ensures
            final(self).bytes_rx == old(self).bytes_rx + bytes,
            final(self).bytes_tx == old(self).bytes_tx,
            final(self).connections == old(self).connections,
    {
        self.bytes_rx = self.bytes_rx + bytes;
    }

    /// Count bytes written to a socket.
    pub fn add_bytes_tx(&mut self, bytes: u64)
        requires
            old(self).bytes_tx + bytes <= u64::MAX,
        ensures
            final(self).bytes_tx == old(self).bytes_tx + bytes,
            final(self).bytes_rx == old(self).bytes_rx,
            final(self).connections == old(self).connections,
    {
        self.bytes_tx = self.bytes_tx + bytes;
    }

    /// The counters as (connections, bytes received, bytes sent).
    pub fn get_stats(&self) -> (r: (u64, u64, u64))
        ensures
            r.0 == self.connections,
            r.1 == self.bytes_rx,
            r.2 == self.bytes_tx,
    {
        (self.connections, self.bytes_rx, self.bytes_tx)
    }
}

/// The bytes of the `quit` command.
pub open spec fn quit_bytes() -> Seq<u8> {
    seq![113u8, 117u8, 105u8, 116u8]
}

/// The bytes of the `exit` command.
pub open spec fn exit_bytes() -> Seq<u8> {
    seq![101u8, 120u8, 105u8, 116u8]
}

/// The `echo: ` prefix put before echoed bytes.
pub open spec fn echo_prefix_bytes() -> Seq<u8> {
    seq![101u8, 99u8, 104u8, 111u8, 58u8, 32u8]
}

/// The farewell line sent before closing on `quit` or `exit`
/// (`Goodbye!` and a newline).
pub open spec fn farewell_bytes() -> Seq<u8> {
    seq![71u8, 111u8, 111u8, 100u8, 98u8, 121u8, 101u8, 33u8, 10u8]
}

/// A line with its trailing carriage returns and newlines removed.
pub open spec fn strip_line_ending(s: Seq<u8>) -> Seq<u8>
    decreases s.len(),
{
    if s.len() > 0 && (s[s.len() - 1] == 10 || s[s.len() - 1] == 13) {
        strip_line_ending(s.drop_last())
    } else {
        s
    }
}

/// Whether a received line is one of the two close commands.
pub open spec fn spec_is_quit_command(s: Seq<u8>) -> bool {
    strip_line_ending(s) == quit_bytes() || strip_line_ending(s) == exit_bytes()
}

/// Stripping trailing line endings is the same as cutting at the last
/// position that holds neither a carriage return nor a newline.
proof fn lemma_strip_is_take(s: Seq<u8>, end: int)
    requires
        0 <= end <= s.len(),
        forall|k: int| end <= k < s.len() ==> s[k] == 10 || s[k] == 13,
        end > 0 ==> !(s[end - 1] == 10 || s[end - 1] == 13),
    ensures
        strip_line_ending(s) == s.take(end),
    decreases s.len(),
{
    if s.len() == end {
        assert(s.take(end) =~= s);
    } else {
        assert(s[s.len() - 1] == 10 || s[s.len() - 1] == 13);
        lemma_strip_is_take(s.drop_last(), end);
        assert(s.drop_last().take(end) =~= s.take(end));
    }
}

/// Decide whether a received line asks to close the session.
pub fn is_quit_command(data: &Vec<u8>) -> (b: bool)
    ensures
        b == spec_is_quit_command(data@),
{
    let n = data.len();
    let mut end = n;
    while end > 0 && (data[end - 1] == 13 || data[end - 1] == 10)
        invariant
            end <= n,
            n == data@.len(),
            forall|k: int| end <= k < n ==> data@[k] == 10 || data@[k] == 13,
        decreases end,
    {
        end = end - 1;
    }
    proof {
        lemma_strip_is_take(data@, end as int);
    }
    if end != 4 {
        proof {
            assert(strip_line_ending(data@).len() == end);
        }
        return false;
    }
    let quit = data[0] == 113 && data[1] == 117 && data[2] == 105 && data[3] == 116;
    let exit_cmd = data[0] == 101 && data[1] == 120 && data[2] == 105 && data[3] == 116;
    proof {
        if quit {
            assert(data@.take(4) =~= quit_bytes());
        }
        if exit_cmd {
            assert(data@.take(4) =~= exit_bytes());
        }
        if !quit && strip_line_ending(data@) == quit_bytes() {
            assert(data@.take(4)[0] == 113 && data@.take(4)[1] == 117 && data@.take(4)[2] == 105
                && data@.take(4)[3] == 116);
        }
        if !exit_cmd && strip_line_ending(data@) == exit_bytes() {
            assert(data@.take(4)[0] == 101 && data@.take(4)[1] == 120 && data@.take(4)[2] == 105
                && data@.take(4)[3] == 116);
        }
    }
    quit || exit_cmd
}

/// Build the echoed reply: the `echo: ` prefix followed by the
/// received bytes, unchanged.
pub fn make_echo_reply(data: &Vec<u8>) -> (r: Vec<u8>)
    requires
        data@.len() + 6 <= usize::MAX,
    ensures
        r@ == echo_prefix_bytes() + data@,
        r@.len() == data@.len() + 6,
{
    let mut r: Vec<u8> = Vec::new();
    r.push(101);
    r.push(99);
    r.push(104);
    r.push(111);
    r.push(58);
    r.push(32);
    r.extend_from_slice(data.as_slice());
    proof {
        assert(r@ =~= echo_prefix_bytes() + data@);
    }
    r
}

/// Build the farewell line sent before closing.
pub fn make_farewell() -> (r: Vec<u8>)
    ensures
        r@ == farewell_bytes(),
{
    let mut r: Vec<u8> = Vec::new();
    r.push(71);
    r.push(111);
    r.push(111);
    r.push(100);
    r.push(98);
    r.push(121);
    r.push(101);
    r.push(33);
    r.push(10);
    proof {
        assert(r@ =~= farewell_bytes());
    }
    r
}

/// What one poll step observed on a listening or established socket.
pub enum SocketEvent {
    /// The listener completed a handshake: Listen became Established.
    Connected,
    /// Bytes were available and read, at most `ECHO_READ_CHUNK`.
    Received(Vec<u8>),
    /// The peer closed the connection.
    Closed,
    /// Nothing happened.
    Quiet,
}

/// What the poll loop must do to the socket in response.
pub enum SocketAction {
    /// Write the greeting banner; its bytes are not counted.
    SendBanner,
    /// Write these bytes back to the peer.
    Reply(Vec<u8>),
    /// Write these bytes, then close the connection.
    ReplyAndClose(Vec<u8>),
    /// Listen again on the same port.
    Relisten,
    /// Nothing to do.
    NoAction,
}

/// The network singleton: whether the one-shot initialization has
/// published the stack, and the traffic counters.
pub struct Network {
    /// Set once `init` has succeeded; polling requires it.
    pub ready: bool,
    /// Traffic counters.
    pub stats: NetStats,
}

impl Network {
    /// The state before initialization: not ready, nothing counted.
    pub fn new() -> (n: Network)
        ensures
            !n.ready,
            n.stats.connections == 0,
            n.stats.bytes_rx == 0,
            n.stats.bytes_tx == 0,
    {
        Network { ready: false, stats: NetStats::new() }
    }

    /// Whether the stack is up and the poll thread may work.
    pub fn is_ready(&self) -> (b: bool)
        ensures
            b == self.ready,
    {
        self.ready
    }

    /// One-shot initialization.
    ///
    /// `device_ids` holds the device-identifier register of each
    /// probed MMIO slot; `version_ok` and `setup_ok` report the
    /// transport version check and the feature/virt-queue negotiation;
    /// the two listen flags report whether the TCP/IP stack accepted
    /// the listeners. The error states exactly which step refused, in
    /// probe order; on success the stack is marked ready.
    pub fn init(
        &mut self,
        device_ids: &Vec<u32>,
        version_ok: bool,
        setup_ok: bool,
        listen_telnet_ok: bool,
        listen_ssh_ok: bool,
    ) -> (r: Result<(), KernelError>)
        ensures
            final(self).stats == old(self).stats,
            old(self).ready ==> r == Err::<(), KernelError>(KernelError::AlreadyInitialized)
                && final(self).ready,
            !old(self).ready && !spec_has_net_device(device_ids@) ==> r == Err::<(),
                KernelError,
            >(KernelError::DeviceNotFound) && !final(self).ready,
            !old(self).ready && spec_has_net_device(device_ids@) && !version_ok ==> r == Err::<
                (),
                KernelError,
            >(KernelError::DeviceInitFailed) && !final(self).ready,
            !old(self).ready && spec_has_net_device(device_ids@) && version_ok && !setup_ok ==> r
                == Err::<(), KernelError>(KernelError::DeviceInitFailed) && !final(self).ready,
            !old(self).ready && spec_has_net_device(device_ids@) && version_ok && setup_ok && !(
            listen_telnet_ok && listen_ssh_ok) ==> r == Err::<(), KernelError>(
                KernelError::ListenFailed,
            ) && !final(self).ready,
            !old(self).ready && spec_has_net_device(device_ids@) && version_ok && setup_ok
                && listen_telnet_ok && listen_ssh_ok ==> r == Ok::<(), KernelError>(())
                && final(self).ready,
    {
        if self.ready {
            return Err(KernelError::AlreadyInitialized);
        }
        match find_net_device(device_ids) {
            Option::None => Err(KernelError::DeviceNotFound),
            Option::Some(_) => {
                if !version_ok {
                    Err(KernelError::DeviceInitFailed)
                } else if !setup_ok {
                    Err(KernelError::DeviceInitFailed)
                } else if !(listen_telnet_ok && listen_ssh_ok) {
                    Err(KernelError::ListenFailed)
                } else {
                    self.ready = true;
                    Ok(())
                }
            },
        }
    }

    /// React to one socket event observed by the poll thread.
    ///
    /// A completed handshake counts one connection and sends the
    /// banner. Received bytes are counted; a `quit` or `exit` line is
    /// answered with the farewell and a close, anything else is echoed
    /// back behind the `echo: ` prefix, and what is written is counted
    /// too. A closed socket is re-armed to listen on its port.
    pub fn poll_socket(&mut self, event: SocketEvent) -> (act: SocketAction)
        requires
            old(self).ready,
            event is Connected ==> old(self).stats.connections < u64::MAX,
            event matches SocketEvent::Received(data) ==> {
                &&& data@.len() + 6 <= usize::MAX
                &&& old(self).stats.bytes_rx + data@.len() <= u64::MAX
                &&& (spec_is_quit_command(data@) ==> old(self).stats.bytes_tx
                    + farewell_bytes().len() <= u64::MAX)
                &&& (!spec_is_quit_command(data@) ==> old(self).stats.bytes_tx + data@.len() + 6
                    <= u64::MAX)
            },
        ensures
            final(self).ready,
            event is Connected ==> final(self).stats == (NetStats {
                connections: (old(self).stats.connections + 1) as u64,
                ..old(self).stats
            }) && act is SendBanner,
            event matches SocketEvent::Received(data) ==> {
                &&& final(self).stats.connections == old(self).stats.connections
                &&& final(self).stats.bytes_rx == old(self).stats.bytes_rx + data@.len()
                &&& (spec_is_quit_command(data@) ==> {
                    &&& final(self).stats.bytes_tx == old(self).stats.bytes_tx
                        + farewell_bytes().len()
                    &&& act matches SocketAction::ReplyAndClose(v) && v@ == farewell_bytes()
                })
                &&& (!spec_is_quit_command(data@) ==> {
                    &&& final(self).stats.bytes_tx == old(self).stats.bytes_tx + data@.len() + 6
                    &&& act matches SocketAction::Reply(v) && v@ == echo_prefix_bytes() + data@
                })
            },
            event is Closed ==> final(self).stats == old(self).stats && act is Relisten,
            event is Quiet ==> final(self).stats == old(self).stats && act is NoAction,
    {
        match event {
            SocketEvent::Connected => {
                self.stats.increment_connections();
                SocketAction::SendBanner
            },
            SocketEvent::Received(data) => {
                self.stats.add_bytes_rx(data.len() as u64);
                if is_quit_command(&data) {
                    let farewell = make_farewell();
                    self.stats.add_bytes_tx(farewell.len() as u64);
                    SocketAction::ReplyAndClose(farewell)
                } else {
                    let reply = make_echo_reply(&data);
                    self.stats.add_bytes_tx(reply.len() as u64);
                    SocketAction::Reply(reply)
                }
            },
            SocketEvent::Closed => SocketAction::Relisten,
            SocketEvent::Quiet => SocketAction::NoAction,
        }
    }
}

} // verus!
