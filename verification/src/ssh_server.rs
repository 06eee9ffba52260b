//! The accept loop for concurrent secure-shell sessions.
//!
//! The loop itself lives with the TCP/IP stack: it awaits accepts,
//! polls session futures and sleeps. Every decision it takes — when to
//! create a listening socket, whether to block on accept or poll with
//! a timeout, what a finished or accepted connection does to the
//! bookkeeping — is a verified step on this state.

use vstd::prelude::*;

verus! {

/// Most sessions handled at once.
pub const MAX_CONNECTIONS: usize = 8;

/// Receive buffer handed to each listening socket.
pub const TCP_RX_BUFFER_SIZE: usize = 4096;

/// Transmit buffer handed to each listening socket.
pub const TCP_TX_BUFFER_SIZE: usize = 4096;

/// Accept poll timeout used while sessions are active, in
/// milliseconds.
pub const ACCEPT_TIMEOUT_MS: u64 = 10;

/// Idle timeout programmed into each socket, in seconds.
pub const SOCKET_TIMEOUT_SECS: u64 = 60;

/// Backoff sleep at full capacity, in milliseconds.
pub const BACKOFF_MS: u64 = 1;

/// How the loop should try to accept next.
#[derive(Clone, Copy, Debug, PartialEq, Eq, Structural)]
pub enum AcceptMode {
    /// At capacity: sleep for the backoff and accept nothing.
    Sleep,
    /// No listening socket exists: create one first.
    CreateSocket,
    /// No active session: block on accept.
    BlockingAccept,
    /// Sessions are active: poll accept with the short timeout so
    /// they keep being served.
    TimedAccept,
}

/// Bookkeeping of the accept loop: the identifiers of the sessions
/// being polled, the identifier the next accept will assign, and
/// whether a listening socket currently exists.
pub struct SshServer {
    active: Vec<u64>,
    next_id: u64,
    has_listen_socket: bool,
}

impl SshServer {
    /// Identifiers of the sessions being polled.
    pub closed spec fn active_ids(self) -> Seq<u64> {
        self.active@
    }

    /// The identifier the next accepted connection gets.
    pub closed spec fn next_id_spec(self) -> u64 {
        self.next_id
    }

    /// Whether a listening socket currently exists.
    pub closed spec fn has_listener(self) -> bool {
        self.has_listen_socket
    }

    /// A fresh server: no sessions, no listener, identifiers from
    /// zero.
    pub fn new() -> (s: SshServer)
        ensures
            s.active_ids().len() == 0,
            s.next_id_spec() == 0,
            !s.has_listener(),
    {
        SshServer { active: Vec::new(), next_id: 0, has_listen_socket: false }
    }

    /// Number of sessions currently being polled.
    pub fn active_count(&self) -> (n: usize)
        ensures
            n == self.active_ids().len(),
    {
        self.active.len()
    }

    /// The session identifier at one position, for the loop that polls
    /// them in order.
    pub fn active_id_at(&self, i: usize) -> (id: u64)
        requires
            i < self.active_ids().len(),
        ensures
            id == self.active_ids()[i as int],
    {
        self.active[i]
    }

    /// Decide how to accept next: sleep at capacity, otherwise make
    /// sure a listener exists, then block when idle and poll with a
    /// timeout while sessions are active.
    pub fn accept_mode(&self) -> (m: AcceptMode)
        ensures
            self.active_ids().len() >= MAX_CONNECTIONS ==> m is Sleep,
            self.active_ids().len() < MAX_CONNECTIONS && !self.has_listener()
                ==> m is CreateSocket,
            self.active_ids().len() < MAX_CONNECTIONS && self.has_listener()
                && self.active_ids().len() == 0 ==> m is BlockingAccept,
            0 < self.active_ids().len() < MAX_CONNECTIONS && self.has_listener()
                ==> m is TimedAccept,
    {
        if self.active.len() >= MAX_CONNECTIONS {
            AcceptMode::Sleep
        } else if !self.has_listen_socket {
            AcceptMode::CreateSocket
        } else if self.active.len() == 0 {
            AcceptMode::BlockingAccept
        } else {
            AcceptMode::TimedAccept
        }
    }

    /// A listening socket was created and configured.
    pub fn on_listener_created(&mut self)
        requires
            !old(self).has_listener(),
        ensures
            final(self).has_listener(),
            final(self).active_ids() == old(self).active_ids(),
            final(self).next_id_spec() == old(self).next_id_spec(),
    {
        self.has_listen_socket = true;
    }

    /// An accept completed: the listening socket becomes the session's
    /// socket (so no listener remains), the session gets the next
    /// identifier, and it joins the polled set. Identifiers wrap
    /// rather than overflow.
    pub fn on_accept_success(&mut self) -> (id: u64)
        requires
            old(self).has_listener(),
            old(self).active_ids().len() < MAX_CONNECTIONS,
        ensures
            id == old(self).next_id_spec(),
            final(self).active_ids() == old(self).active_ids().push(id),
            final(self).next_id_spec() == if old(self).next_id_spec() == u64::MAX {
                0u64
            } else {
                (old(self).next_id_spec() + 1) as u64
            },
            !final(self).has_listener(),
    {
        let id = self.next_id;
        self.next_id = if self.next_id == u64::MAX {
            0
        } else {
            self.next_id + 1
        };
        self.active.push(id);
        self.has_listen_socket = false;
        id
    }

    /// An accept failed or timed out: the socket is aborted and
    /// dropped, and the next round creates a fresh listener.
    pub fn on_accept_failure(&mut self)
        ensures
            !final(self).has_listener(),
            final(self).active_ids() == old(self).active_ids(),
            final(self).next_id_spec() == old(self).next_id_spec(),
    {
        self.has_listen_socket = false;
    }

    /// A polled session finished: drop it from the polled set by
    /// swapping the last one into its place.
    pub fn connection_finished(&mut self, i: usize) -> (id: u64)
        requires
            i < old(self).active_ids().len(),
        ensures
            id == old(self).active_ids()[i as int],
            final(self).active_ids() == old(self).active_ids().update(
                i as int,
                old(self).active_ids().last(),
            ).drop_last(),
            final(self).active_ids().len() == old(self).active_ids().len() - 1,
            final(self).next_id_spec() == old(self).next_id_spec(),
            final(self).has_listener() == old(self).has_listener(),
    {
        self.active.swap_remove(i)
    }
}

} // verus!
