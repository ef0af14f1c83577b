//! The per-connection lifecycle: resolve the real server's address (IPv4
//! only), install the hosts redirect, bind the local listener, accept a
//! client, run the relay, and return to accepting when it ends. The decision
//! logic is a pure state machine; the sockets, the resolver and the hosts
//! file live with the caller, which feeds events in and carries actions out.

use vstd::prelude::*;

verus! {

/// Lifecycle state of the session.
#[derive(Debug, PartialEq, Eq, Structural, Clone, Copy)]
pub enum ConnectionState {
    Connected,
    Disconnected,
    WaitingToConnect,
    Ready,
}

/// An IPv4 address as its four octets.
#[derive(Debug, PartialEq, Eq, Structural, Clone, Copy)]
pub struct Ipv4Address {
    pub a: u8,
    pub b: u8,
    pub c: u8,
    pub d: u8,
}

/// One address returned by the resolver: an IPv4 address, or an IPv6 result,
/// which the session discards.
#[derive(Debug, PartialEq, Eq, Structural, Clone, Copy)]
pub enum AddrCandidate {
    V4(Ipv4Address),
    V6,
}

/// What the outside world reports to the state machine.
#[derive(Debug, PartialEq, Eq, Structural, Clone, Copy)]
pub enum SessionEvent {
    /// The upstream hostname resolved to an IPv4 address.
    ResolveSucceeded(Ipv4Address),
    /// Resolution failed or yielded no IPv4 address.
    ResolveFailed,
    /// The local listener is bound and accepting.
    ListenerBound,
    /// The local listener could not be bound.
    BindFailed,
    /// A client connected to the listener.
    ClientAccepted,
    /// The listener failed while accepting.
    AcceptFailed,
    /// The running relay ended, by EOF or by an I/O error.
    RelayEnded,
}

/// What the caller must do after a transition.
#[derive(Debug, PartialEq, Eq, Structural, Clone, Copy)]
pub enum SessionAction {
    /// Point the real hostname at the local relay.
    InstallRedirect,
    /// Report the failed resolution to the operator; do not hang silently.
    ReportFailure,
    /// Start accepting clients.
    StartAccepting,
    /// Fatal: report and end the process with a non-zero status.
    FatalStop,
    /// Start a relay for the accepted client.
    SpawnRelay,
    /// Log the end of the relay; the listener keeps accepting.
    LogRelayEnd,
    /// The event does not apply in this state; nothing to do.
    Ignore,
}

/// The transition table. Resolution succeeds out of `Disconnected` into
/// `Ready` and installs the redirect; a bound listener waits in
/// `WaitingToConnect`; an accepted client runs `Connected` until its relay
/// ends, after which the listener accepts again; bind and accept failures
/// are fatal; a failed resolution stays `Disconnected` and is reported.
pub open spec fn spec_step(state: ConnectionState, event: SessionEvent) -> (
    ConnectionState,
    SessionAction,
) {
    match (state, event) {
        (
            ConnectionState::Disconnected,
            SessionEvent::ResolveSucceeded(_),
        ) => (ConnectionState::Ready, SessionAction::InstallRedirect),
        (
            ConnectionState::Disconnected,
            SessionEvent::ResolveFailed,
        ) => (ConnectionState::Disconnected, SessionAction::ReportFailure),
        (
            ConnectionState::Ready,
            SessionEvent::ListenerBound,
        ) => (ConnectionState::WaitingToConnect, SessionAction::StartAccepting),
        (
            ConnectionState::Ready,
            SessionEvent::BindFailed,
        ) => (ConnectionState::Disconnected, SessionAction::FatalStop),
        (
            ConnectionState::WaitingToConnect,
            SessionEvent::ClientAccepted,
        ) => (ConnectionState::Connected, SessionAction::SpawnRelay),
        (
            ConnectionState::WaitingToConnect,
            SessionEvent::AcceptFailed,
        ) => (ConnectionState::Disconnected, SessionAction::FatalStop),
        (
            ConnectionState::Connected,
            SessionEvent::RelayEnded,
        ) => (ConnectionState::WaitingToConnect, SessionAction::LogRelayEnd),
        _ => (state, SessionAction::Ignore),
    }
}

/// The first IPv4 address among the resolver's candidates, in order; IPv6
/// results are discarded.
pub open spec fn spec_first_v4(candidates: Seq<AddrCandidate>) -> Option<Ipv4Address>
    decreases candidates.len(),
{
    if candidates.len() == 0 {
        None
    } else {
        match candidates[0] {
            AddrCandidate::V4(a) => Some(a),
            AddrCandidate::V6 => spec_first_v4(candidates.drop_first()),
        }
    }
}

/// Picks the first IPv4 address out of the resolver's candidate list;
/// `None` exactly when every candidate is IPv6 or the list is empty.
pub fn first_v4(candidates: &Vec<AddrCandidate>) -> (r: Option<Ipv4Address>)
    ensures
        r == spec_first_v4(candidates@),
{
    let n = candidates.len();
    let mut i: usize = 0;
    proof {
        assert(candidates@.skip(0) =~= candidates@);
    }
    while i < n
        invariant
            i <= n,
            n == candidates@.len(),
            spec_first_v4(candidates@.skip(i as int)) == spec_first_v4(candidates@),
        decreases n - i,
    {
        proof {
            assert(candidates@.skip(i as int)[0] == candidates@[i as int]);
            assert(candidates@.skip(i as int).drop_first() =~= candidates@.skip(i + 1));
        }
        match candidates[i] {
            AddrCandidate::V4(a) => {
                return Some(a);
            },
            AddrCandidate::V6 => {},
        }
        i = i + 1;
    }
    None
}

/// The process-lifetime session: it owns the upstream resolution result and
/// the lifecycle state; created once and kept for the whole run.
#[derive(Debug, Clone)]
pub struct Connection {
    pub connection_state: ConnectionState,
    pub port: u16,
    pub game_resolved_ip: Option<Ipv4Address>,
    pub client_host: String,
    pub game_host: String,
}

impl Connection {
    /// Creates a session for the given endpoints, disconnected and with no
    /// address resolved yet.
    pub fn new(client_host: String, game_host: String, port: u16) -> (c: Connection)
        ensures
            c.connection_state == ConnectionState::Disconnected,
            c.game_resolved_ip is None,
            c.port == port,
            c.client_host@ == client_host@,
            c.game_host@ == game_host@,
    {
        Connection {
            connection_state: ConnectionState::Disconnected,
            port,
            game_resolved_ip: None,
            client_host,
            game_host,
        }
    }

    /// Sets the lifecycle state and nothing else.
    pub fn set_connection_state(&mut self, state: ConnectionState)
        ensures
            final (self).connection_state == state,
            final (self).port == old(self).port,
            final (self).game_resolved_ip == old(self).game_resolved_ip,
            final (self).client_host@ == old(self).client_host@,
            final (self).game_host@ == old(self).game_host@,
    {
        self.connection_state = state;
    }

    /// Applies one event: moves to the state the transition table gives,
    /// stores the resolved address when resolution succeeded, and returns
    /// the action the caller must carry out.
    pub fn step(&mut self, event: SessionEvent) -> (action: SessionAction)
        ensures
            (final (self).connection_state, action) == spec_step(
                old(self).connection_state,
                event,
            ),
            final (self).game_resolved_ip == (match (old(self).connection_state, event) {
                (
                    ConnectionState::Disconnected,
                    SessionEvent::ResolveSucceeded(ip),
                ) => Some(ip),
                _ => old(self).game_resolved_ip,
            }),
            final (self).port == old(self).port,
            final (self).client_host@ == old(self).client_host@,
            final (self).game_host@ == old(self).game_host@,
    {
        let state = self.connection_state;
        match (state, event) {
            (ConnectionState::Disconnected, SessionEvent::ResolveSucceeded(ip)) => {
                self.game_resolved_ip = Some(ip);
                self.connection_state = ConnectionState::Ready;
                SessionAction::InstallRedirect
            },
            (ConnectionState::Disconnected, SessionEvent::ResolveFailed) => {
                SessionAction::ReportFailure
            },
            (ConnectionState::Ready, SessionEvent::ListenerBound) => {
                self.connection_state = ConnectionState::WaitingToConnect;
                SessionAction::StartAccepting
            },
            (ConnectionState::Ready, SessionEvent::BindFailed) => {
                self.connection_state = ConnectionState::Disconnected;
                SessionAction::FatalStop
            },
            (ConnectionState::WaitingToConnect, SessionEvent::ClientAccepted) => {
                self.connection_state = ConnectionState::Connected;
                SessionAction::SpawnRelay
            },
            (ConnectionState::WaitingToConnect, SessionEvent::AcceptFailed) => {
                self.connection_state = ConnectionState::Disconnected;
                SessionAction::FatalStop
            },
            (ConnectionState::Connected, SessionEvent::RelayEnded) => {
                self.connection_state = ConnectionState::WaitingToConnect;
                SessionAction::LogRelayEnd
            },
            _ => SessionAction::Ignore,
        }
    }
}

} // verus!
