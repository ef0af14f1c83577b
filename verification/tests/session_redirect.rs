use hablog::redirect::RedirectTable;
use hablog::session::{
    first_v4, AddrCandidate, Connection, ConnectionState, Ipv4Address, SessionAction, SessionEvent,
};

fn ip(a: u8, b: u8, c: u8, d: u8) -> Ipv4Address {
    Ipv4Address { a, b, c, d }
}

#[test]
fn add_redirect_twice_keeps_one_entry() {
    let mut t = RedirectTable::new();
    let host = String::from("game.example.test");
    t.add_redirect(&host);
    t.add_redirect(&host);
    let matching = t.entries().iter().filter(|h| **h == host).count();
    assert_eq!(matching, 1);
    assert_eq!(t.entries().len(), 1);
    assert!(t.contains(&host));
}

#[test]
fn remove_redirect_on_absent_is_noop() {
    let mut t = RedirectTable::new();
    let a = String::from("a.example.test");
    let b = String::from("b.example.test");
    t.add_redirect(&a);
    t.remove_redirect(&b);
    assert_eq!(t.entries().len(), 1);
    assert!(t.contains(&a));
    t.remove_redirect(&a);
    assert_eq!(t.entries().len(), 0);
    assert!(!t.contains(&a));
    t.remove_redirect(&a);
    assert_eq!(t.entries().len(), 0);
}

#[test]
fn first_v4_filters_ipv6() {
    let candidates = vec![
        AddrCandidate::V6,
        AddrCandidate::V4(ip(93, 184, 216, 34)),
        AddrCandidate::V4(ip(10, 0, 0, 1)),
    ];
    assert_eq!(first_v4(&candidates), Some(ip(93, 184, 216, 34)));
    assert_eq!(first_v4(&vec![AddrCandidate::V6, AddrCandidate::V6]), None);
    assert_eq!(first_v4(&Vec::new()), None);
}

#[test]
fn session_happy_path() {
    let mut c = Connection::new(String::from("127.0.0.1"), String::from("game.example.test"), 38101);
    assert_eq!(c.connection_state, ConnectionState::Disconnected);
    assert!(c.game_resolved_ip.is_none());

    let upstream = ip(198, 51, 100, 7);
    let action = c.step(SessionEvent::ResolveSucceeded(upstream));
    assert_eq!(action, SessionAction::InstallRedirect);
    assert_eq!(c.connection_state, ConnectionState::Ready);
    assert_eq!(c.game_resolved_ip, Some(upstream));

    assert_eq!(c.step(SessionEvent::ListenerBound), SessionAction::StartAccepting);
    assert_eq!(c.connection_state, ConnectionState::WaitingToConnect);

    assert_eq!(c.step(SessionEvent::ClientAccepted), SessionAction::SpawnRelay);
    assert_eq!(c.connection_state, ConnectionState::Connected);

    assert_eq!(c.step(SessionEvent::RelayEnded), SessionAction::LogRelayEnd);
    assert_eq!(c.connection_state, ConnectionState::WaitingToConnect);

    // the listener keeps accepting further clients
    assert_eq!(c.step(SessionEvent::ClientAccepted), SessionAction::SpawnRelay);
    assert_eq!(c.connection_state, ConnectionState::Connected);
}

#[test]
fn session_failures() {
    let mut c = Connection::new(String::from("127.0.0.1"), String::from("game.example.test"), 1);
    assert_eq!(c.step(SessionEvent::ResolveFailed), SessionAction::ReportFailure);
    assert_eq!(c.connection_state, ConnectionState::Disconnected);
    assert!(c.game_resolved_ip.is_none());

    c.step(SessionEvent::ResolveSucceeded(ip(1, 2, 3, 4)));
    assert_eq!(c.step(SessionEvent::BindFailed), SessionAction::FatalStop);
    assert_eq!(c.connection_state, ConnectionState::Disconnected);

    let mut d = Connection::new(String::from("127.0.0.1"), String::from("game.example.test"), 2);
    d.step(SessionEvent::ResolveSucceeded(ip(1, 2, 3, 4)));
    d.step(SessionEvent::ListenerBound);
    assert_eq!(d.step(SessionEvent::AcceptFailed), SessionAction::FatalStop);
    assert_eq!(d.connection_state, ConnectionState::Disconnected);
}

#[test]
fn session_ignores_out_of_place_events() {
    let mut c = Connection::new(String::from("127.0.0.1"), String::from("game.example.test"), 3);
    assert_eq!(c.step(SessionEvent::RelayEnded), SessionAction::Ignore);
    assert_eq!(c.connection_state, ConnectionState::Disconnected);
    assert_eq!(c.step(SessionEvent::ClientAccepted), SessionAction::Ignore);
    assert_eq!(c.connection_state, ConnectionState::Disconnected);
}

#[test]
fn set_connection_state_sets_only_the_state() {
    let mut c = Connection::new(String::from("localhost"), String::from("game.example.test"), 9);
    c.set_connection_state(ConnectionState::Ready);
    assert_eq!(c.connection_state, ConnectionState::Ready);
    assert_eq!(c.port, 9);
    assert_eq!(c.client_host, "localhost");
    assert_eq!(c.game_host, "game.example.test");
}
