use destiny::activity::{activity_views, create_instance, state_name, ActivityState};
use destiny::auth::{Account, AuthService, AuthState};
use destiny::framework::{
    Service, ServiceRegistry, ServiceRouter, SessionManager, SessionState,
};
use destiny::server::{DispatchResult, Telemetry};
use destiny::network::decode;
use destiny::adapter::{OpaqueTranslator, PacketTranslator};
use std::time::Duration;

#[test]
fn placeholder_session_validates() {
    let mut a = AuthService::default();
    let s = a.authenticate_placeholder(
        Account {
            id: "a".into(),
            display_name: "mock".into(),
        },
        "s".into(),
        Duration::from_secs(60).as_nanos(),
    );
    assert_eq!(a.validate(&s.id).unwrap().state, AuthState::Authenticated);
}

#[test]
fn expired_session_is_refused_and_marked() {
    let mut a = AuthService::new();
    let s = a.authenticate_until(
        Account { id: "a".into(), display_name: "mock".into() },
        "s".into(),
        1_000,
    );
    assert_eq!(s.expires_at, 1_000);
    assert_eq!(a.validate_at("s", 999).unwrap().state, AuthState::Authenticated);
    assert!(a.validate_at("s", 1_000).is_none());
    assert!(a.validate_at("s", 500).map(|s| s.state) == Some(AuthState::Expired));
    assert!(a.validate_at("missing", 0).is_none());
}

#[test]
fn expire_marks_only_sessions_past_their_time() {
    let mut a = AuthService::new();
    let acc = || Account { id: "a".into(), display_name: "mock".into() };
    a.authenticate_until(acc(), "old".into(), 10);
    a.authenticate_until(acc(), "new".into(), 100);
    a.expire_at(50);
    assert_eq!(a.validate_at("new", 50).unwrap().state, AuthState::Authenticated);
    assert!(a.validate_at("new", 20).is_some());
    assert_eq!(a.validate_at("old", 0).unwrap().state, AuthState::Expired);
}

#[test]
fn zero_ttl_session_expires_immediately() {
    let mut a = AuthService::default();
    let s = a.authenticate_placeholder(
        Account { id: "a".into(), display_name: "mock".into() },
        "s".into(),
        Duration::from_secs(0).as_nanos(),
    );
    assert!(a.validate(&s.id).is_none());
    a.expire();
}

#[test]
fn granted_session_expires_after_its_ttl() {
    let mut a = AuthService::default();
    let ttl = Duration::from_nanos(500).as_nanos();
    let s = a.authenticate_placeholder(
        Account { id: "a".into(), display_name: "mock".into() },
        "s".into(),
        ttl,
    );
    assert_eq!(s.state, AuthState::Authenticated);
    let granted = s.expires_at - ttl;
    assert_eq!(a.validate_at("s", granted + 499).unwrap().state, AuthState::Authenticated);
    assert!(a.validate_at("s", granted + 500).is_none());
    assert_eq!(a.validate_at("s", granted).map(|s| s.state.clone()), Some(AuthState::Expired));
}

#[test]
fn default_router_order() {
    let r = ServiceRouter::default();
    let names: Vec<&str> = r.services.iter().map(|s| s.name()).collect();
    assert_eq!(
        names,
        vec![
            "AuthenticationService",
            "SessionService",
            "WorldService",
            "InventoryService",
            "ActivityService",
            "ConfigurationService",
        ]
    );
}

#[test]
fn routes_all_evidence_gated_services() {
    assert_eq!(ServiceRouter::default().services.len(), 6);
    assert_eq!(
        ServiceRouter::default().services[0].name(),
        "AuthenticationService"
    );
}

#[test]
fn session_lifecycle_is_explicit() {
    let mut m = SessionManager::default();
    m.upsert("c1", "127.0.0.1:1");
    m.transition("c1", SessionState::WaitingHandshake);
    assert_eq!(m.sessions.get(&"c1".to_string()).unwrap().state, SessionState::WaitingHandshake);
    m.close("c1");
    assert_eq!(m.sessions.get(&"c1".to_string()).unwrap().state, SessionState::Closed);
}

#[test]
fn upsert_keeps_an_existing_session() {
    let mut m = SessionManager::new();
    {
        let s = m.upsert_at("c1", "peer-a", 5);
        assert_eq!(s.state, SessionState::Connected);
        assert_eq!((s.created_ms, s.last_seen_ms), (5, 5));
        s.tcp_bytes = 9;
    }
    m.transition_at("c1", SessionState::Ready, 7);
    let s = m.upsert_at("c1", "peer-b", 8);
    assert_eq!(s.peer, "peer-a");
    assert_eq!(s.state, SessionState::Ready);
    assert_eq!((s.created_ms, s.last_seen_ms, s.tcp_bytes), (5, 7, 9));
    m.transition_at("unknown", SessionState::Closed, 9);
    assert!(m.sessions.get(&"unknown".to_string()).is_none());
    assert_eq!(m.sessions.len(), 1);
}

#[test]
fn registry_replaces_by_name() {
    let mut r = ServiceRegistry::default();
    r.register("auth", "127.0.0.1:1", "tcp", "planned");
    r.observe("auth", "10.0.0.1:2", "udp");
    r.register("world", "127.0.0.1:3", "tcp", "planned");
    let e = r.endpoints.get(&"auth".to_string()).unwrap();
    assert_eq!(e.endpoint, "10.0.0.1:2");
    assert_eq!(e.transport, "udp");
    assert_eq!(e.status, "observed");
    assert_eq!(r.endpoints.len(), 2);
}

#[test]
fn dispatch_without_opcode_is_unknown() {
    let mut t = Telemetry::default();
    let mut p = decode(vec![1, 2, 3]);
    assert_eq!(t.record_dispatch(&p, 3), DispatchResult::UnknownOpcode);
    p.opcode = Some(7);
    assert_eq!(t.record_dispatch(&p, 4), DispatchResult::Accepted);
    assert_eq!(
        t.packet_traces,
        vec!["packet result: UnknownOpcode".to_string(), "packet result: Accepted".to_string()]
    );
    assert_eq!(t.service_timing_ms, vec![("dispatch".to_string(), 3), ("dispatch".to_string(), 4)]);
    assert!(t.request_log.is_empty());
}

#[test]
fn opaque_route_remains_unknown() {
    let p = OpaqueTranslator.inbound(vec![1], "s".to_string());
    let mut t = Telemetry::default();
    assert!(matches!(t.record_dispatch(&p, 0), DispatchResult::UnknownOpcode));
}

#[test]
fn closing_is_the_transition_to_closed() {
    let mut a = SessionManager::new();
    let mut b = SessionManager::new();
    a.upsert_at("c1", "127.0.0.1:1", 5);
    b.upsert_at("c1", "127.0.0.1:1", 5);
    a.close_at("c1", 9);
    b.transition_at("c1", SessionState::Closed, 9);
    let sa = a.sessions.get(&"c1".to_string()).unwrap();
    let sb = b.sessions.get(&"c1".to_string()).unwrap();
    assert_eq!((sa.state, sa.last_seen_ms, sa.created_ms), (SessionState::Closed, 9, 5));
    assert_eq!((sb.state, sb.last_seen_ms, sb.created_ms), (SessionState::Closed, 9, 5));
    a.close_at("missing", 10);
    assert_eq!(a.sessions.len(), 1);
}

#[test]
fn created_activities_start_unknown() {
    let mut v = Vec::new();
    create_instance(&mut v, "activity-1".to_string(), "80802797".to_string());
    create_instance(&mut v, "activity-2".to_string(), "80802798".to_string());
    assert_eq!(v.len(), 2);
    assert_eq!(v[1].id, "activity-2");
    assert_eq!(v[1].definition_hash, "80802798");
    assert_eq!(v[1].state, ActivityState::Unknown);
    assert!(v[1].players.is_empty() && v[1].rewards.is_empty());
    assert_eq!(v[0].id, "activity-1");
}

#[test]
fn activity_views_name_each_state() {
    let mut v = Vec::new();
    create_instance(&mut v, "activity-1".to_string(), "80802797".to_string());
    create_instance(&mut v, "activity-2".to_string(), "80802798".to_string());
    v[0].state = ActivityState::Completed;
    let views = activity_views(&v);
    assert_eq!(views.len(), 2);
    assert_eq!((views[0].id.as_str(), views[0].state.as_str()), ("activity-1", "Completed"));
    assert_eq!((views[1].id.as_str(), views[1].state.as_str()), ("activity-2", "Unknown"));
    assert_eq!(state_name(ActivityState::Matchmaking), "Matchmaking");
    assert_eq!(state_name(ActivityState::Active), "Active");
}
