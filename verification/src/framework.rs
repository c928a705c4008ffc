//! Server lifecycle skeleton: connection sessions with explicit states, a
//! registry of service endpoints and the router of evidence-gated services.
//! Authentication and the game protocol are not implemented.
use vstd::prelude::*;
use std::collections::HashMap;
use crate::table::Table;
use crate::clock::now_ms;
use crate::text::lit;
use crate::storage::Player;

verus! {

#[derive(Debug, Clone, Copy, PartialEq, Eq, Structural)]
pub enum SessionState {
    Connected,
    WaitingHandshake,
    Authenticating,
    Ready,
    Closed,
}

/// A connection session; times are milliseconds since the Unix epoch.
#[derive(Debug, Clone)]
pub struct Session {
    pub id: String,
    pub peer: String,
    pub state: SessionState,
    pub created_ms: u128,
    pub last_seen_ms: u128,
    pub tcp_bytes: u64,
    pub udp_bytes: u64,
}

/// A freshly connected session.
pub open spec fn connected(id: Seq<char>, peer: Seq<char>, now: u128, s: Session) -> bool {
    &&& s.id@ == id
    &&& s.peer@ == peer
    &&& s.state == SessionState::Connected
    &&& s.created_ms == now
    &&& s.last_seen_ms == now
    &&& s.tcp_bytes == 0
    &&& s.udp_bytes == 0
}

/// The session moved to `state` and seen at `now`; nothing else changes.
pub open spec fn moved(s: Session, state: SessionState, now: u128) -> Session {
    Session {
        id: s.id,
        peer: s.peer,
        state: state,
        created_ms: s.created_ms,
        last_seen_ms: now,
        tcp_bytes: s.tcp_bytes,
        udp_bytes: s.udp_bytes,
    }
}

/// What a transition of `k` does: a known session moves, an unknown id
/// changes nothing.
pub open spec fn spec_transition(m: Map<Seq<char>, Session>, k: Seq<char>, state: SessionState, now: u128) -> Map<Seq<char>, Session> {
    if m.contains_key(k) {
        m.insert(k, moved(m[k], state, now))
    } else {
        m
    }
}

/// What closing `k` at `now` does: the session is moved to `Closed` and
/// seen at `now`; an unknown id changes nothing.
pub open spec fn spec_close(m: Map<Seq<char>, Session>, k: Seq<char>, now: u128) -> Map<Seq<char>, Session> {
    if m.contains_key(k) {
        m.insert(k, moved(m[k], SessionState::Closed, now))
    } else {
        m
    }
}

/// The connection sessions, by id.
pub struct SessionManager {
    pub sessions: Table<Session>,
}

impl SessionManager {
    pub fn new() -> (m: SessionManager)
        ensures
            m.sessions@ == Map::<Seq<char>, Session>::empty(),
    {
        SessionManager { sessions: Table::new() }
    }

    /// The session `id`, created as connected from `peer` at `now` when it
    /// does not exist; an existing session is returned unchanged.
    pub fn upsert_at(&mut self, id: &str, peer: &str, now: u128) -> (r: &mut Session)
        ensures
            old(self).sessions@.contains_key(id@) ==> *r == old(self).sessions@[id@],
            !old(self).sessions@.contains_key(id@) ==> connected(id@, peer@, now, *r),
            final(self).sessions@ == old(self).sessions@.insert(id@, *final(r)),
    {
        let key = lit(id);
        let ghost before = self.sessions@;
        if self.sessions.get(&key).is_none() {
            let s = Session {
                id: lit(id),
                peer: lit(peer),
                state: SessionState::Connected,
                created_ms: now,
                last_seen_ms: now,
                tcp_bytes: 0,
                udp_bytes: 0,
            };
            self.sessions.insert(key.clone(), s);
        }
        let ghost mid = self.sessions@;
        assert(mid.contains_key(id@));
        assert(mid == before.insert(id@, mid[id@]));
        let r = self.sessions.get_mut(&key);
        r.unwrap()
    }

    /// The session `id`, created as connected from `peer` now when it does
    /// not exist; an existing session is returned unchanged.
    pub fn upsert(&mut self, id: &str, peer: &str) -> (r: &mut Session)
        ensures
            old(self).sessions@.contains_key(id@) ==> *r == old(self).sessions@[id@],
            !old(self).sessions@.contains_key(id@) ==> exists|now: u128| connected(id@, peer@, now, *r),
            final(self).sessions@ == old(self).sessions@.insert(id@, *final(r)),
    {
        let now = now_ms();
        self.upsert_at(id, peer, now)
    }

    /// Moves session `id` to `state`, seen at `now`; an unknown id changes
    /// nothing.
    pub fn transition_at(&mut self, id: &str, state: SessionState, now: u128)
        ensures
            final(self).sessions@ == spec_transition(old(self).sessions@, id@, state, now),
    {
        let key = lit(id);
        match self.sessions.remove(&key) {
            Some(s) => {
                let moved = Session {
                    id: s.id,
                    peer: s.peer,
                    state,
                    created_ms: s.created_ms,
                    last_seen_ms: now,
                    tcp_bytes: s.tcp_bytes,
                    udp_bytes: s.udp_bytes,
                };
                self.sessions.insert(key, moved);
                assert(self.sessions@ =~= spec_transition(old(self).sessions@, id@, state, now));
            },
            None => {
                assert(self.sessions@ =~= old(self).sessions@);
            },
        }
    }

    /// Moves session `id` to `state`, seen now; an unknown id changes nothing.
    pub fn transition(&mut self, id: &str, state: SessionState)
        ensures
            exists|now: u128| final(self).sessions@ == spec_transition(old(self).sessions@, id@, state, now),
    {
        let now = now_ms();
        self.transition_at(id, state, now);
    }

    /// Closes session `id`, seen at `now`; an unknown id changes nothing.
    pub fn close_at(&mut self, id: &str, now: u128)
        ensures
            final(self).sessions@ == spec_close(old(self).sessions@, id@, now),
    {
        self.transition_at(id, SessionState::Closed, now);
    }

    /// Closes session `id`, seen now; an unknown id changes nothing.
    pub fn close(&mut self, id: &str)
        ensures
            exists|now: u128| final(self).sessions@ == spec_close(old(self).sessions@, id@, now),
    {
        let now = now_ms();
        self.close_at(id, now);
    }
}

impl Default for SessionManager {
    fn default() -> (m: SessionManager)
        ensures
            m.sessions@ == Map::<Seq<char>, Session>::empty(),
    {
        SessionManager::new()
    }
}

/// The modelled players, by id.
#[derive(Default)]
pub struct PlayerStateModel {
    pub players: HashMap<String, Player>,
}


/// A backend service known by name.
pub trait Service {
    /// The service's name.
    spec fn service_name(&self) -> Seq<char>;

    fn name(&self) -> (r: &'static str)
        ensures
            r@ == self.service_name(),
    ;
}

#[derive(Debug, Clone, PartialEq, Eq)]
pub struct ServiceEndpoint {
    pub name: String,
    pub endpoint: String,
    pub transport: String,
    pub status: String,
}

/// What is recorded of an endpoint registered under `name`.
pub open spec fn endpoint_of(e: ServiceEndpoint, name: Seq<char>, endpoint: Seq<char>, transport: Seq<char>, status: Seq<char>) -> bool {
    &&& e.name@ == name
    &&& e.endpoint@ == endpoint
    &&& e.transport@ == transport
    &&& e.status@ == status
}

/// The registered endpoints, by service name.
pub struct ServiceRegistry {
    pub endpoints: Table<ServiceEndpoint>,
}

impl ServiceRegistry {
    pub fn new() -> (r: ServiceRegistry)
        ensures
            r.endpoints@ == Map::<Seq<char>, ServiceEndpoint>::empty(),
    {
        ServiceRegistry { endpoints: Table::new() }
    }

    /// Records the endpoint of service `name`, replacing any earlier record
    /// under that name.
    pub fn register(&mut self, name: &str, endpoint: &str, transport: &str, status: &str)
        ensures
            final(self).endpoints@.dom() == old(self).endpoints@.dom().insert(name@),
            forall|k: Seq<char>| k != name@ && old(self).endpoints@.contains_key(k)
                ==> #[trigger] final(self).endpoints@[k] == old(self).endpoints@[k],
            endpoint_of(final(self).endpoints@[name@], name@, endpoint@, transport@, status@),
    {
        let e = ServiceEndpoint {
            name: lit(name),
            endpoint: lit(endpoint),
            transport: lit(transport),
            status: lit(status),
        };
        self.endpoints.insert(lit(name), e);
        assert(self.endpoints@.dom() =~= old(self).endpoints@.dom().insert(name@));
    }

    /// Records the endpoint of service `name` with the status `observed`.
    pub fn observe(&mut self, name: &str, endpoint: &str, transport: &str)
        ensures
            final(self).endpoints@.dom() == old(self).endpoints@.dom().insert(name@),
            forall|k: Seq<char>| k != name@ && old(self).endpoints@.contains_key(k)
                ==> #[trigger] final(self).endpoints@[k] == old(self).endpoints@[k],
            endpoint_of(final(self).endpoints@[name@], name@, endpoint@, transport@, "observed"@),
    {
        self.register(name, endpoint, transport, "observed");
    }
}

impl Default for ServiceRegistry {
    fn default() -> (r: ServiceRegistry)
        ensures
            r.endpoints@ == Map::<Seq<char>, ServiceEndpoint>::empty(),
    {
        ServiceRegistry::new()
    }
}

pub struct AuthenticationService;

pub struct SessionService;

pub struct WorldService;

pub struct InventoryService;

pub struct ActivityService;

pub struct ConfigurationService;

impl Service for AuthenticationService {
    open spec fn service_name(&self) -> Seq<char> {
        "AuthenticationService"@
    }

    fn name(&self) -> (r: &'static str) {
        "AuthenticationService"
    }
}

impl Service for SessionService {
    open spec fn service_name(&self) -> Seq<char> {
        "SessionService"@
    }

    fn name(&self) -> (r: &'static str) {
        "SessionService"
    }
}

impl Service for WorldService {
    open spec fn service_name(&self) -> Seq<char> {
        "WorldService"@
    }

    fn name(&self) -> (r: &'static str) {
        "WorldService"
    }
}

impl Service for InventoryService {
    open spec fn service_name(&self) -> Seq<char> {
        "InventoryService"@
    }

    fn name(&self) -> (r: &'static str) {
        "InventoryService"
    }
}

impl Service for ActivityService {
    open spec fn service_name(&self) -> Seq<char> {
        "ActivityService"@
    }

    fn name(&self) -> (r: &'static str) {
        "ActivityService"
    }
}

impl Service for ConfigurationService {
    open spec fn service_name(&self) -> Seq<char> {
        "ConfigurationService"@
    }

    fn name(&self) -> (r: &'static str) {
        "ConfigurationService"
    }
}

/// The services a request can be routed to.
pub struct ServiceRouter {
    pub services: Vec<Box<dyn Service>>,
}

/// The names of the routed services, in routing order.
pub open spec fn routed_service_names() -> Seq<Seq<char>> {
    seq![
        "AuthenticationService"@,
        "SessionService"@,
        "WorldService"@,
        "InventoryService"@,
        "ActivityService"@,
        "ConfigurationService"@,
    ]
}

/// A boxed service is known by the name of the service inside.
impl Service for Box<dyn Service> {
    open spec fn service_name(&self) -> Seq<char> {
        (**self).service_name()
    }

    fn name(&self) -> (r: &'static str) {
        (**self).name()
    }
}

/// Appends a service, keeping the names of those before it.
fn push_service<T: Service>(v: &mut Vec<T>, x: T)
    ensures
        final(v)@.len() == old(v)@.len() + 1,
        forall|i: int| 0 <= i < old(v)@.len() ==> #[trigger] final(v)@[i].service_name() == old(v)@[i].service_name(),
        final(v)@[old(v)@.len() as int].service_name() == x.service_name(),
{
    v.push(x);
}

impl Default for ServiceRouter {
    /// The evidence-gated services, in this order: authentication, session,
    /// world, inventory, activity, configuration.
    fn default() -> (r: ServiceRouter)
        ensures
            r.services@.len() == 6,
            forall|i: int| 0 <= i < 6 ==> #[trigger] r.services@[i].service_name() == routed_service_names()[i],
    {
        let mut services: Vec<Box<dyn Service>> = Vec::new();
        push_service(&mut services, Box::new(AuthenticationService));
        push_service(&mut services, Box::new(SessionService));
        push_service(&mut services, Box::new(WorldService));
        push_service(&mut services, Box::new(InventoryService));
        push_service(&mut services, Box::new(ActivityService));
        push_service(&mut services, Box::new(ConfigurationService));
        ServiceRouter { services }
    }
}


/// Closing is the transition to `Closed`: closing a session and moving it to
/// `Closed` at the same time leave the same sessions, and closing an unknown
/// id changes nothing.
pub proof fn law_close_is_transition_to_closed(m: Map<Seq<char>, Session>, k: Seq<char>, now: u128)
    ensures
        spec_close(m, k, now) == spec_transition(m, k, SessionState::Closed, now),
        !m.contains_key(k) ==> spec_close(m, k, now) == m,
        m.contains_key(k) ==> spec_close(m, k, now)[k].state == SessionState::Closed,
{
}

/// The session lifecycle is explicit: a transition moves a known session to
/// the given state and records when it was seen, keeping its identity,
/// peer, creation time and byte counts; it never creates a session.
pub proof fn law_transition_is_explicit(m: Map<Seq<char>, Session>, k: Seq<char>, state: SessionState, now: u128)
    ensures
        spec_transition(m, k, state, now).dom() == m.dom(),
        m.contains_key(k) ==> spec_transition(m, k, state, now)[k].state == state,
        m.contains_key(k) ==> spec_transition(m, k, state, now)[k].last_seen_ms == now,
        m.contains_key(k) ==> spec_transition(m, k, state, now)[k].id == m[k].id,
        m.contains_key(k) ==> spec_transition(m, k, state, now)[k].created_ms == m[k].created_ms,
        forall|k2: Seq<char>| k2 != k && m.contains_key(k2) ==> #[trigger] spec_transition(m, k, state, now)[k2] == m[k2],
{
    if m.contains_key(k) {
        assert(m.insert(k, moved(m[k], state, now)).dom() =~= m.dom());
    }
}

} // verus!
