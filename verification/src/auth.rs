//! Placeholder authentication: sessions are granted to an explicitly supplied
//! account, expire after their time to live, and are then refused.
use vstd::prelude::*;
use crate::table::Table;
use crate::clock::{instant_now, nanos_since};
use crate::text::lit;

verus! {

#[derive(Clone, Debug)]
pub struct Account {
    pub id: String,
    pub display_name: String,
}

#[derive(Clone, Copy, Debug, PartialEq, Eq, Structural)]
pub enum AuthState {
    Unauthenticated,
    Authenticating,
    Authenticated,
    Expired,
}

/// A session; `expires_at` is a reading of the service's monotonic clock,
/// in nanoseconds since the service was created.
#[derive(Clone, Debug)]
pub struct Session {
    pub id: String,
    pub account: Account,
    pub state: AuthState,
    pub expires_at: u128,
}

impl Account {
    pub fn copy(&self) -> (r: Account)
        ensures
            r == *self,
    {
        Account { id: self.id.clone(), display_name: self.display_name.clone() }
    }
}

impl Session {
    pub fn copy(&self) -> (r: Session)
        ensures
            r == *self,
    {
        Session {
            id: self.id.clone(),
            account: self.account.copy(),
            state: self.state,
            expires_at: self.expires_at,
        }
    }
}

/// The expiry of a session granted at `now` for `ttl_ns` nanoseconds; the
/// sum saturates at the largest time.
pub open spec fn expiry(now: u128, ttl_ns: u128) -> u128 {
    if now + ttl_ns > u128::MAX {
        u128::MAX
    } else {
        (now + ttl_ns) as u128
    }
}

/// The session with its state set to `Expired`.
pub open spec fn expired(s: Session) -> Session {
    Session { id: s.id, account: s.account, state: AuthState::Expired, expires_at: s.expires_at }
}

/// A session whose expiry time has been reached at `now`.
pub open spec fn is_past(s: Session, now: u128) -> bool {
    s.expires_at <= now
}

/// What validation of `k` at `now` does: a session that has reached its
/// expiry is marked expired and refused; any other session is returned
/// unchanged; an unknown id is refused.
pub open spec fn spec_validate(m: Map<Seq<char>, Session>, k: Seq<char>, now: u128) -> (
    Map<Seq<char>, Session>,
    Option<Session>,
) {
    if m.contains_key(k) && is_past(m[k], now) {
        (m.insert(k, expired(m[k])), None)
    } else if m.contains_key(k) {
        (m, Some(m[k]))
    } else {
        (m, None)
    }
}

/// What expiry at `now` does: every session that has reached its expiry
/// is marked expired.
pub open spec fn spec_expire(m: Map<Seq<char>, Session>, now: u128) -> Map<Seq<char>, Session> {
    Map::new(
        |k: Seq<char>| m.contains_key(k),
        |k: Seq<char>| if is_past(m[k], now) { expired(m[k]) } else { m[k] },
    )
}

/// The granted sessions, by id, the point of the monotonic clock from which
/// their times are counted, and the latest reading of that clock.
pub struct AuthService {
    sessions: Table<Session>,
    epoch: std::time::Instant,
    clock_ns: u128,
}

impl View for AuthService {
    type V = Map<Seq<char>, Session>;

    closed spec fn view(&self) -> Map<Seq<char>, Session> {
        self.sessions@
    }
}

impl AuthService {
    /// The service clock: the latest reading of the monotonic clock, in
    /// nanoseconds since the service was created. It never goes back.
    pub closed spec fn clock(&self) -> u128 {
        self.clock_ns
    }

    /// A service with no session, its clock at zero.
    pub fn new() -> (a: AuthService)
        ensures
            a@ == Map::<Seq<char>, Session>::empty(),
            a.clock() == 0,
    {
        AuthService { sessions: Table::new(), epoch: instant_now(), clock_ns: 0 }
    }

    /// Reads the monotonic clock into the service clock. The monotonic clock
    /// never goes back, so the reading is kept as it is; the service clock
    /// is held to that here rather than assumed of the clock.
    fn read_clock(&mut self) -> (t: u128)
        ensures
            t >= old(self).clock(),
            final(self).clock() == t,
            final(self)@ == old(self)@,
    {
        let r = nanos_since(&self.epoch);
        let t = if r > self.clock_ns { r } else { self.clock_ns };
        self.clock_ns = t;
        t
    }

    /// Grants `account` an authenticated session `session_id` that expires
    /// at `expires_at`, replacing any session with that id.
    pub fn authenticate_until(&mut self, account: Account, session_id: String, expires_at: u128) -> (s: Session)
        ensures
            s == (Session { id: session_id, account: account, state: AuthState::Authenticated, expires_at: expires_at }),
            final(self)@ == old(self)@.insert(session_id@, s),
            final(self).clock() == old(self).clock(),
    {
        let s = Session { id: session_id, account, state: AuthState::Authenticated, expires_at };
        let key = s.id.clone();
        self.sessions.insert(key, s.copy());
        s
    }

    /// Grants `account` an authenticated session `session_id` that lives
    /// for `ttl_ns` nanoseconds of the monotonic clock from now, replacing
    /// any session with that id.
    pub fn authenticate_placeholder(&mut self, account: Account, session_id: String, ttl_ns: u128) -> (s: Session)
        ensures
            exists|now: u128| s == (Session {
                id: session_id,
                account: account,
                state: AuthState::Authenticated,
                expires_at: expiry(now, ttl_ns),
            }),
            final(self)@ == old(self)@.insert(session_id@, s),
            old(self).clock() <= final(self).clock(),
            s.expires_at == expiry(final(self).clock(), ttl_ns),
    {
        let now = self.read_clock();
        let s = self.authenticate_until(account, session_id, now.saturating_add(ttl_ns));
        assert(s.expires_at == expiry(now, ttl_ns));
        s
    }

    /// Validates session `id` at time `now`: a session that has reached its
    /// expiry is marked expired and refused; otherwise the session, if any,
    /// is returned.
    pub fn validate_at(&mut self, id: &str, now: u128) -> (r: Option<&Session>)
        ensures
            final(self)@ == spec_validate(old(self)@, id@, now).0,
            r matches Some(s) ==> spec_validate(old(self)@, id@, now).1 == Some(*s),
            r is None ==> spec_validate(old(self)@, id@, now).1 is None,
            final(self).clock() == old(self).clock(),
    {
        let key = lit(id);
        let past = match self.sessions.get(&key) {
            Some(s) => s.expires_at <= now,
            None => false,
        };
        if past {
            let s = self.sessions.remove(&key).unwrap();
            let e = Session { id: s.id, account: s.account, state: AuthState::Expired, expires_at: s.expires_at };
            self.sessions.insert(key, e);
            proof {
                assert(final(self)@ =~= spec_validate(old(self)@, id@, now).0);
            }
            return None;
        }
        self.sessions.get(&key)
    }

    /// Validates session `id` against the monotonic clock now.
    pub fn validate(&mut self, id: &str) -> (r: Option<&Session>)
        ensures
            exists|now: u128| {
                &&& final(self)@ == spec_validate(old(self)@, id@, now).0
                &&& (r matches Some(s) ==> spec_validate(old(self)@, id@, now).1 == Some(*s))
                &&& (r is None ==> spec_validate(old(self)@, id@, now).1 is None)
            },
            old(self).clock() <= final(self).clock(),
            final(self)@ == spec_validate(old(self)@, id@, final(self).clock()).0,
            r matches Some(s) ==> spec_validate(old(self)@, id@, final(self).clock()).1 == Some(*s),
            r is None ==> spec_validate(old(self)@, id@, final(self).clock()).1 is None,
    {
        let now = self.read_clock();
        self.validate_at(id, now)
    }
    /// Marks every session that has reached its expiry at `now` as expired.
    pub fn expire_at(&mut self, now: u128)
        ensures
            final(self)@ == spec_expire(old(self)@, now),
            final(self).clock() == old(self).clock(),
    {
        proof {
            use_type_invariant(&self.sessions);
        }
        let ghost before = self.sessions;
        let ghost c0 = self.clock_ns;
        let n = self.sessions.len();
        for i in 0..n
            invariant
                before.wf(),
                self.clock_ns == c0,
                n == before.count(),
                self.sessions.count() == before.count(),
                forall|j: int| 0 <= j < n ==> #[trigger] self.sessions.key_at(j) == before.key_at(j),
                forall|j: int| 0 <= j < i ==> #[trigger] self.sessions.value_at(j) == (if is_past(before.value_at(j), now) {
                    expired(before.value_at(j))
                } else {
                    before.value_at(j)
                }),
                forall|j: int| i <= j < n ==> #[trigger] self.sessions.value_at(j) == before.value_at(j),
        {
            let s = self.sessions.value(i);
            if s.expires_at <= now {
                let e = Session { id: s.id.clone(), account: s.account.copy(), state: AuthState::Expired, expires_at: s.expires_at };
                self.sessions.set_value(i, e);
            }
        }
        proof {
            use_type_invariant(&self.sessions);
            let after = self.sessions;
            before.lemma_keys();
            after.lemma_keys();
            let target = spec_expire(before@, now);
            assert forall|k: Seq<char>| #![auto] after@.contains_key(k) == target.contains_key(k) by {
                if after@.contains_key(k) {
                    let j = choose|j: int| 0 <= j < after.count() && #[trigger] after.key_at(j) == k;
                    assert(before.key_at(j) == k);
                }
                if before@.contains_key(k) {
                    let j = choose|j: int| 0 <= j < before.count() && #[trigger] before.key_at(j) == k;
                    assert(after.key_at(j) == k);
                }
            }
            assert forall|k: Seq<char>| after@.contains_key(k) implies #[trigger] after@[k] == target[k] by {
                let j = choose|j: int| 0 <= j < after.count() && #[trigger] after.key_at(j) == k;
                after.lemma_entry(j);
                before.lemma_entry(j);
            }
            assert(after@ =~= target);
        }
    }

    /// Marks every session that has reached its expiry, by the monotonic
    /// clock now, as expired.
    pub fn expire(&mut self)
        ensures
            exists|now: u128| final(self)@ == spec_expire(old(self)@, now),
            old(self).clock() <= final(self).clock(),
            final(self)@ == spec_expire(old(self)@, final(self).clock()),
    {
        let now = self.read_clock();
        self.expire_at(now);
    }
}

impl Default for AuthService {
    fn default() -> (a: AuthService)
        ensures
            a@ == Map::<Seq<char>, Session>::empty(),
    {
        AuthService::new()
    }
}


/// A session granted with an expiry later than `now` validates at `now`,
/// and validation gives back exactly the granted session and changes nothing.
pub proof fn law_granted_session_validates(m: Map<Seq<char>, Session>, s: Session, now: u128)
    requires
        now < s.expires_at,
    ensures
        spec_validate(m.insert(s.id@, s), s.id@, now) == (m.insert(s.id@, s), Some(s)),
{
}

/// A session granted at `t0` for `ttl_ns` nanoseconds validates, unchanged,
/// at every time before `t0 + ttl_ns`, and is refused from then on (times
/// past the largest `u128` left aside).
pub proof fn law_session_lives_for_its_ttl(m: Map<Seq<char>, Session>, s: Session, t0: u128, ttl_ns: u128, t: u128)
    requires
        s.expires_at == expiry(t0, ttl_ns),
        t0 + ttl_ns <= u128::MAX,
    ensures
        t < t0 + ttl_ns ==> spec_validate(m.insert(s.id@, s), s.id@, t) == (m.insert(s.id@, s), Some(s)),
        t >= t0 + ttl_ns ==> spec_validate(m.insert(s.id@, s), s.id@, t).1 is None,
{
}

/// A session granted on the service clock lives for its ttl on that clock:
/// granted when the clock read `t0` (so expiring at `expiry(t0, ttl_ns)`),
/// it validates, unchanged, at every later reading of the same clock before
/// `t0 + ttl_ns` (validation reads the clock at or after `t0`), and is
/// refused from then on.
pub proof fn law_granted_session_validates_on_the_service_clock(
    granted: AuthService,
    s: Session,
    ttl_ns: u128,
    t: u128,
)
    requires
        granted@.contains_key(s.id@),
        granted@[s.id@] == s,
        s.expires_at == expiry(granted.clock(), ttl_ns),
        granted.clock() <= t,
        granted.clock() + ttl_ns <= u128::MAX,
    ensures
        t < granted.clock() + ttl_ns ==> spec_validate(granted@, s.id@, t) == (granted@, Some(s)),
        t >= granted.clock() + ttl_ns ==> spec_validate(granted@, s.id@, t).1 is None,
        ttl_ns > 0 ==> spec_validate(granted@, s.id@, granted.clock()) == (granted@, Some(s)),
{
    assert(granted@.insert(s.id@, s) =~= granted@);
}

/// A session refused for its expiry stays refused at every later time.
pub proof fn law_expiry_is_permanent(m: Map<Seq<char>, Session>, k: Seq<char>, t1: u128, t2: u128)
    requires
        t1 <= t2,
        m.contains_key(k),
        is_past(m[k], t1),
    ensures
        spec_validate(m, k, t1).1 is None,
        spec_validate(spec_validate(m, k, t1).0, k, t2).1 is None,
        spec_validate(spec_validate(m, k, t1).0, k, t2).0[k].state == AuthState::Expired,
{
}

/// An unknown session id is refused and changes nothing.
pub proof fn law_unknown_session_refused(m: Map<Seq<char>, Session>, k: Seq<char>, now: u128)
    requires
        !m.contains_key(k),
    ensures
        spec_validate(m, k, now) == (m, None::<Session>),
{
}

/// After expiry at `now`, every session that validation at `now` returns is
/// one that expiry left untouched, and every session refused for its expiry
/// is marked expired; the set of sessions does not change.
pub proof fn law_expire_agrees_with_validate(m: Map<Seq<char>, Session>, k: Seq<char>, now: u128)
    requires
        m.contains_key(k),
    ensures
        spec_expire(m, now).dom() == m.dom(),
        spec_validate(m, k, now).1 is None <==> spec_expire(m, now)[k].state == AuthState::Expired && is_past(m[k], now),
        spec_validate(m, k, now).0[k] == spec_expire(m, now)[k],
{
    assert(spec_expire(m, now).dom() =~= m.dom());
}

} // verus!
