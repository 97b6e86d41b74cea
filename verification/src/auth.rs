//! Admin sessions. A login with the deployment's admin token opens a session
//! under a random key; the cookie carries that key in URL-safe base64, and a
//! session is valid until it expires or is logged out.
use std::time::Instant;

use vstd::prelude::*;

use crate::error::Error;
use crate::tokens::{
    base64_url_decoding, base64_url_encoding, constant_time_eq, decode_url_safe, encode_url_safe,
    random_key,
};

verus! {

#[verifier::external_type_specification]
#[verifier::external_body]
pub struct ExInstant(std::time::Instant);

/// How long a session lasts, in seconds (seven days).
pub const SESSION_TTL_SECS: u64 = 604800;

/// How long a session lasts, in nanoseconds.
pub const SESSION_TTL_NANOS: u128 = 604800000000000;

/// Proof that a request comes from a logged-in admin. Its field is private,
/// so only `AuthService::validate` can make one.
pub struct Admin(());

/// An open session, as handed to the browser.
pub struct Session {
    token: String,
}

struct SessionRecord {
    key: Vec<u8>,
    expires_at: u128,
}

/// The admin token of the deployment and the open sessions, each with the
/// time it expires, in nanoseconds since the service started; `clock` is the
/// latest reading of the clock that a login or a validation acted on.
pub struct AuthService {
    sessions: Vec<SessionRecord>,
    admin_token: String,
    started: Instant,
    clock: u128,
}

/// The end of a session opened at `now`; a clock that would run past the
/// largest representable time stays there.
pub open spec fn expiry_after(now: u128) -> u128 {
    if now + SESSION_TTL_NANOS <= u128::MAX {
        (now + SESSION_TTL_NANOS) as u128
    } else {
        u128::MAX
    }
}

/// The session key a cookie value names: the 32 bytes that it decodes to.
pub open spec fn session_key(token: Seq<char>) -> Option<Seq<u8>> {
    match base64_url_decoding(token) {
        Some(bytes) => if bytes.len() == 32 {
            Some(bytes)
        } else {
            None
        },
        None => None,
    }
}

/// What a cookie value amounts to at time `now`, given the open sessions.
pub enum SessionCheck {
    /// It names an open session that has not expired.
    Valid,
    /// It is not the encoding of a session key.
    Malformed,
    /// It names no open session.
    Unknown,
    /// It names a session that has expired.
    Expired,
}

pub open spec fn check_session(sessions: Map<Seq<u8>, u128>, token: Seq<char>, now: u128) -> SessionCheck {
    match session_key(token) {
        None => SessionCheck::Malformed,
        Some(key) => if !sessions.contains_key(key) {
            SessionCheck::Unknown
        } else if sessions[key] > now {
            SessionCheck::Valid
        } else {
            SessionCheck::Expired
        },
    }
}

/// The open sessions after a check: an expired session is dropped, every
/// other check leaves them as they were.
pub open spec fn sessions_after_check(sessions: Map<Seq<u8>, u128>, token: Seq<char>, now: u128) -> Map<
    Seq<u8>,
    u128,
> {
    match check_session(sessions, token, now) {
        SessionCheck::Expired => sessions.remove(session_key(token).unwrap()),
        _ => sessions,
    }
}

/// The open sessions of a list of records, each key mapped to its expiry.
spec fn records_map(s: Seq<SessionRecord>) -> Map<Seq<u8>, u128> {
    Map::new(
        |k: Seq<u8>| exists|i: int| 0 <= i < s.len() && s[i].key@ == k,
        |k: Seq<u8>| s[choose|i: int| 0 <= i < s.len() && s[i].key@ == k].expires_at,
    )
}

spec fn keys_distinct(s: Seq<SessionRecord>) -> bool {
    forall|i: int, j: int|
        0 <= i < s.len() && 0 <= j < s.len() && i != j ==> (#[trigger] s[i]).key@ != (#[trigger] s[j]).key@
}

proof fn lemma_records_map_at(s: Seq<SessionRecord>, i: int)
    requires
        keys_distinct(s),
        0 <= i < s.len(),
    ensures
        records_map(s).contains_key(s[i].key@),
        records_map(s)[s[i].key@] == s[i].expires_at,
{
    let k = s[i].key@;
    assert(0 <= i < s.len() && s[i].key@ == k);
    let j = choose|j: int| 0 <= j < s.len() && s[j].key@ == k;
    assert(s[j].key@ == k);
}

/// `Instant::now`: the current instant of the monotonic clock.
#[verifier::external_body]
fn instant_now() -> (r: Instant) {
    Instant::now()
}

/// `Instant::elapsed` as whole nanoseconds: the time since `start` on the
/// monotonic clock, which depends on when the call is made.
#[verifier::external_body]
fn nanos_since(start: &Instant) -> (r: u128) {
    start.elapsed().as_nanos()
}

fn keys_equal(a: &Vec<u8>, b: &Vec<u8>) -> (r: bool)
    ensures
        r == (a@ == b@),
{
    if a.len() != b.len() {
        return false;
    }
    let mut i: usize = 0;
    while i < a.len()
        invariant
            a@.len() == b@.len(),
            i <= a@.len(),
            forall|j: int| 0 <= j < i ==> a@[j] == b@[j],
        decreases a@.len() - i,
    {
        if a[i] != b[i] {
            return false;
        }
        i = i + 1;
    }
    assert(a@ =~= b@);
    true
}

impl Session {
    /// The cookie value that names this session.
    pub closed spec fn token_view(&self) -> Seq<char> {
        self.token@
    }

    /// The value to put in the cookie.
    pub fn token(&self) -> (r: &str)
        ensures
            r@ == self.token_view(),
    {
        self.token.as_str()
    }
}

impl AuthService {
    #[verifier::type_invariant]
    spec fn well_formed(self) -> bool {
        &&& keys_distinct(self.sessions@)
        &&& forall|i: int| 0 <= i < self.sessions@.len() ==> (#[trigger] self.sessions@[i]).key@.len() == 32
    }

    /// The open sessions: each session key with the time it expires.
    pub closed spec fn sessions(&self) -> Map<Seq<u8>, u128> {
        records_map(self.sessions@)
    }

    /// The admin token a login must present.
    pub closed spec fn admin_token(&self) -> Seq<char> {
        self.admin_token@
    }

    /// The latest clock reading, in nanoseconds since the service started,
    /// at which a session was opened or checked; 0 before the first.
    pub closed spec fn latest_reading(&self) -> u128 {
        self.clock
    }

    /// A service for the deployment's admin token, with no open session.
    pub fn new(admin_token: &str) -> (r: AuthService)
        ensures
            r.admin_token() == admin_token@,
            r.sessions() == Map::<Seq<u8>, u128>::empty(),
            r.latest_reading() == 0,
    {
        let r = AuthService {
            sessions: Vec::new(),
            admin_token: String::from_str(admin_token),
            started: instant_now(),
            clock: 0,
        };
        assert(r.sessions() =~= Map::<Seq<u8>, u128>::empty());
        r
    }

    fn find(&self, key: &Vec<u8>) -> (r: Option<usize>)
        ensures
            match r {
                Some(i) => i < self.sessions@.len() && self.sessions@[i as int].key@ == key@,
                None => !self.sessions().contains_key(key@),
            },
    {
        let mut i: usize = 0;
        while i < self.sessions.len()
            invariant
                i <= self.sessions@.len(),
                forall|j: int| 0 <= j < i ==> (#[trigger] self.sessions@[j]).key@ != key@,
            decreases self.sessions@.len() - i,
        {
            if keys_equal(&self.sessions[i].key, key) {
                return Some(i);
            }
            i = i + 1;
        }
        None
    }

    /// Opens a session under `key` that expires a session lifetime after
    /// `now`, replacing any session already open under that key, and returns
    /// the cookie value that names it.
    pub fn start_session(&mut self, key: Vec<u8>, now: u128) -> (r: Session)
        requires
            key@.len() == 32,
        ensures
            final(self).sessions() == old(self).sessions().insert(key@, expiry_after(now)),
            final(self).admin_token() == old(self).admin_token(),
            final(self).latest_reading() == old(self).latest_reading(),
            r.token_view() == base64_url_encoding(true, key@),
            r.token_view().len() == 44,
            base64_url_decoding(r.token_view()) == Some(key@),
    {
        proof {
            use_type_invariant(&*self);
        }
        let token = encode_url_safe(key.as_slice());
        let expires_at = now.saturating_add(SESSION_TTL_NANOS);
        let ghost old_records = self.sessions@;
        let ghost k = key@;
        match self.find(&key) {
            Some(i) => {
                let record = SessionRecord { key, expires_at };
                let mut sessions: Vec<SessionRecord> = Vec::new();
                std::mem::swap(&mut sessions, &mut self.sessions);
                sessions.set(i, record);
                proof {
                    let s = sessions@;
                    assert(keys_distinct(s)) by {
                        assert forall|a: int, b: int|
                            0 <= a < s.len() && 0 <= b < s.len() && a != b implies (#[trigger] s[a]).key@
                            != (#[trigger] s[b]).key@ by {
                            assert(a != i ==> s[a] == old_records[a]);
                            assert(b != i ==> s[b] == old_records[b]);
                        }
                    }
                    assert forall|x: Seq<u8>| #[trigger] records_map(s).contains_key(x)
                        == records_map(old_records).insert(k, expires_at).contains_key(x) by {
                        assert(s[i as int].key@ == k);
                        if x == k {
                            assert(0 <= i < s.len() && s[i as int].key@ == x);
                        }
                        if records_map(old_records).contains_key(x) {
                            let j = choose|j: int| 0 <= j < old_records.len() && old_records[j].key@ == x;
                            assert(j != i ==> s[j] == old_records[j]);
                        }
                        if records_map(s).contains_key(x) {
                            let j = choose|j: int| 0 <= j < s.len() && s[j].key@ == x;
                            assert(j != i ==> s[j] == old_records[j]);
                        }
                    }
                    assert forall|x: Seq<u8>| #[trigger] records_map(s).contains_key(x) implies records_map(
                        s,
                    )[x] == records_map(old_records).insert(k, expires_at)[x] by {
                        let j = choose|j: int| 0 <= j < s.len() && s[j].key@ == x;
                        lemma_records_map_at(s, j);
                        if j != i {
                            assert(s[j] == old_records[j]);
                            lemma_records_map_at(old_records, j);
                        }
                    }
                    assert(records_map(s) =~= records_map(old_records).insert(k, expires_at));
                }
                self.sessions = sessions;
            },
            None => {
                let record = SessionRecord { key, expires_at };
                let mut sessions: Vec<SessionRecord> = Vec::new();
                std::mem::swap(&mut sessions, &mut self.sessions);
                sessions.push(record);
                proof {
                    let s = sessions@;
                    let n = old_records.len();
                    assert(s[n as int].key@ == k);
                    assert(keys_distinct(s)) by {
                        assert forall|a: int, b: int|
                            0 <= a < s.len() && 0 <= b < s.len() && a != b implies (#[trigger] s[a]).key@
                            != (#[trigger] s[b]).key@ by {
                            if a < n && b < n {
                                assert(s[a] == old_records[a] && s[b] == old_records[b]);
                            } else if a < n {
                                assert(s[a] == old_records[a]);
                                assert(old_records[a].key@ != k);
                            } else {
                                assert(s[b] == old_records[b]);
                                assert(old_records[b].key@ != k);
                            }
                        }
                    }
                    assert forall|x: Seq<u8>| #[trigger] records_map(s).contains_key(x)
                        == records_map(old_records).insert(k, expires_at).contains_key(x) by {
                        if records_map(old_records).contains_key(x) {
                            let j = choose|j: int| 0 <= j < old_records.len() && old_records[j].key@ == x;
                            assert(s[j] == old_records[j]);
                        }
                        if records_map(s).contains_key(x) {
                            let j = choose|j: int| 0 <= j < s.len() && s[j].key@ == x;
                            assert(j < n ==> s[j] == old_records[j]);
                        }
                    }
                    assert forall|x: Seq<u8>| #[trigger] records_map(s).contains_key(x) implies records_map(
                        s,
                    )[x] == records_map(old_records).insert(k, expires_at)[x] by {
                        let j = choose|j: int| 0 <= j < s.len() && s[j].key@ == x;
                        lemma_records_map_at(s, j);
                        if j < n {
                            assert(s[j] == old_records[j]);
                            lemma_records_map_at(old_records, j);
                        }
                    }
                    assert(records_map(s) =~= records_map(old_records).insert(k, expires_at));
                }
                self.sessions = sessions;
            },
        }
        Session { token }
    }

    /// Closes the session under `key`, if one is open.
    fn end_session(&mut self, key: &Vec<u8>)
        ensures
            final(self).sessions() == old(self).sessions().remove(key@),
            final(self).admin_token() == old(self).admin_token(),
            final(self).latest_reading() == old(self).latest_reading(),
    {
        proof {
            use_type_invariant(&*self);
        }
        let ghost old_records = self.sessions@;
        let ghost k = key@;
        match self.find(key) {
            None => {
                assert(old(self).sessions() =~= old(self).sessions().remove(key@));
            },
            Some(i) => {
                let mut sessions: Vec<SessionRecord> = Vec::new();
                std::mem::swap(&mut sessions, &mut self.sessions);
                let _removed = sessions.swap_remove(i);
                proof {
                    let s = sessions@;
                    let n = old_records.len();
                    // After `swap_remove`, index `i` holds what was last (unless `i` was last).
                    assert forall|a: int| 0 <= a < s.len() implies #[trigger] s[a] == (if a == i {
                        old_records[n - 1]
                    } else {
                        old_records[a]
                    }) by {}
                    assert(keys_distinct(s)) by {
                        assert forall|a: int, b: int|
                            0 <= a < s.len() && 0 <= b < s.len() && a != b implies (#[trigger] s[a]).key@
                            != (#[trigger] s[b]).key@ by {
                            let oa = if a == i { n - 1 } else { a };
                            let ob = if b == i { n - 1 } else { b };
                            assert(s[a] == old_records[oa] && s[b] == old_records[ob]);
                        }
                    }
                    assert forall|x: Seq<u8>| #[trigger] records_map(s).contains_key(x)
                        == records_map(old_records).remove(k).contains_key(x) by {
                        if records_map(old_records).contains_key(x) && x != k {
                            let j = choose|j: int| 0 <= j < old_records.len() && old_records[j].key@ == x;
                            assert(j != i);
                            if j == n - 1 {
                                assert(s[i as int] == old_records[j]);
                            } else {
                                assert(s[j] == old_records[j]);
                            }
                        }
                        if records_map(s).contains_key(x) {
                            let j = choose|j: int| 0 <= j < s.len() && s[j].key@ == x;
                            let oj = if j == i { n - 1 } else { j };
                            assert(s[j] == old_records[oj]);
                            assert(oj != i);
                        }
                    }
                    assert forall|x: Seq<u8>| #[trigger] records_map(s).contains_key(x) implies records_map(
                        s,
                    )[x] == records_map(old_records).remove(k)[x] by {
                        let j = choose|j: int| 0 <= j < s.len() && s[j].key@ == x;
                        let oj = if j == i { n - 1 } else { j };
                        assert(s[j] == old_records[oj]);
                        lemma_records_map_at(s, j);
                        lemma_records_map_at(old_records, oj);
                    }
                    assert(records_map(s) =~= records_map(old_records).remove(k));
                }
                self.sessions = sessions;
            },
        }
    }

    /// Reads the clock: the time since the service started, in nanoseconds,
    /// never earlier than a reading acted on before. `Instant` promises that
    /// (barring platform bugs), so this is the reading itself; keeping the
    /// latest reading makes it hold whatever the platform does.
    fn read_clock(&mut self) -> (now: u128)
        ensures
            now >= old(self).latest_reading(),
            final(self).latest_reading() == now,
            final(self).sessions() == old(self).sessions(),
            final(self).admin_token() == old(self).admin_token(),
    {
        proof {
            use_type_invariant(&*self);
        }
        let reading = nanos_since(&self.started);
        let now = if reading > self.clock {
            reading
        } else {
            self.clock
        };
        self.clock = now;
        now
    }

    /// Logs in with `admin_token`: when it is the deployment's admin token a
    /// session is opened under a fresh random key and returned, otherwise the
    /// login is refused and nothing changes. The tokens are compared in
    /// constant time. The session is opened at the current clock reading,
    /// which is no earlier than any reading acted on before, and lasts a
    /// session lifetime from then.
    pub fn login(&mut self, admin_token: &str) -> (r: Result<Session, Error>)
        ensures
            r is Ok <==> admin_token@ == old(self).admin_token(),
            final(self).admin_token() == old(self).admin_token(),
            r is Err ==> r == Err::<Session, Error>(Error::Unauthorized) && final(self).sessions()
                == old(self).sessions() && final(self).latest_reading() == old(self).latest_reading(),
            r is Ok ==> final(self).latest_reading() >= old(self).latest_reading(),
            r matches Ok(s) ==> exists|key: Seq<u8>|
                {
                    &&& key.len() == 32
                    &&& s.token_view().len() == 44
                    &&& s.token_view() == base64_url_encoding(true, key)
                    &&& base64_url_decoding(s.token_view()) == Some(key)
                    &&& final(self).sessions() == old(self).sessions().insert(
                        key,
                        expiry_after(final(self).latest_reading()),
                    )
                },
    {
        if !constant_time_eq(self.admin_token.as_str(), admin_token) {
            return Err(Error::Unauthorized);
        }
        let now = self.read_clock();
        let key = random_key();
        let ghost k = key@;
        let session = self.start_session(key, now);
        assert(k.len() == 32);
        Ok(session)
    }

    /// Logs out the session that `session_token` names. A value that is not
    /// the encoding of a session key is refused as malformed; logging out a
    /// session that is not open succeeds and changes nothing.
    pub fn logout(&mut self, session_token: &str) -> (r: Result<(), Error>)
        ensures
            final(self).admin_token() == old(self).admin_token(),
            match session_key(session_token@) {
                None => r == Err::<(), Error>(Error::BadToken) && final(self).sessions() == old(
                    self,
                ).sessions(),
                Some(key) => r is Ok && final(self).sessions() == old(self).sessions().remove(key),
            },
            final(self).latest_reading() == old(self).latest_reading(),
    {
        let key = match decode_url_safe(session_token) {
            Some(bytes) => bytes,
            None => return Err(Error::BadToken),
        };
        if key.len() != 32 {
            return Err(Error::BadToken);
        }
        self.end_session(&key);
        Ok(())
    }

    /// Checks the session that `session_token` names at time `now`: it is
    /// valid while open and unexpired; an expired session is dropped.
    pub fn validate_at(&mut self, session_token: &str, now: u128) -> (r: Result<Admin, Error>)
        ensures
            final(self).admin_token() == old(self).admin_token(),
            final(self).sessions() == sessions_after_check(old(self).sessions(), session_token@, now),
            final(self).latest_reading() == old(self).latest_reading(),
            match check_session(old(self).sessions(), session_token@, now) {
                SessionCheck::Valid => r is Ok,
                SessionCheck::Malformed => r == Err::<Admin, Error>(Error::BadToken),
                SessionCheck::Unknown => r == Err::<Admin, Error>(Error::Unauthorized),
                SessionCheck::Expired => r == Err::<Admin, Error>(Error::Unauthorized),
            },
    {
        proof {
            use_type_invariant(&*self);
        }
        let key = match decode_url_safe(session_token) {
            Some(bytes) => bytes,
            None => return Err(Error::BadToken),
        };
        if key.len() != 32 {
            return Err(Error::BadToken);
        }
        match self.find(&key) {
            None => Err(Error::Unauthorized),
            Some(i) => {
                let expires_at = self.sessions[i].expires_at;
                proof {
                    lemma_records_map_at(self.sessions@, i as int);
                }
                if expires_at > now {
                    return Ok(Admin(()));
                }
                self.end_session(&key);
                Err(Error::Unauthorized)
            },
        }
    }

    /// Checks the session that `session_token` names at the current clock
    /// reading, which is no earlier than any reading acted on before (so no
    /// earlier than the login that opened it); see `validate_at`.
    pub fn validate(&mut self, session_token: &str) -> (r: Result<Admin, Error>)
        ensures
            final(self).admin_token() == old(self).admin_token(),
            final(self).latest_reading() >= old(self).latest_reading(),
            final(self).sessions() == sessions_after_check(
                old(self).sessions(),
                session_token@,
                final(self).latest_reading(),
            ),
            match check_session(old(self).sessions(), session_token@, final(self).latest_reading()) {
                SessionCheck::Valid => r is Ok,
                SessionCheck::Malformed => r == Err::<Admin, Error>(Error::BadToken),
                _ => r == Err::<Admin, Error>(Error::Unauthorized),
            },
    {
        let now = self.read_clock();
        self.validate_at(session_token, now)
    }
}

} // verus!

verus! {

/// A session opened at `now` under `key` is accepted, for the cookie value
/// that encodes `key`, at every time before it expires, and the check leaves
/// the sessions as they were.
pub proof fn law_session_valid_until_expiry(
    sessions: Map<Seq<u8>, u128>,
    key: Seq<u8>,
    token: Seq<char>,
    now: u128,
    later: u128,
)
    requires
        key.len() == 32,
        base64_url_decoding(token) == Some(key),
        later < expiry_after(now),
    ensures
        check_session(sessions.insert(key, expiry_after(now)), token, later) == SessionCheck::Valid,
        sessions_after_check(sessions.insert(key, expiry_after(now)), token, later) == sessions.insert(
            key,
            expiry_after(now),
        ),
{
}

/// From the moment a session expires, its cookie value is refused, and the
/// check drops the session.
pub proof fn law_session_expires(
    sessions: Map<Seq<u8>, u128>,
    key: Seq<u8>,
    token: Seq<char>,
    now: u128,
    later: u128,
)
    requires
        key.len() == 32,
        base64_url_decoding(token) == Some(key),
        later >= expiry_after(now),
    ensures
        check_session(sessions.insert(key, expiry_after(now)), token, later) == SessionCheck::Expired,
        sessions_after_check(sessions.insert(key, expiry_after(now)), token, later) == sessions.remove(
            key,
        ),
{
    assert(sessions.insert(key, expiry_after(now)).remove(key) =~= sessions.remove(key));
}

/// A session that a login opened at clock reading `opened_at` is accepted by
/// a check at any reading before a session lifetime has passed since then,
/// and refused from the moment one has; `login` and `validate` act on
/// readings that never go back, so the check comes no earlier than the login.
pub proof fn law_login_lasts_one_lifetime(
    sessions: Map<Seq<u8>, u128>,
    key: Seq<u8>,
    token: Seq<char>,
    opened_at: u128,
    checked_at: u128,
)
    requires
        key.len() == 32,
        base64_url_decoding(token) == Some(key),
    ensures
        checked_at < opened_at + SESSION_TTL_NANOS && checked_at < u128::MAX ==> check_session(
            sessions.insert(key, expiry_after(opened_at)),
            token,
            checked_at,
        ) == SessionCheck::Valid,
        checked_at >= opened_at + SESSION_TTL_NANOS ==> check_session(
            sessions.insert(key, expiry_after(opened_at)),
            token,
            checked_at,
        ) == SessionCheck::Expired,
{
}

/// After logging out, the cookie value names no open session, at any time.
pub proof fn law_logout_ends_session(sessions: Map<Seq<u8>, u128>, token: Seq<char>, now: u128)
    requires
        session_key(token) is Some,
    ensures
        check_session(sessions.remove(session_key(token).unwrap()), token, now) == SessionCheck::Unknown,
{
}

/// A cookie value refused as unknown or expired stays refused: once the check
/// has run, no later check accepts it.
pub proof fn law_refusal_is_final(
    sessions: Map<Seq<u8>, u128>,
    token: Seq<char>,
    now: u128,
    later: u128,
)
    requires
        check_session(sessions, token, now) == SessionCheck::Unknown || check_session(
            sessions,
            token,
            now,
        ) == SessionCheck::Expired,
    ensures
        check_session(sessions_after_check(sessions, token, now), token, later)
            == SessionCheck::Unknown,
{
}

/// A value that is not the encoding of a session key is malformed whatever
/// sessions are open, and checking it changes nothing.
pub proof fn law_malformed_tokens_are_refused(
    sessions: Map<Seq<u8>, u128>,
    token: Seq<char>,
    now: u128,
)
    requires
        session_key(token) is None,
    ensures
        check_session(sessions, token, now) == SessionCheck::Malformed,
        sessions_after_check(sessions, token, now) == sessions,
{
}

/// A check never opens a session nor moves an expiry: the sessions after it
/// are some of those before it, unchanged.
pub proof fn law_check_never_extends(sessions: Map<Seq<u8>, u128>, token: Seq<char>, now: u128)
    ensures
        forall|k: Seq<u8>| #[trigger]
            sessions_after_check(sessions, token, now).contains_key(k) ==> sessions.contains_key(k)
                && sessions_after_check(sessions, token, now)[k] == sessions[k],
{
}

/// The session cookie is given the lifetime of the server-side session, so
/// the two cannot disagree about whether the admin is logged in.
pub proof fn law_cookie_lives_as_long_as_the_session()
    ensures
        SESSION_TTL_NANOS == SESSION_TTL_SECS as u128 * 1_000_000_000,
{
}

} // verus!
