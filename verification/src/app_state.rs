//! The companion's shared state: the origins it trusts, the one-shot pairing
//! session that a deep link arms and a websocket handshake consumes, and the
//! loopback port the bridge listens on.
//!
//! Time is read from a monotonic clock that starts when the state is made;
//! a session's expiry is a number of nanoseconds on that clock.
use vstd::prelude::*;

use crate::clock::{as_nanos, clock_start, elapsed};
use crate::seq_facts::{lemma_insert_to_set, lemma_push_to_set};
use crate::text::{
    chars_eq, chars_less, chars_lt, chars_of, lemma_chars_lt_irreflexive, lemma_chars_lt_total,
    lemma_chars_lt_transitive, push_str_chars, split, split_chars, starts_with, str_eq, string_of, trim,
    trim_chars, views,
};

verus! {

/// How long an armed pairing session stays valid, in nanoseconds.
pub const SESSION_TTL_NS: u128 = 300_000_000_000;

/// A pairing session armed by a deep link and not yet consumed.
#[derive(Clone, Debug)]
pub struct PendingSession {
    pub nonce: String,
    pub origin: String,
    /// The clock reading, in nanoseconds, after which the session is expired.
    pub expires_at_ns: u128,
}

/// What a pending session holds.
pub struct SessionView {
    pub nonce: Seq<char>,
    pub origin: Seq<char>,
    pub expires_at_ns: u128,
}

impl View for PendingSession {
    type V = SessionView;

    open spec fn view(&self) -> SessionView {
        SessionView { nonce: self.nonce@, origin: self.origin@, expires_at_ns: self.expires_at_ns }
    }
}

/// Whether the local League client can be reached.
#[derive(Clone, Copy, Debug, PartialEq, Eq, Structural)]
pub enum LcuConnectionStatus {
    Disconnected,
    Connecting,
    Connected,
}

/// Why a session could not be armed or verified.
#[derive(Clone, Debug)]
pub enum SessionError {
    /// The deep link's origin is not in the allowlist.
    OriginNotAllowed(String),
    /// No session is armed.
    NoActiveSession,
    /// The armed session has expired.
    Expired,
    /// The handshake's nonce is not the armed one.
    NonceMismatch,
    /// The handshake claims another origin than the deep link gave.
    ClaimedOriginMismatch,
    /// The websocket's `Origin` header is not the paired origin.
    HeaderOriginMismatch,
    /// The paired origin is not in the allowlist.
    OriginNotInAllowlist,
}

/// A session error, with the origin it names as characters.
pub enum SessionErrorView {
    OriginNotAllowed(Seq<char>),
    NoActiveSession,
    Expired,
    NonceMismatch,
    ClaimedOriginMismatch,
    HeaderOriginMismatch,
    OriginNotInAllowlist,
}

impl View for SessionError {
    type V = SessionErrorView;

    open spec fn view(&self) -> SessionErrorView {
        match self {
            SessionError::OriginNotAllowed(o) => SessionErrorView::OriginNotAllowed(o@),
            SessionError::NoActiveSession => SessionErrorView::NoActiveSession,
            SessionError::Expired => SessionErrorView::Expired,
            SessionError::NonceMismatch => SessionErrorView::NonceMismatch,
            SessionError::ClaimedOriginMismatch => SessionErrorView::ClaimedOriginMismatch,
            SessionError::HeaderOriginMismatch => SessionErrorView::HeaderOriginMismatch,
            SessionError::OriginNotInAllowlist => SessionErrorView::OriginNotInAllowlist,
        }
    }
}

impl SessionErrorView {
    /// The text the user is shown for this error.
    pub open spec fn text(self) -> Seq<char> {
        match self {
            SessionErrorView::OriginNotAllowed(o) => "Origin ["@ + o + "] is not allowed."@,
            SessionErrorView::NoActiveSession => "No active import session is registered."@,
            SessionErrorView::Expired => "The import session expired. Re-open Scrimora Link."@,
            SessionErrorView::NonceMismatch => "The import nonce does not match the active session."@,
            SessionErrorView::ClaimedOriginMismatch =>
                "The claimed origin does not match the deep-link origin."@,
            SessionErrorView::HeaderOriginMismatch =>
                "The websocket Origin header did not match the paired site."@,
            SessionErrorView::OriginNotInAllowlist =>
                "The requesting origin is not in the allowlist."@,
        }
    }
}

impl SessionError {
    /// The text the user is shown for this error.
    pub fn message(&self) -> (r: String)
        ensures
            r@ == self@.text(),
    {
        match self {
            SessionError::OriginNotAllowed(o) => {
                let mut s = String::from_str("Origin [");
                push_str_chars(&mut s, o.as_str());
                push_str_chars(&mut s, "] is not allowed.");
                s
            },
            SessionError::NoActiveSession => String::from_str("No active import session is registered."),
            SessionError::Expired => String::from_str("The import session expired. Re-open Scrimora Link."),
            SessionError::NonceMismatch => String::from_str("The import nonce does not match the active session."),
            SessionError::ClaimedOriginMismatch => String::from_str(
                "The claimed origin does not match the deep-link origin.",
            ),
            SessionError::HeaderOriginMismatch => String::from_str(
                "The websocket Origin header did not match the paired site.",
            ),
            SessionError::OriginNotInAllowlist => String::from_str("The requesting origin is not in the allowlist."),
        }
    }
}

/// The shared state of the companion.
pub struct AppState {
    allowed_origins: Vec<String>,
    pending_session: Option<PendingSession>,
    bridge_port: Option<u16>,
    clock: std::time::Instant,
    clock_floor_ns: u128,
    readings: Ghost<Seq<u128>>,
}

/// What the shared state holds.
pub struct AppStateView {
    /// The allowed origins, in increasing order, each once.
    pub allowed: Seq<Seq<char>>,
    pub pending: Option<SessionView>,
    pub bridge_port: Option<u16>,
    /// The latest clock reading the state has used (0 before any): readings
    /// of the same state never go back.
    pub clock_floor: u128,
    /// The clock readings the state has used, oldest first.
    pub readings: Seq<u128>,
}

/// The state `s` once the clock has been read at `now`.
pub open spec fn at_reading(s: AppStateView, now: u128) -> AppStateView {
    AppStateView { clock_floor: now, readings: s.readings.push(now), ..s }
}

impl View for AppState {
    type V = AppStateView;

    closed spec fn view(&self) -> AppStateView {
        AppStateView {
            allowed: self.allowed_origins@.map_values(|s: String| s@),
            pending: match self.pending_session {
                Some(p) => Some(p@),
                None => None,
            },
            bridge_port: self.bridge_port,
            clock_floor: self.clock_floor_ns,
            readings: self.readings@,
        }
    }
}

// ---------------------------------------------------------------------------
// The allowlist
// ---------------------------------------------------------------------------

/// The origins that are always allowed.
pub open spec fn base_origins() -> Seq<Seq<char>> {
    seq![
        "https://scrimora.app"@,
        "https://dev.scrimora.app"@,
        "http://localhost:3000"@,
        "http://127.0.0.1:3000"@,
        "http://localhost:5173"@,
        "http://127.0.0.1:5173"@,
        "https://localhost"@,
        "https://127.0.0.1"@,
    ]
}

/// Whether an origin is an HTTP or HTTPS one: it starts with `http://` or
/// `https://`.
pub open spec fn is_http_origin(o: Seq<char>) -> bool {
    "http://"@.is_prefix_of(o) || "https://"@.is_prefix_of(o)
}

/// The trimmed pieces of a list of pieces that are HTTP(S) origins.
pub open spec fn http_origins_trimmed(parts: Seq<Seq<char>>) -> Seq<Seq<char>>
    decreases parts.len(),
{
    if parts.len() == 0 {
        Seq::empty()
    } else {
        let rest = http_origins_trimmed(parts.drop_last());
        if is_http_origin(trim(parts.last())) {
            rest.push(trim(parts.last()))
        } else {
            rest
        }
    }
}

/// The origins named by a comma-separated list: each piece trimmed, pieces
/// that are not HTTP(S) origins (empty ones among them) left out.
pub open spec fn extra_origins(extra: Seq<char>) -> Seq<Seq<char>> {
    http_origins_trimmed(split(extra, ','))
}

/// Every origin that the allowlist is made from.
pub open spec fn origin_candidates(extra: Option<Seq<char>>) -> Seq<Seq<char>> {
    match extra {
        Some(e) => base_origins() + extra_origins(e),
        None => base_origins(),
    }
}

/// Whether a list of strings is in strictly increasing order.
pub open spec fn strictly_sorted(s: Seq<Seq<char>>) -> bool {
    forall|i: int, j: int| 0 <= i < j < s.len() ==> chars_lt(#[trigger] s[i], #[trigger] s[j])
}

/// Whether `list` is the allowlist made from `extra`: the candidates sorted,
/// each once.
pub open spec fn is_allowlist_for(list: Seq<Seq<char>>, extra: Option<Seq<char>>) -> bool {
    &&& strictly_sorted(list)
    &&& list.to_set() == origin_candidates(extra).to_set()
}

fn base_origin_list() -> (v: Vec<Vec<char>>)
    ensures
        views(v@) == base_origins(),
{
    let mut v: Vec<Vec<char>> = Vec::new();
    v.push(chars_of("https://scrimora.app"));
    v.push(chars_of("https://dev.scrimora.app"));
    v.push(chars_of("http://localhost:3000"));
    v.push(chars_of("http://127.0.0.1:3000"));
    v.push(chars_of("http://localhost:5173"));
    v.push(chars_of("http://127.0.0.1:5173"));
    v.push(chars_of("https://localhost"));
    v.push(chars_of("https://127.0.0.1"));
    assert(views(v@) =~= base_origins());
    v
}

/// The origins named by a comma-separated list.
fn extra_origin_list(extra: &str) -> (v: Vec<Vec<char>>)
    ensures
        views(v@) == extra_origins(extra@),
{
    let chars = chars_of(extra);
    let parts = split_chars(chars.as_slice(), ',');
    let mut v: Vec<Vec<char>> = Vec::new();
    let mut i: usize = 0;
    assert(views(parts@).take(0) =~= Seq::<Seq<char>>::empty());
    while i < parts.len()
        invariant
            i <= parts@.len(),
            views(parts@) == split(extra@, ','),
            views(v@) == http_origins_trimmed(views(parts@).take(i as int)),
        decreases parts@.len() - i,
    {
        let t = trim_chars(parts[i].as_slice());
        let ghost before = views(v@);
        assert(views(parts@).take(i + 1).drop_last() =~= views(parts@).take(i as int));
        assert(views(parts@).take(i + 1).last() == parts@[i as int]@);
        let http = starts_with(t.as_slice(), chars_of("http://").as_slice()) || starts_with(
            t.as_slice(),
            chars_of("https://").as_slice(),
        );
        if http {
            v.push(t);
            assert(views(v@) =~= before.push(t@));
        }
        i += 1;
    }
    assert(views(parts@).take(parts@.len() as int) =~= views(parts@));
    v
}

/// A copy of a character slice.
fn copy_chars(v: &[char]) -> (r: Vec<char>)
    ensures
        r@ == v@,
{
    let mut r: Vec<char> = Vec::new();
    let mut i: usize = 0;
    while i < v.len()
        invariant
            i <= v.len(),
            r@ == v@.take(i as int),
        decreases v.len() - i,
    {
        r.push(v[i]);
        i += 1;
        assert(r@ =~= v@.take(i as int));
    }
    assert(v@.take(v.len() as int) =~= v@);
    r
}

/// Inserts `x` into a strictly sorted list unless it is already there.
fn insert_sorted_unique(list: &mut Vec<Vec<char>>, x: Vec<char>)
    requires
        strictly_sorted(views(old(list)@)),
    ensures
        strictly_sorted(views(final(list)@)),
        views(final(list)@).to_set() == views(old(list)@).to_set().insert(x@),
{
    let ghost old_views = views(list@);
    let mut p: usize = 0;
    while p < list.len() && chars_less(list[p].as_slice(), x.as_slice())
        invariant
            p <= list@.len(),
            views(list@) == old_views,
            strictly_sorted(old_views),
            forall|k: int| 0 <= k < p ==> chars_lt(#[trigger] old_views[k], x@),
        decreases list@.len() - p,
    {
        p += 1;
    }
    assert(views(list@).len() == list@.len());
    if p < list.len() && chars_eq(list[p].as_slice(), x.as_slice()) {
        assert(old_views[p as int] == x@);
        assert(old_views.to_set().insert(x@) =~= old_views.to_set());
        return;
    }
    proof {
        if p < list@.len() {
            assert(old_views[p as int] == list@[p as int]@);
            lemma_chars_lt_total(old_views[p as int], x@);
        }
    }
    let ghost xv = x@;
    list.insert(p, x);
    let ghost new_views = views(list@);
    assert(new_views =~= old_views.insert(p as int, xv));
    assert forall|i: int, j: int| 0 <= i < j < new_views.len() implies chars_lt(
        #[trigger] new_views[i],
        #[trigger] new_views[j],
    ) by {
        if j < p {
        } else if j == p {
        } else if i < p {
            assert(new_views[j] == old_views[j - 1]);
            assert(chars_lt(xv, old_views[p as int]));
            if j - 1 > p {
                lemma_chars_lt_transitive(xv, old_views[p as int], old_views[j - 1]);
            }
            lemma_chars_lt_transitive(old_views[i], xv, old_views[j - 1]);
        } else if i == p {
            assert(new_views[j] == old_views[j - 1]);
            if j - 1 > p {
                lemma_chars_lt_transitive(xv, old_views[p as int], old_views[j - 1]);
            }
        } else {
            assert(new_views[i] == old_views[i - 1]);
            assert(new_views[j] == old_views[j - 1]);
        }
    }
    proof {
        lemma_insert_to_set(old_views, p as int, xv);
    }
}

/// The allowlist made from the base origins and the comma-separated `extra`:
/// sorted, each origin once.
pub fn allowed_origin_list(extra: Option<&str>) -> (v: Vec<String>)
    ensures
        is_allowlist_for(v@.map_values(|s: String| s@), match extra {
            Some(e) => Some(e@),
            None => None,
        }),
{
    let ghost extra_view: Option<Seq<char>> = match extra {
        Some(e) => Some(e@),
        None => None,
    };
    let base = base_origin_list();
    let candidates: Vec<Vec<char>> = match extra {
        Some(e) => {
            let mut c = base;
            let more = extra_origin_list(e);
            let ghost cv = views(c@);
            let ghost n = c@.len();
            let mut k: usize = 0;
            while k < more.len()
                invariant
                    k <= more@.len(),
                    cv == base_origins(),
                    cv.len() == n,
                    views(more@) == extra_origins(e@),
                    c@.len() == n + k,
                    forall|idx: int| 0 <= idx < n ==> #[trigger] c@[idx]@ == cv[idx],
                    forall|idx: int| 0 <= idx < k ==> #[trigger] c@[n + idx]@ == more@[idx]@,
                decreases more@.len() - k,
            {
                c.push(copy_chars(more[k].as_slice()));
                k += 1;
            }
            assert(views(c@) =~= cv + views(more@)) by {
                assert forall|idx: int| 0 <= idx < views(c@).len() implies views(c@)[idx] == (cv
                    + views(more@))[idx] by {
                    if idx >= n {
                        assert(c@[n + (idx - n)]@ == more@[idx - n]@);
                    }
                }
            }
            c
        },
        None => base,
    };
    assert(views(candidates@) == origin_candidates(extra_view));
    let mut sorted: Vec<Vec<char>> = Vec::new();
    let mut i: usize = 0;
    assert(views(candidates@).take(0).to_set() =~= Set::<Seq<char>>::empty());
    assert(views(sorted@).to_set() =~= Set::<Seq<char>>::empty());
    while i < candidates.len()
        invariant
            i <= candidates@.len(),
            strictly_sorted(views(sorted@)),
            views(sorted@).to_set() == views(candidates@).take(i as int).to_set(),
        decreases candidates@.len() - i,
    {
        insert_sorted_unique(&mut sorted, copy_chars(candidates[i].as_slice()));
        proof {
            let pre = views(candidates@).take(i as int);
            let x = candidates@[i as int]@;
            assert(views(candidates@).take(i + 1) =~= pre.push(x));
            lemma_push_to_set(pre, x);
        }
        i += 1;
    }
    assert(views(candidates@).take(candidates@.len() as int) =~= views(candidates@));
    let mut out: Vec<String> = Vec::new();
    let mut j: usize = 0;
    while j < sorted.len()
        invariant
            j <= sorted@.len(),
            out@.len() == j,
            forall|k: int| 0 <= k < j ==> #[trigger] out@[k]@ == sorted@[k]@,
        decreases sorted@.len() - j,
    {
        out.push(string_of(sorted[j].as_slice()));
        j += 1;
    }
    assert(out@.map_values(|s: String| s@) =~= views(sorted@));
    out
}

// ---------------------------------------------------------------------------
// The session protocol, as steps on the state's view
// ---------------------------------------------------------------------------

/// The expiry of a session armed at clock reading `now`.
pub open spec fn expiry_of(now: u128) -> u128 {
    if now + SESSION_TTL_NS > u128::MAX {
        u128::MAX
    } else {
        (now + SESSION_TTL_NS) as u128
    }
}

/// Arming a session for `nonce` and `origin` at clock reading `now`: the new
/// state and the result.
pub open spec fn arm_step(s: AppStateView, nonce: Seq<char>, origin: Seq<char>, now: u128) -> (
    AppStateView,
    Result<(), SessionErrorView>,
) {
    if !s.allowed.contains(origin) {
        (s, Err(SessionErrorView::OriginNotAllowed(origin)))
    } else {
        (
            AppStateView {
                pending: Some(SessionView { nonce, origin, expires_at_ns: expiry_of(now) }),
                ..s
            },
            Ok(()),
        )
    }
}

/// Verifying a handshake at clock reading `now`: the new state and the result.
pub open spec fn verify_step(
    s: AppStateView,
    nonce: Seq<char>,
    claimed_origin: Seq<char>,
    header_origin: Option<Seq<char>>,
    now: u128,
) -> (AppStateView, Result<(), SessionErrorView>) {
    match s.pending {
        None => (s, Err(SessionErrorView::NoActiveSession)),
        Some(p) => if now > p.expires_at_ns {
            (s, Err(SessionErrorView::Expired))
        } else if p.nonce != nonce {
            (s, Err(SessionErrorView::NonceMismatch))
        } else if p.origin != claimed_origin {
            (s, Err(SessionErrorView::ClaimedOriginMismatch))
        } else if header_origin != Some(p.origin) {
            (s, Err(SessionErrorView::HeaderOriginMismatch))
        } else if !s.allowed.contains(p.origin) {
            (s, Err(SessionErrorView::OriginNotInAllowlist))
        } else {
            (AppStateView { pending: None, ..s }, Ok(()))
        },
    }
}

/// Arming a session at a fresh clock reading: `after` is `before` once the
/// clock has been read, the reading (`after.clock_floor`) is no earlier than
/// any before it, and the session is armed, or refused, at that reading.
pub open spec fn armed_at_new_reading(
    before: AppStateView,
    after: AppStateView,
    nonce: Seq<char>,
    origin: Seq<char>,
    r: Result<(), SessionErrorView>,
) -> bool {
    &&& after.clock_floor >= before.clock_floor
    &&& (after, r) == arm_step(
        at_reading(before, after.clock_floor),
        nonce,
        origin,
        after.clock_floor,
    )
}

/// Verifying a handshake at a fresh clock reading: `after` is `before` once
/// the clock has been read, the reading (`after.clock_floor`) is no earlier
/// than any before it, and the handshake is checked at that reading.
pub open spec fn verified_at_new_reading(
    before: AppStateView,
    after: AppStateView,
    nonce: Seq<char>,
    claimed_origin: Seq<char>,
    header_origin: Option<Seq<char>>,
    r: Result<(), SessionErrorView>,
) -> bool {
    &&& after.clock_floor >= before.clock_floor
    &&& (after, r) == verify_step(
        at_reading(before, after.clock_floor),
        nonce,
        claimed_origin,
        header_origin,
        after.clock_floor,
    )
}

/// The view of a session result.
pub open spec fn result_view(r: Result<(), SessionError>) -> Result<(), SessionErrorView> {
    match r {
        Ok(()) => Ok(()),
        Err(e) => Err(e@),
    }
}

/// The view of an optional string slice.
pub open spec fn opt_str_view(o: Option<&str>) -> Option<Seq<char>> {
    match o {
        Some(s) => Some(s@),
        None => None,
    }
}

impl AppState {
    /// A state that allows the base origins, with no session and no port.
    pub fn new() -> (s: AppState)
        ensures
            is_allowlist_for(s@.allowed, None),
            s@.pending is None,
            s@.bridge_port is None,
            s@.clock_floor == 0,
            s@.readings.len() == 0,
    {
        AppState::with_extra_allowed_origins(None)
    }

    /// A state that allows the base origins and those of the comma-separated
    /// `extra`, with no session and no port.
    pub fn with_extra_allowed_origins(extra: Option<&str>) -> (s: AppState)
        ensures
            is_allowlist_for(s@.allowed, opt_str_view(extra)),
            s@.pending is None,
            s@.bridge_port is None,
            s@.clock_floor == 0,
            s@.readings.len() == 0,
    {
        let allowed_origins = allowed_origin_list(extra);
        AppState {
            allowed_origins,
            pending_session: None,
            bridge_port: None,
            clock: clock_start(),
            clock_floor_ns: 0,
            readings: Ghost(Seq::empty()),
        }
    }

    /// The current reading of the state's clock, in nanoseconds, recorded
    /// as the latest reading. The clock is monotonic; a reading below the
    /// latest one is never used.
    fn now_ns(&mut self) -> (r: u128)
        ensures
            r >= old(self)@.clock_floor,
            final(self)@ == at_reading(old(self)@, r),
    {
        let d = elapsed(&self.clock);
        let reading = as_nanos(&d);
        let now = if reading < self.clock_floor_ns {
            self.clock_floor_ns
        } else {
            reading
        };
        self.clock_floor_ns = now;
        proof {
            self.readings@ = self.readings@.push(now);
        }
        now
    }

    /// Whether `origin` is in the allowlist.
    pub fn is_allowed_origin(&self, origin: &str) -> (r: bool)
        ensures
            r == self@.allowed.contains(origin@),
    {
        let mut i: usize = 0;
        while i < self.allowed_origins.len()
            invariant
                i <= self.allowed_origins@.len(),
                forall|k: int| 0 <= k < i ==> #[trigger] self.allowed_origins@[k]@ != origin@,
            decreases self.allowed_origins@.len() - i,
        {
            if str_eq(self.allowed_origins[i].as_str(), origin) {
                assert(self@.allowed[i as int] == origin@);
                return true;
            }
            i += 1;
        }
        assert forall|k: int| 0 <= k < self@.allowed.len() implies self@.allowed[k] != origin@ by {
            assert(self@.allowed[k] == self.allowed_origins@[k]@);
        }
        false
    }

    /// Arms a session for `nonce` and `origin` at clock reading `now_ns`.
    pub fn arm_session_at(&mut self, nonce: String, origin: String, now_ns: u128) -> (r: Result<
        (),
        SessionError,
    >)
        ensures
            (final(self)@, result_view(r)) == arm_step(old(self)@, nonce@, origin@, now_ns),
    {
        if !self.is_allowed_origin(origin.as_str()) {
            return Err(SessionError::OriginNotAllowed(origin));
        }
        let expires_at_ns = now_ns.saturating_add(SESSION_TTL_NS);
        self.pending_session = Some(PendingSession { nonce, origin, expires_at_ns });
        Ok(())
    }

    /// Arms a session for `nonce` and `origin`, to expire `SESSION_TTL_NS`
    /// after the current clock reading, which is no earlier than any reading
    /// the state used before. Any earlier session is replaced.
    pub fn arm_session(&mut self, nonce: String, origin: String) -> (r: Result<(), SessionError>)
        ensures
            armed_at_new_reading(old(self)@, final(self)@, nonce@, origin@, result_view(r)),
            final(self)@.readings == old(self)@.readings.push(final(self)@.clock_floor),
            final(self)@.clock_floor >= old(self)@.clock_floor,
            r is Ok <==> old(self)@.allowed.contains(origin@),
            r is Ok ==> final(self)@.pending == Some(
                (SessionView {
                    nonce: nonce@,
                    origin: origin@,
                    expires_at_ns: expiry_of(final(self)@.clock_floor),
                }),
            ),
            r is Err ==> final(self)@.pending == old(self)@.pending,
    {
        let now = self.now_ns();
        self.arm_session_at(nonce, origin, now)
    }

    /// Verifies a websocket handshake against the armed session at clock
    /// reading `now_ns`, consuming the session when it succeeds.
    pub fn verify_session_at(
        &mut self,
        nonce: &str,
        claimed_origin: &str,
        header_origin: Option<&str>,
        now_ns: u128,
    ) -> (r: Result<(), SessionError>)
        ensures
            (final(self)@, result_view(r)) == verify_step(
                old(self)@,
                nonce@,
                claimed_origin@,
                opt_str_view(header_origin),
                now_ns,
            ),
    {
        let ok = match &self.pending_session {
            None => {
                return Err(SessionError::NoActiveSession);
            },
            Some(session) => {
                if now_ns > session.expires_at_ns {
                    return Err(SessionError::Expired);
                }
                if !str_eq(session.nonce.as_str(), nonce) {
                    return Err(SessionError::NonceMismatch);
                }
                if !str_eq(session.origin.as_str(), claimed_origin) {
                    return Err(SessionError::ClaimedOriginMismatch);
                }
                let header_matches = match header_origin {
                    Some(h) => str_eq(h, session.origin.as_str()),
                    None => false,
                };
                if !header_matches {
                    return Err(SessionError::HeaderOriginMismatch);
                }
                self.is_allowed_origin(session.origin.as_str())
            },
        };
        if !ok {
            return Err(SessionError::OriginNotInAllowlist);
        }
        self.pending_session = None;
        Ok(())
    }

    /// Verifies a websocket handshake against the armed session at the
    /// current clock reading, consuming the session when it succeeds.
    pub fn verify_session(
        &mut self,
        nonce: &str,
        claimed_origin: &str,
        header_origin: Option<&str>,
    ) -> (r: Result<(), SessionError>)
        ensures
            verified_at_new_reading(
                old(self)@,
                final(self)@,
                nonce@,
                claimed_origin@,
                opt_str_view(header_origin),
                result_view(r),
            ),
            final(self)@.readings == old(self)@.readings.push(final(self)@.clock_floor),
            final(self)@.clock_floor >= old(self)@.clock_floor,
            old(self)@.pending matches Some(p) && final(self)@.clock_floor > p.expires_at_ns ==> (
            result_view(r) == Err::<(), SessionErrorView>(SessionErrorView::Expired)
                && final(self)@.pending == old(self)@.pending),
            r is Ok ==> (old(self)@.pending matches Some(p) && final(self)@.clock_floor
                <= p.expires_at_ns && final(self)@.pending is None),
    {
        let now = self.now_ns();
        self.verify_session_at(nonce, claimed_origin, header_origin, now)
    }

    /// Records the port the bridge listens on.
    pub fn set_bridge_port(&mut self, port: u16)
        ensures
            final(self)@ == (AppStateView { bridge_port: Some(port), ..old(self)@ }),
    {
        self.bridge_port = Some(port);
    }

    /// The port the bridge listens on, once it is known.
    pub fn bridge_port(&self) -> (r: Option<u16>)
        ensures
            r == self@.bridge_port,
    {
        self.bridge_port
    }
}

// ---------------------------------------------------------------------------
// Laws of the session protocol and of the allowlist
// ---------------------------------------------------------------------------

/// A session armed for an allowed origin verifies once, for a handshake that
/// gives its nonce and origin with a matching `Origin` header before it
/// expires; a second handshake finds no session.
pub proof fn law_paired_session_verifies_once(
    s: AppStateView,
    nonce: Seq<char>,
    origin: Seq<char>,
    armed_at: u128,
    now: u128,
    later: u128,
)
    requires
        s.allowed.contains(origin),
        now <= expiry_of(armed_at),
    ensures
        ({
            let (s1, r1) = arm_step(s, nonce, origin, armed_at);
            let (s2, r2) = verify_step(s1, nonce, origin, Some(origin), now);
            &&& r1 is Ok
            &&& r2 is Ok
            &&& s2.pending is None
            &&& s2.allowed == s.allowed
            &&& s2.bridge_port == s.bridge_port
            &&& verify_step(s2, nonce, origin, Some(origin), later) == (
                s2,
                Err::<(), SessionErrorView>(SessionErrorView::NoActiveSession),
            )
        }),
{
}

/// A handshake is accepted only for the armed session, with its nonce, its
/// origin both claimed and in the `Origin` header, an allowed origin, and
/// before the session expires; the session is then gone.
pub proof fn law_accepted_handshake_matches_pairing(
    s: AppStateView,
    nonce: Seq<char>,
    claimed_origin: Seq<char>,
    header_origin: Option<Seq<char>>,
    now: u128,
)
    requires
        verify_step(s, nonce, claimed_origin, header_origin, now).1 is Ok,
    ensures
        s.pending matches Some(p) && p.nonce == nonce && p.origin == claimed_origin && now
            <= p.expires_at_ns,
        header_origin == Some(claimed_origin),
        s.allowed.contains(claimed_origin),
        verify_step(s, nonce, claimed_origin, header_origin, now).0.pending is None,
{
}

/// A refused handshake or a refused arming leaves the state as it was.
pub proof fn law_refusal_keeps_state(
    s: AppStateView,
    nonce: Seq<char>,
    origin: Seq<char>,
    header_origin: Option<Seq<char>>,
    now: u128,
)
    ensures
        verify_step(s, nonce, origin, header_origin, now).1 is Err ==> verify_step(
            s,
            nonce,
            origin,
            header_origin,
            now,
        ).0 == s,
        arm_step(s, nonce, origin, now).1 is Err ==> arm_step(s, nonce, origin, now).0 == s,
        arm_step(s, nonce, origin, now).1 is Err <==> !s.allowed.contains(origin),
{
}

/// A session is refused once its time is up, and stays armed.
pub proof fn law_expired_session_refused(
    s: AppStateView,
    nonce: Seq<char>,
    origin: Seq<char>,
    header_origin: Option<Seq<char>>,
    armed_at: u128,
    now: u128,
)
    requires
        s.allowed.contains(origin),
        now > expiry_of(armed_at),
    ensures
        ({
            let s1 = arm_step(s, nonce, origin, armed_at).0;
            verify_step(s1, nonce, origin, header_origin, now) == (
                s1,
                Err::<(), SessionErrorView>(SessionErrorView::Expired),
            )
        }),
{
}

/// A session armed at clock reading `t` expires `SESSION_TTL_NS` later: a
/// handshake that matches it is accepted at any later reading up to
/// `t + SESSION_TTL_NS`, and refused as expired at any reading after that,
/// the session staying armed. The handshake's reading is never earlier
/// than `t`.
pub proof fn law_session_lives_ttl_after_arming(
    s0: AppStateView,
    s1: AppStateView,
    s2: AppStateView,
    nonce: Seq<char>,
    origin: Seq<char>,
    r2: Result<(), SessionErrorView>,
)
    requires
        armed_at_new_reading(s0, s1, nonce, origin, Ok(())),
        verified_at_new_reading(s1, s2, nonce, origin, Some(origin), r2),
    ensures
        s1.pending == Some(
            (SessionView { nonce, origin, expires_at_ns: expiry_of(s1.clock_floor) }),
        ),
        s1.clock_floor >= s0.clock_floor,
        s2.clock_floor >= s1.clock_floor,
        s2.clock_floor <= s1.clock_floor + SESSION_TTL_NS ==> r2 is Ok && s2.pending is None,
        s2.clock_floor > s1.clock_floor + SESSION_TTL_NS ==> r2 == Err::<(), SessionErrorView>(
            SessionErrorView::Expired,
        ) && s2.pending == s1.pending,
{
}

/// Arming again replaces the earlier session: its nonce is no longer accepted.
pub proof fn law_latest_arming_wins(
    s: AppStateView,
    nonce1: Seq<char>,
    origin1: Seq<char>,
    at1: u128,
    nonce2: Seq<char>,
    origin2: Seq<char>,
    at2: u128,
    now: u128,
)
    requires
        s.allowed.contains(origin2),
        nonce1 != nonce2,
        now <= expiry_of(at2),
    ensures
        ({
            let s1 = arm_step(s, nonce1, origin1, at1).0;
            let s2 = arm_step(s1, nonce2, origin2, at2).0;
            verify_step(s2, nonce1, origin1, Some(origin1), now).1 == Err::<(), SessionErrorView>(
                SessionErrorView::NonceMismatch,
            )
        }),
{
}

/// The allowlist holds each origin once.
pub proof fn law_allowlist_has_no_duplicates(list: Seq<Seq<char>>, extra: Option<Seq<char>>)
    requires
        is_allowlist_for(list, extra),
    ensures
        forall|i: int, j: int|
            0 <= i < list.len() && 0 <= j < list.len() && i != j ==> list[i] != list[j],
{
    assert forall|i: int, j: int|
        0 <= i < list.len() && 0 <= j < list.len() && i != j implies list[i] != list[j] by {
        if i < j {
            assert(chars_lt(list[i], list[j]));
        } else {
            assert(chars_lt(list[j], list[i]));
        }
        lemma_chars_lt_irreflexive(list[i]);
    }
}

/// Only one list is the allowlist for given extra origins: the allowed
/// origins are the base ones and the extra ones, sorted, each once.
pub proof fn law_allowlist_is_determined(
    a: Seq<Seq<char>>,
    b: Seq<Seq<char>>,
    extra: Option<Seq<char>>,
)
    requires
        is_allowlist_for(a, extra),
        is_allowlist_for(b, extra),
    ensures
        a == b,
{
    lemma_sorted_same_set_equal(a, b);
}

proof fn lemma_sorted_same_set_equal(a: Seq<Seq<char>>, b: Seq<Seq<char>>)
    requires
        strictly_sorted(a),
        strictly_sorted(b),
        a.to_set() == b.to_set(),
    ensures
        a == b,
    decreases a.len(),
{
    if a.len() == 0 {
        if b.len() > 0 {
            assert(b.to_set().contains(b[0]));
        }
        assert(a =~= b);
    } else if b.len() == 0 {
        assert(a.to_set().contains(a[0]));
    } else {
        // The first elements are both the least element of the common set.
        assert(a.to_set().contains(a[0]));
        assert(b.to_set().contains(b[0]));
        let ka = choose|k: int| 0 <= k < b.len() && b[k] == a[0];
        let kb = choose|k: int| 0 <= k < a.len() && a[k] == b[0];
        if ka > 0 {
            assert(chars_lt(b[0], b[ka]));
            if kb > 0 {
                assert(chars_lt(a[0], a[kb]));
                lemma_chars_lt_total(a[0], b[0]);
            } else {
                lemma_chars_lt_irreflexive(a[0]);
            }
        }
        if kb > 0 {
            assert(chars_lt(a[0], a[kb]));
            if ka == 0 {
                lemma_chars_lt_irreflexive(a[0]);
            }
        }
        assert(a[0] == b[0]);
        let ta = a.drop_first();
        let tb = b.drop_first();
        assert(strictly_sorted(ta)) by {
            assert forall|i: int, j: int| 0 <= i < j < ta.len() implies chars_lt(
                #[trigger] ta[i],
                #[trigger] ta[j],
            ) by {
                assert(ta[i] == a[i + 1] && ta[j] == a[j + 1]);
            }
        }
        assert(strictly_sorted(tb)) by {
            assert forall|i: int, j: int| 0 <= i < j < tb.len() implies chars_lt(
                #[trigger] tb[i],
                #[trigger] tb[j],
            ) by {
                assert(tb[i] == b[i + 1] && tb[j] == b[j + 1]);
            }
        }
        assert(ta.to_set() =~= tb.to_set()) by {
            assert forall|y: Seq<char>| ta.to_set().contains(y) implies tb.to_set().contains(y) by {
                let k = choose|k: int| 0 <= k < ta.len() && ta[k] == y;
                assert(a[k + 1] == y);
                assert(chars_lt(a[0], a[k + 1]));
                assert(b.to_set().contains(y));
                let m = choose|m: int| 0 <= m < b.len() && b[m] == y;
                if m == 0 {
                    lemma_chars_lt_irreflexive(y);
                }
                assert(tb[m - 1] == y);
            }
            assert forall|y: Seq<char>| tb.to_set().contains(y) implies ta.to_set().contains(y) by {
                let k = choose|k: int| 0 <= k < tb.len() && tb[k] == y;
                assert(b[k + 1] == y);
                assert(chars_lt(b[0], b[k + 1]));
                assert(a.to_set().contains(y));
                let m = choose|m: int| 0 <= m < a.len() && a[m] == y;
                if m == 0 {
                    lemma_chars_lt_irreflexive(y);
                }
                assert(ta[m - 1] == y);
            }
        }
        lemma_sorted_same_set_equal(ta, tb);
        assert(a =~= seq![a[0]] + ta);
        assert(b =~= seq![b[0]] + tb);
    }
}

proof fn lemma_http_origins_trimmed_are_http(parts: Seq<Seq<char>>)
    ensures
        forall|k: int|
            0 <= k < http_origins_trimmed(parts).len() ==> is_http_origin(
                #[trigger] http_origins_trimmed(parts)[k],
            ),
    decreases parts.len(),
{
    if parts.len() > 0 {
        lemma_http_origins_trimmed_are_http(parts.drop_last());
        let rest = http_origins_trimmed(parts.drop_last());
        let r = http_origins_trimmed(parts);
        assert forall|k: int| 0 <= k < r.len() implies is_http_origin(#[trigger] r[k]) by {
            if k < rest.len() {
                assert(r[k] == rest[k]);
            }
        }
    }
}

proof fn lemma_base_origins_are_http()
    ensures
        forall|k: int| 0 <= k < base_origins().len() ==> is_http_origin(#[trigger] base_origins()[k]),
{
    reveal_strlit("http://");
    reveal_strlit("https://");
    reveal_strlit("https://scrimora.app");
    reveal_strlit("https://dev.scrimora.app");
    reveal_strlit("http://localhost:3000");
    reveal_strlit("http://127.0.0.1:3000");
    reveal_strlit("http://localhost:5173");
    reveal_strlit("http://127.0.0.1:5173");
    reveal_strlit("https://localhost");
    reveal_strlit("https://127.0.0.1");
    let b = base_origins();
    assert("https://"@ =~= b[0].subrange(0, 8));
    assert("https://"@ =~= b[1].subrange(0, 8));
    assert("http://"@ =~= b[2].subrange(0, 7));
    assert("http://"@ =~= b[3].subrange(0, 7));
    assert("http://"@ =~= b[4].subrange(0, 7));
    assert("http://"@ =~= b[5].subrange(0, 7));
    assert("https://"@ =~= b[6].subrange(0, 8));
    assert("https://"@ =~= b[7].subrange(0, 8));
}

/// Only HTTP(S) origins are ever allowed: every origin of the allowlist
/// starts with `http://` or `https://`, whatever extra origins are
/// configured.
pub proof fn law_allowlist_is_http_only(list: Seq<Seq<char>>, extra: Option<Seq<char>>)
    requires
        is_allowlist_for(list, extra),
    ensures
        forall|k: int| 0 <= k < list.len() ==> is_http_origin(#[trigger] list[k]),
{
    lemma_base_origins_are_http();
    assert forall|k: int| 0 <= k < list.len() implies is_http_origin(#[trigger] list[k]) by {
        assert(list.to_set().contains(list[k]));
        let c = origin_candidates(extra);
        assert(c.to_set().contains(list[k]));
        let m = choose|m: int| 0 <= m < c.len() && c[m] == list[k];
        match extra {
            Some(e) => {
                lemma_http_origins_trimmed_are_http(split(e, ','));
                let b = base_origins();
                if m < b.len() {
                    assert(c[m] == b[m]);
                } else {
                    assert(c[m] == extra_origins(e)[m - b.len()]);
                }
            },
            None => {
                assert(c[m] == base_origins()[m]);
            },
        }
    }
}

} // verus!
