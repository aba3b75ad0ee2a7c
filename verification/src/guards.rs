//! Browser write guards of the Code UI: the trusted loopback origins of a
//! bind address, Origin/Referer extraction and checking, and the
//! per-session write rate limiter.
use vstd::prelude::*;
use vstd::hash_map::StringHashMap;

use crate::text::{
    chars_of, concat, dec, dec_vec, eq_ignore_case, eq_ignore_case_str, parse_u64, parse_u64_vec,
    split, split_vec, starts_with, string_of, string_of_range, string_views, trim, trim_str, views,
    word_is,
};

verus! {

/// Default budget: 120 writes per 60 s per Code UI session.
pub const DEFAULT_SESSION_WRITE_RATE_LIMIT: u32 = 120;

pub const DEFAULT_SESSION_WRITE_RATE_WINDOW_SECS: u64 = 60;

// ---------------------------------------------------------------------------
// Trusted origins
// ---------------------------------------------------------------------------
/// The IP address the Code UI server is bound to.
#[derive(Clone, Debug)]
pub enum BoundIp {
    V4(u8, u8, u8, u8),
    /// An IPv6 address: its eight segments and its standard text form.
    V6 { segments: [u16; 8], text: String },
}

/// A bind address.
#[derive(Clone, Debug)]
pub struct BoundAddr {
    pub ip: BoundIp,
    pub port: u16,
}

/// `:port`, or nothing for the default HTTP port, which browsers omit.
pub open spec fn port_suffix(port: u16) -> Seq<char> {
    if port == 80 {
        Seq::empty()
    } else {
        ":"@ + dec(port as nat)
    }
}

pub open spec fn ip_text(ip: BoundIp) -> Seq<char> {
    match ip {
        BoundIp::V4(a, b, c, d) => dec(a as nat) + "."@ + dec(b as nat) + "."@ + dec(c as nat)
            + "."@ + dec(d as nat),
        BoundIp::V6 { text, .. } => "["@ + text@ + "]"@,
    }
}

/// The Origin a browser sends for `ip:port`.
pub open spec fn origin_text(ip: BoundIp, port: u16) -> Seq<char> {
    "http://"@ + ip_text(ip) + port_suffix(port)
}

/// `127.0.0.1` or `::1`.
pub open spec fn canonical_loopback(ip: BoundIp) -> bool {
    match ip {
        BoundIp::V4(a, b, c, d) => a == 127 && b == 0 && c == 0 && d == 1,
        BoundIp::V6 { segments, .. } => segments@ == seq![0u16, 0, 0, 0, 0, 0, 0, 1],
    }
}

/// Appends `o` unless an entry already equals it ignoring ASCII case.
pub open spec fn push_unique(s: Seq<Seq<char>>, o: Seq<char>) -> Seq<Seq<char>> {
    if exists|k: int| 0 <= k < s.len() && eq_ignore_case(#[trigger] s[k], o) {
        s
    } else {
        s.push(o)
    }
}

pub open spec fn loopback_aliases(s: Seq<Seq<char>>, port: u16) -> Seq<Seq<char>> {
    push_unique(
        push_unique(
            push_unique(s, "http://127.0.0.1"@ + port_suffix(port)),
            "http://localhost"@ + port_suffix(port),
        ),
        "http://[::1]"@ + port_suffix(port),
    )
}

/// The origins trusted for a bind address: the exact bound origin, plus the
/// `127.0.0.1` / `localhost` / `[::1]` aliases when bound to a canonical
/// loopback address.
pub open spec fn trusted_origins(bound: BoundAddr) -> Seq<Seq<char>> {
    let s = push_unique(Seq::empty(), origin_text(bound.ip, bound.port));
    if canonical_loopback(bound.ip) {
        loopback_aliases(s, bound.port)
    } else {
        s
    }
}

fn port_suffix_text(port: u16) -> (r: String)
    ensures
        r@ == port_suffix(port),
{
    if port == 80 {
        String::new()
    } else {
        let d = dec_vec(port as u64);
        let ds = string_of(&d);
        concat(":", ds.as_str())
    }
}

fn dec_text(n: u8) -> (r: String)
    ensures
        r@ == dec(n as nat),
{
    let d = dec_vec(n as u64);
    string_of(&d)
}

/// The Origin a browser sends for the bound address.
pub fn format_http_origin(bound: &BoundAddr) -> (r: String)
    ensures
        r@ == origin_text(bound.ip, bound.port),
{
    let host = match &bound.ip {
        BoundIp::V4(a, b, c, d) => {
            let mut s = dec_text(*a);
            s.append(".");
            s.append(dec_text(*b).as_str());
            s.append(".");
            s.append(dec_text(*c).as_str());
            s.append(".");
            s.append(dec_text(*d).as_str());
            s
        },
        BoundIp::V6 { text, .. } => {
            let mut s = String::from_str("[");
            s.append(text.as_str());
            s.append("]");
            s
        },
    };
    let mut r = String::from_str("http://");
    r.append(host.as_str());
    r.append(port_suffix_text(bound.port).as_str());
    r
}

/// Appends `origin` unless an entry already equals it ignoring ASCII case.
pub fn push_unique_origin(origins: &mut Vec<String>, origin: String)
    ensures
        string_views(final(origins)@) == push_unique(string_views(old(origins)@), origin@),
{
    let ghost before = string_views(origins@);
    let mut i: usize = 0;
    while i < origins.len()
        invariant
            i <= origins.len(),
            string_views(origins@) == before,
            forall|k: int| 0 <= k < i ==> !eq_ignore_case(#[trigger] before[k], origin@),
        decreases origins.len() - i,
    {
        if eq_ignore_case_str(origins[i].as_str(), origin.as_str()) {
            assert(eq_ignore_case(before[i as int], origin@));
            return;
        }
        i += 1;
    }
    let ghost o = origin@;
    origins.push(origin);
    assert(string_views(origins@) =~= before.push(o));
}

/// Adds the canonical loopback aliases for `port`.
pub fn push_canonical_loopback_aliases(origins: &mut Vec<String>, port: u16)
    ensures
        string_views(final(origins)@) == loopback_aliases(string_views(old(origins)@), port),
{
    let suffix = port_suffix_text(port);
    push_unique_origin(origins, concat("http://127.0.0.1", suffix.as_str()));
    push_unique_origin(origins, concat("http://localhost", suffix.as_str()));
    push_unique_origin(origins, concat("http://[::1]", suffix.as_str()));
}

/// Origins the browser SPA may present for this bind address.
pub fn trusted_loopback_origins(bound: &BoundAddr) -> (r: Vec<String>)
    ensures
        string_views(r@) == trusted_origins(*bound),
{
    let mut origins: Vec<String> = Vec::new();
    assert(string_views(origins@) =~= Seq::<Seq<char>>::empty());
    push_unique_origin(&mut origins, format_http_origin(bound));
    let canonical = match &bound.ip {
        BoundIp::V4(a, b, c, d) => *a == 127 && *b == 0 && *c == 0 && *d == 1,
        BoundIp::V6 { segments, .. } => {
            let r = segments[0] == 0 && segments[1] == 0 && segments[2] == 0 && segments[3] == 0
                && segments[4] == 0 && segments[5] == 0 && segments[6] == 0 && segments[7] == 1;
            assert(r == (segments@ =~= seq![0u16, 0, 0, 0, 0, 0, 0, 1]));
            r
        },
    };
    if canonical {
        push_canonical_loopback_aliases(&mut origins, bound.port);
    }
    origins
}

// ---------------------------------------------------------------------------
// Origin / Referer
// ---------------------------------------------------------------------------
/// A usable Origin header: trimmed, not empty and not `null`.
pub open spec fn origin_candidate(h: Option<Seq<char>>) -> Option<Seq<char>> {
    match h {
        Some(v) => if trim(v).len() > 0 && trim(v) != "null"@ {
            Some(trim(v))
        } else {
            None
        },
        None => None,
    }
}

/// The origin part of an `http://` or `https://` Referer: the scheme and
/// the host and port before the first `/`.
pub open spec fn referer_origin(referer: Seq<char>) -> Option<Seq<char>> {
    let t = trim(referer);
    let http = "http://"@;
    let https = "https://"@;
    if t.len() == 0 {
        None
    } else if http.len() <= t.len() && t.subrange(0, http.len() as int) == http {
        let host = split(t.subrange(http.len() as int, t.len() as int), '/')[0];
        if host.len() == 0 {
            None
        } else {
            Some("http://"@ + host)
        }
    } else if https.len() <= t.len() && t.subrange(0, https.len() as int) == https {
        let host = split(t.subrange(https.len() as int, t.len() as int), '/')[0];
        if host.len() == 0 {
            None
        } else {
            Some("https://"@ + host)
        }
    } else {
        None
    }
}

pub open spec fn opt_str(o: Option<&str>) -> Option<Seq<char>> {
    match o {
        Some(s) => Some(s@),
        None => None,
    }
}

pub open spec fn opt_string(o: Option<String>) -> Option<Seq<char>> {
    match o {
        Some(s) => Some(s@),
        None => None,
    }
}

/// The browser origin of a request: the Origin header when usable, else the
/// origin of the Referer.
pub open spec fn request_origin(origin: Option<Seq<char>>, referer: Option<Seq<char>>) -> Option<
    Seq<char>,
> {
    match origin_candidate(origin) {
        Some(o) => Some(o),
        None => match referer {
            Some(r) => referer_origin(r),
            None => None,
        },
    }
}

proof fn lemma_split_nonempty(s: Seq<char>, sep: char)
    ensures
        split(s, sep).len() >= 1,
    decreases s.len(),
{
    if s.len() > 0 {
        lemma_split_nonempty(s.drop_last(), sep);
    }
}

fn host_origin(scheme: &str, rest: &Vec<char>) -> (r: Option<String>)
    ensures
        ({
            let host = split(rest@, '/')[0];
            opt_string(r) == if host.len() == 0 {
                None
            } else {
                Some(scheme@ + host)
            }
        }),
{
    let pieces = split_vec(rest, '/');
    proof {
        lemma_split_nonempty(rest@, '/');
    }
    assert(views(pieces@)[0] == pieces@[0]@);
    if pieces[0].len() == 0 {
        None
    } else {
        let host = string_of(&pieces[0]);
        Some(concat(scheme, host.as_str()))
    }
}

/// The origin of a Referer (see `referer_origin`).
pub fn origin_from_referer(referer: &str) -> (r: Option<String>)
    ensures
        opt_string(r) == referer_origin(referer@),
{
    let t = trim_str(referer);
    if t.len() == 0 {
        return None;
    }
    let http = chars_of("http://");
    let https = chars_of("https://");
    if starts_with(&t, &http) {
        let mut rest: Vec<char> = Vec::new();
        let mut i: usize = http.len();
        while i < t.len()
            invariant
                http.len() <= i <= t.len(),
                rest@ == t@.subrange(http.len() as int, i as int),
            decreases t.len() - i,
        {
            rest.push(t[i]);
            i += 1;
            assert(rest@ =~= t@.subrange(http.len() as int, i as int));
        }
        host_origin("http://", &rest)
    } else if starts_with(&t, &https) {
        let mut rest: Vec<char> = Vec::new();
        let mut i: usize = https.len();
        while i < t.len()
            invariant
                https.len() <= i <= t.len(),
                rest@ == t@.subrange(https.len() as int, i as int),
            decreases t.len() - i,
        {
            rest.push(t[i]);
            i += 1;
            assert(rest@ =~= t@.subrange(https.len() as int, i as int));
        }
        host_origin("https://", &rest)
    } else {
        None
    }
}

/// The browser origin of a request, from its Origin and Referer headers.
pub fn browser_request_origin(origin: Option<&str>, referer: Option<&str>) -> (r: Option<String>)
    ensures
        opt_string(r) == request_origin(opt_str(origin), opt_str(referer)),
{
    if let Some(o) = origin {
        let t = trim_str(o);
        if t.len() > 0 && !word_is(&t, "null") {
            return Some(string_of(&t));
        }
    }
    match referer {
        Some(r) => origin_from_referer(r),
        None => None,
    }
}

/// Why a browser write was refused.
#[derive(Debug, Clone, PartialEq, Eq)]
pub enum OriginGuardError {
    Missing,
    Untrusted { origin: String },
}

impl OriginGuardError {
    /// Stable error code.
    pub fn code(&self) -> (r: &'static str)
        ensures
            r@ == "ORIGIN_REQUIRED"@,
    {
        "ORIGIN_REQUIRED"
    }

    /// Human-readable refusal.
    pub fn message(&self) -> (r: String)
        ensures
            r@ == match self {
                OriginGuardError::Missing => "Browser Code UI write requests require a trusted loopback Origin (or same-origin Referer)"@,
                OriginGuardError::Untrusted { origin } => "Browser Code UI write Origin '"@
                    + origin@ + "' is not a trusted loopback origin for this server"@,
            },
    {
        match self {
            OriginGuardError::Missing => String::from_str(
                "Browser Code UI write requests require a trusted loopback Origin (or same-origin Referer)",
            ),
            OriginGuardError::Untrusted { origin } => crate::text::concat3(
                "Browser Code UI write Origin '",
                origin.as_str(),
                "' is not a trusted loopback origin for this server",
            ),
        }
    }
}

/// Accepts a browser write whose origin equals, ignoring ASCII case, one of
/// the trusted origins.
pub fn ensure_trusted_browser_origin(
    origin: Option<&str>,
    referer: Option<&str>,
    trusted: &[String],
) -> (r: Result<(), OriginGuardError>)
    ensures
        match request_origin(opt_str(origin), opt_str(referer)) {
            None => r == Err::<(), OriginGuardError>(OriginGuardError::Missing),
            Some(o) => if exists|k: int|
                0 <= k < trusted@.len() && eq_ignore_case((#[trigger] trusted@[k])@, o) {
                r is Ok
            } else {
                r matches Err(OriginGuardError::Untrusted { origin }) && origin@ == o
            },
        },
{
    let o = match browser_request_origin(origin, referer) {
        None => {
            return Err(OriginGuardError::Missing);
        },
        Some(o) => o,
    };
    let mut i: usize = 0;
    while i < trusted.len()
        invariant
            i <= trusted@.len(),
            request_origin(opt_str(origin), opt_str(referer)) == Some(o@),
            forall|k: int| 0 <= k < i ==> !eq_ignore_case((#[trigger] trusted@[k])@, o@),
        decreases trusted.len() - i,
    {
        if eq_ignore_case_str(trusted[i].as_str(), o.as_str()) {
            assert(eq_ignore_case(trusted@[i as int]@, o@));
            return Ok(());
        }
        i += 1;
    }
    Err(OriginGuardError::Untrusted { origin: o })
}


// ---------------------------------------------------------------------------
// Per-session write rate limit
// ---------------------------------------------------------------------------
/// `std::time::Instant`, a monotonic clock reading, carried opaquely: the
/// library reads nothing inside it.
#[verifier::external_type_specification]
#[verifier::external_body]
pub struct ExInstant(std::time::Instant);

/// `Instant::now()`: a reading of the monotonic clock; nothing is promised
/// of its value.
#[verifier::external_body]
fn instant_now() -> (r: std::time::Instant) {
    std::time::Instant::now()
}

/// `Instant::elapsed` in nanoseconds (`Duration::as_nanos`): the time that
/// passed since `since` on the monotonic clock; nothing is promised of its
/// value.
#[verifier::external_body]
fn nanos_since(since: &std::time::Instant) -> (r: u128) {
    since.elapsed().as_nanos()
}

/// The write budget of one Code UI session.
#[derive(Debug, Clone)]
pub struct SessionWriteRateLimitConfig {
    pub max_writes: u32,
    /// Window length in nanoseconds.
    pub window_ns: u128,
}

/// A configured value: the trimmed text parsed as a positive number, or the
/// default when it is missing, malformed, out of range or zero.
pub open spec fn configured(raw: Option<Seq<char>>, default: nat, max: nat) -> nat {
    match raw {
        Some(t) => match parse_u64(trim(t)) {
            Some(v) => if v > 0 && v <= max {
                v as nat
            } else {
                default
            },
            None => default,
        },
        None => default,
    }
}

fn configured_value(raw: Option<&str>, default: u64, max: u64) -> (r: u64)
    requires
        default <= max,
    ensures
        r == configured(opt_str(raw), default as nat, max as nat),
{
    match raw {
        None => default,
        Some(t) => {
            let v = trim_str(t);
            match parse_u64_vec(&v) {
                Some(n) => if n > 0 && n <= max {
                    n
                } else {
                    default
                },
                None => default,
            }
        },
    }
}

impl SessionWriteRateLimitConfig {
    /// The budget from the raw configured values (the rate-limit and window
    /// settings, in writes and in seconds), each falling back to its default.
    pub fn from_env_or_default(limit: Option<&str>, window_secs: Option<&str>) -> (r: Self)
        ensures
            r.max_writes == configured(
                opt_str(limit),
                DEFAULT_SESSION_WRITE_RATE_LIMIT as nat,
                u32::MAX as nat,
            ),
            r.window_ns == configured(
                opt_str(window_secs),
                DEFAULT_SESSION_WRITE_RATE_WINDOW_SECS as nat,
                u64::MAX as nat,
            ) * 1_000_000_000,
    {
        let max = configured_value(limit, DEFAULT_SESSION_WRITE_RATE_LIMIT as u64, u32::MAX as u64);
        let secs = configured_value(window_secs, DEFAULT_SESSION_WRITE_RATE_WINDOW_SECS, u64::MAX);
        let window_ns: u128 = (secs as u128) * 1_000_000_000u128;
        SessionWriteRateLimitConfig { max_writes: max as u32, window_ns }
    }

    pub fn for_tests(max_writes: u32, window_ns: u128) -> (r: Self)
        ensures
            r.max_writes == max_writes,
            r.window_ns == window_ns,
    {
        SessionWriteRateLimitConfig { max_writes, window_ns }
    }
}

/// One session's window: when it started and how many writes it recorded.
#[derive(Clone, Copy)]
pub struct WindowView {
    pub started_ns: u128,
    pub count: u32,
}

pub open spec fn since(now: u128, start: u128) -> u128 {
    if now >= start {
        (now - start) as u128
    } else {
        0
    }
}

/// One write attempt of session `sid` at `now_ns`: the session's window
/// (opened on first use) restarts once the window length has passed; at the
/// budget the write is refused with the time left in the window (one second
/// when none is left), otherwise it is counted.
pub open spec fn rate_step(
    ws: Map<Seq<char>, WindowView>,
    cfg: SessionWriteRateLimitConfig,
    sid: Seq<char>,
    now_ns: u128,
) -> (Map<Seq<char>, WindowView>, Result<(), u128>) {
    let e = if ws.contains_key(sid) {
        ws[sid]
    } else {
        WindowView { started_ns: now_ns, count: 0 }
    };
    let e1 = if since(now_ns, e.started_ns) >= cfg.window_ns {
        WindowView { started_ns: now_ns, count: 0 }
    } else {
        e
    };
    if e1.count >= cfg.max_writes {
        let elapsed = since(now_ns, e1.started_ns);
        let retry = if elapsed <= cfg.window_ns {
            (cfg.window_ns - elapsed) as u128
        } else {
            1_000_000_000u128
        };
        (ws.insert(sid, e1), Err(retry))
    } else {
        (ws.insert(sid, WindowView { count: (e1.count + 1) as u32, ..e1 }), Ok(()))
    }
}

/// Fixed-window write limiter keyed by Code UI session id.
pub struct SessionWriteRateLimiter {
    config: SessionWriteRateLimitConfig,
    epoch: std::time::Instant,
    sessions: StringHashMap<WindowView>,
}

impl SessionWriteRateLimiter {
    pub closed spec fn cfg(&self) -> SessionWriteRateLimitConfig {
        self.config
    }

    /// The window of each session seen so far.
    pub closed spec fn windows(&self) -> Map<Seq<char>, WindowView> {
        self.sessions@
    }

    pub fn new(config: SessionWriteRateLimitConfig) -> (r: Self)
        ensures
            r.cfg() == config,
            r.windows() == Map::<Seq<char>, WindowView>::empty(),
    {
        SessionWriteRateLimiter { config, epoch: instant_now(), sessions: StringHashMap::new() }
    }

    pub fn config(&self) -> (r: &SessionWriteRateLimitConfig)
        ensures
            *r == self.cfg(),
    {
        &self.config
    }

    /// Records one write of `session_id` at `now_ns` (see `rate_step`);
    /// `Err` carries the nanoseconds to wait.
    pub fn check_and_record_at(&mut self, session_id: &str, now_ns: u128) -> (r: Result<(), u128>)
        ensures
            final(self).cfg() == old(self).cfg(),
            (final(self).windows(), r) == rate_step(
                old(self).windows(),
                old(self).cfg(),
                session_id@,
                now_ns,
            ),
    {
        let e: WindowView = match self.sessions.get(session_id) {
            Some(w) => *w,
            None => WindowView { started_ns: now_ns, count: 0 },
        };
        let elapsed0: u128 = if now_ns >= e.started_ns {
            now_ns - e.started_ns
        } else {
            0
        };
        let e1: WindowView = if elapsed0 >= self.config.window_ns {
            WindowView { started_ns: now_ns, count: 0 }
        } else {
            e
        };
        if e1.count >= self.config.max_writes {
            let elapsed: u128 = if now_ns >= e1.started_ns {
                now_ns - e1.started_ns
            } else {
                0
            };
            let retry: u128 = if elapsed <= self.config.window_ns {
                self.config.window_ns - elapsed
            } else {
                1_000_000_000
            };
            self.sessions.insert(String::from_str(session_id), e1);
            Err(retry)
        } else {
            self.sessions.insert(
                String::from_str(session_id),
                WindowView { started_ns: e1.started_ns, count: e1.count + 1 },
            );
            Ok(())
        }
    }

    /// Records one write of `session_id` now; `Err` carries the nanoseconds
    /// to wait. The clock reading is the monotonic time since the limiter
    /// was made, whatever it is.
    pub fn check_and_record(&mut self, session_id: &str) -> (r: Result<(), u128>)
        ensures
            final(self).cfg() == old(self).cfg(),
            exists|now_ns: u128|
                (final(self).windows(), r) == rate_step(
                    old(self).windows(),
                    old(self).cfg(),
                    session_id@,
                    now_ns,
                ),
    {
        let now = nanos_since(&self.epoch);
        self.check_and_record_at(session_id, now)
    }
}

/// A session never records more writes than its budget within one window:
/// if every window holds at most `max_writes` writes, it still does after
/// any write attempt, a refused attempt records nothing, and the windows of
/// other sessions are left as they were.
pub proof fn law_rate_budget_holds(
    ws: Map<Seq<char>, WindowView>,
    cfg: SessionWriteRateLimitConfig,
    sid: Seq<char>,
    now_ns: u128,
)
    requires
        forall|k: Seq<char>| #[trigger] ws.contains_key(k) ==> ws[k].count <= cfg.max_writes,
    ensures
        ({
            let (after, r) = rate_step(ws, cfg, sid, now_ns);
            &&& forall|k: Seq<char>| #[trigger] after.contains_key(k) ==> after[k].count <= cfg.max_writes
            &&& r is Err ==> forall|k: Seq<char>| #[trigger]
                ws.contains_key(k) ==> after[k].count <= ws[k].count
            &&& after.dom() == ws.dom().insert(sid)
            &&& forall|k: Seq<char>| k != sid && #[trigger] ws.contains_key(k) ==> after[k] == ws[k]
        }),
{
}

} // verus!
