//! The per-request admission state machine: route lookup, accounting, the
//! poll-until-ready decision, backend address resolution, and completion.
//!
//! The proxy runtime drives these functions from its lifecycle hooks: the
//! filter hook calls `request_filter`, then races the oracle poll loop —
//! each reply classified by `poll_decision` — against a deadline of the
//! returned timeout, admitting through `grant_admission` or rejecting with
//! `deadline_error`; the peer hook calls `upstream_peer`; the completion
//! hook calls `logging` once per request, whatever the outcome.

use vstd::prelude::*;
use vstd::string::*;
use crate::config::{Config, Service, ServiceView, first_match, lemma_first_match_characterizes,
    effective_timeout_spec};
use crate::metrics::{MetricsRegistry, inc_total_rel, inc_active_rel, dec_active_rel,
    counts_unchanged, bump, drop_one};
use crate::queryer;
use crate::text::{dec_str, u16_to_string};

verus! {

/// Why a request was rejected.
#[derive(Debug)]
pub enum Error {
    /// No route's host matches the request's host.
    ServiceNotFound { host: String },
    /// The request carries no readable Host header.
    HostInvalid,
    /// The workload showed no ready replica within the effective timeout.
    ServiceNotReady { host: String, reason: String },
    /// The readiness oracle itself failed before the deadline.
    QueryError(queryer::Error),
}

/// The mathematical value of a rejection.
pub enum ErrorView {
    ServiceNotFound { host: Seq<char> },
    HostInvalid,
    ServiceNotReady { host: Seq<char>, reason: Seq<char> },
    QueryError(queryer::ErrorView),
}

impl View for Error {
    type V = ErrorView;

    open spec fn view(&self) -> ErrorView {
        match self {
            Error::ServiceNotFound { host } => ErrorView::ServiceNotFound { host: host@ },
            Error::HostInvalid => ErrorView::HostInvalid,
            Error::ServiceNotReady { host, reason } => ErrorView::ServiceNotReady {
                host: host@,
                reason: reason@,
            },
            Error::QueryError(e) => ErrorView::QueryError(e@),
        }
    }
}

/// A rejection as text.
pub open spec fn rejection_text(e: ErrorView) -> Seq<char> {
    match e {
        ErrorView::ServiceNotFound { host } => "Service not found: "@ + host,
        ErrorView::HostInvalid => "Host header invalid"@,
        ErrorView::ServiceNotReady { host, reason } => "Service "@ + host + " not ready: "@
            + reason,
        ErrorView::QueryError(q) => "Query error: "@ + queryer::error_text(q),
    }
}

impl Error {
    /// The rejection as text, for logs and client-facing explanations.
    pub fn describe(&self) -> (r: String)
        ensures
            r@ == rejection_text(self@),
    {
        match self {
            Error::ServiceNotFound { host } => {
                let mut s = String::from_str("Service not found: ");
                s.append(host.as_str());
                s
            },
            Error::HostInvalid => String::from_str("Host header invalid"),
            Error::ServiceNotReady { host, reason } => {
                let mut s = String::from_str("Service ");
                s.append(host.as_str());
                s.append(" not ready: ");
                s.append(reason.as_str());
                proof {
                    assert(s@ =~= rejection_text(self@));
                }
                s
            },
            Error::QueryError(q) => {
                let mut s = String::from_str("Query error: ");
                let t = q.describe();
                s.append(t.as_str());
                s
            },
        }
    }
}

/// The HTTP status a rejection surfaces with: 404 for an unknown host, 400
/// for an unreadable Host header, 503 for a workload that never became
/// ready, 500 for an oracle failure.
pub open spec fn status_of(e: ErrorView) -> u16 {
    match e {
        ErrorView::ServiceNotFound { .. } => 404,
        ErrorView::HostInvalid => 400,
        ErrorView::ServiceNotReady { .. } => 503,
        ErrorView::QueryError(_) => 500,
    }
}

/// The status code a rejection is surfaced to the client with.
pub fn status_code(e: &Error) -> (r: u16)
    ensures
        r == status_of(e@),
        e@ matches ErrorView::ServiceNotFound { .. } ==> r == 404,
        e@ == ErrorView::HostInvalid ==> r == 400,
        e@ matches ErrorView::ServiceNotReady { .. } ==> r == 503,
        e@ matches ErrorView::QueryError(_) ==> r == 500,
{
    match e {
        Error::ServiceNotFound { .. } => 404,
        Error::HostInvalid => 400,
        Error::ServiceNotReady { .. } => 503,
        Error::QueryError(_) => 500,
    }
}

/// The mathematical value of a request context.
pub struct ContextView {
    pub service: Option<ServiceView>,
    pub active: bool,
}

/// Per-request state: the resolved route, if resolution was reached, and
/// whether the active gauge was raised for this request — so completion
/// releases exactly what admission took, once.
pub struct Context {
    pub service: Option<Service>,
    pub active: bool,
}

impl View for Context {
    type V = ContextView;

    open spec fn view(&self) -> ContextView {
        ContextView {
            service: match &self.service {
                Some(s) => Some(s@),
                None => None,
            },
            active: self.active,
        }
    }
}

impl Default for Context {
    /// A fresh context: no route resolved, gauge untouched.
    fn default() -> (r: Context)
        ensures
            r@.service is None,
            r@.active == false,
    {
        Context { service: None, active: false }
    }
}

/// What one oracle reading tells the poll loop to do.
pub enum PollDecision {
    /// At least one replica is ready: admit now.
    Admit(u64),
    /// Zero ready replicas: sleep one poll interval and ask again.
    Retry,
    /// The oracle failed: stop polling and reject with this failure.
    Abort(queryer::Error),
}

/// Milliseconds between two readiness polls.
pub const POLL_INTERVAL_MS: u64 = 1000;

/// One step of the poll loop: a positive ready count admits at once, a zero
/// count means another poll after the interval, and an oracle failure ends
/// the wait immediately — never read as readiness, never conflated with the
/// deadline.
pub fn poll_decision(outcome: Result<u64, queryer::Error>) -> (d: PollDecision)
    ensures
        match outcome {
            Ok(n) => {
                if n > 0 {
                    d matches PollDecision::Admit(m) && m == n
                } else {
                    d matches PollDecision::Retry
                }
            },
            Err(e) => d matches PollDecision::Abort(e2) && e2@ == e@,
        },
{
    match outcome {
        Ok(n) => {
            if n > 0 {
                PollDecision::Admit(n)
            } else {
                PollDecision::Retry
            }
        },
        Err(e) => PollDecision::Abort(e),
    }
}

/// What a run of poll steps ends in, given the oracle readings it would see
/// in order: the first positive reading admits with that count, the first
/// failure aborts with it, and a run of zero readings decides nothing — only
/// the deadline ends such a wait.
pub open spec fn poll_outcome(readings: Seq<Result<u64, queryer::ErrorView>>) -> Option<
    Result<u64, queryer::ErrorView>,
>
    decreases readings.len(),
{
    if readings.len() == 0 {
        None
    } else {
        match readings[0] {
            Ok(n) => {
                if n > 0 {
                    Some(Ok(n))
                } else {
                    poll_outcome(readings.drop_first())
                }
            },
            Err(e) => Some(Err(e)),
        }
    }
}

/// A positive count on the first reading admits at once, with no later
/// reading consulted and no interval slept.
pub proof fn lemma_first_ready_admits(readings: Seq<Result<u64, queryer::ErrorView>>, n: u64)
    requires
        readings.len() > 0,
        readings[0] == Result::<u64, queryer::ErrorView>::Ok(n),
        n > 0,
    ensures
        poll_outcome(readings) == Some(Result::<u64, queryer::ErrorView>::Ok(n)),
{
}

/// A zero count on every reading decides nothing, however long the run: the
/// deadline alone ends the wait, and the rejection is `ServiceNotReady`.
pub proof fn lemma_all_zero_never_admits(readings: Seq<Result<u64, queryer::ErrorView>>)
    requires
        forall|i: int|
            0 <= i < readings.len() ==> readings[i] == Result::<u64, queryer::ErrorView>::Ok(0),
    ensures
        poll_outcome(readings) is None,
    decreases readings.len(),
{
    if readings.len() > 0 {
        let sub = readings.drop_first();
        assert(forall|j: int| 0 <= j < sub.len() ==> sub[j] == readings[j + 1]);
        lemma_all_zero_never_admits(sub);
    }
}

/// An oracle failure met before any positive reading aborts the wait with
/// exactly that failure — it is not retried and not read as readiness.
pub proof fn lemma_oracle_failure_aborts(
    readings: Seq<Result<u64, queryer::ErrorView>>,
    i: int,
    e: queryer::ErrorView,
)
    requires
        0 <= i < readings.len(),
        readings[i] == Result::<u64, queryer::ErrorView>::Err(e),
        forall|j: int| 0 <= j < i ==> readings[j] == Result::<u64, queryer::ErrorView>::Ok(0),
    ensures
        poll_outcome(readings) == Some(Result::<u64, queryer::ErrorView>::Err(e)),
    decreases i,
{
    if i > 0 {
        let sub = readings.drop_first();
        assert(forall|j: int| 0 <= j < sub.len() ==> sub[j] == readings[j + 1]);
        lemma_oracle_failure_aborts(sub, i - 1, e);
    }
}

/// The rejection when the deadline fires before a ready reading.
pub fn deadline_error(host: &str) -> (r: Error)
    ensures
        r@ == (ErrorView::ServiceNotReady { host: host@, reason: "timeout"@ }),
        status_of(r@) == 503,
{
    Error::ServiceNotReady { host: host.to_owned(), reason: String::from_str("timeout") }
}

/// The backend address a request is forwarded to once admitted:
/// `<service>.<namespace>:<port>`, namespace-qualified so in-cluster name
/// resolution finds it.
pub open spec fn backend_addr_of(s: ServiceView) -> Seq<char> {
    s.service_name + "."@ + s.namespace + ":"@ + dec_str(s.service_port as nat)
}

/// The admission gate: the route table and the request accounting.
pub struct Interceptor {
    pub services: Config,
    pub metrics: MetricsRegistry,
}

impl Interceptor {
    /// A gate over the given route table, with all counters at zero.
    pub fn new(services: Config) -> (r: Interceptor)
        ensures
            r.services@ == services@,
            forall|h: Seq<char>| r.metrics.total_of(h) == 0,
            forall|h: Seq<char>| r.metrics.active_of(h) == 0,
    {
        Interceptor { services, metrics: MetricsRegistry::new() }
    }

    /// A fresh context for one request.
    pub fn new_ctx(&self) -> (r: Context)
        ensures
            r@.service is None,
            r@.active == false,
    {
        Context::default()
    }

    /// The filter phase, before any forwarding: reject a request without a
    /// readable host outright; reject a host no route matches as not found;
    /// otherwise resolve the first declared matching route into the context,
    /// count the request, and hand back the route's effective timeout for
    /// the poll that follows.  Counters are touched only on resolution.
    pub fn request_filter(&mut self, host: Option<&String>, ctx: &mut Context) -> (r: Result<
        u64,
        Error,
    >)
        requires
            old(ctx)@.service is None,
            old(ctx)@.active == false,
        ensures
            final(self).services@ == old(self).services@,
            final(ctx)@.active == false,
            match host {
                None => {
                    &&& r matches Err(e) && e@ == ErrorView::HostInvalid
                    &&& counts_unchanged(old(self).metrics, final(self).metrics)
                    &&& final(ctx)@.service is None
                },
                Some(h) => match first_match(old(self).services@.services, h@) {
                    None => {
                        &&& r matches Err(e) && e@ == (ErrorView::ServiceNotFound { host: h@ })
                        &&& counts_unchanged(old(self).metrics, final(self).metrics)
                        &&& final(ctx)@.service is None
                    },
                    Some(i) => {
                        &&& r matches Ok(t) && t == effective_timeout_spec(
                            old(self).services@.services[i],
                            old(self).services@.timeout,
                        )
                        &&& final(ctx)@.service == Some(old(self).services@.services[i])
                        &&& inc_total_rel(old(self).metrics, final(self).metrics, h@)
                    },
                },
            },
    {
        let h = match host {
            Some(h) => h,
            None => {
                return Err(Error::HostInvalid);
            },
        };
        match self.services.lookup(h.as_str()) {
            None => Err(Error::ServiceNotFound { host: h.clone() }),
            Some(i) => {
                proof {
                    lemma_first_match_characterizes(self.services@.services, h@);
                }
                let svc = self.services.services[i].duplicate();
                ctx.service = Some(svc);
                self.metrics.inc_total(h.as_str());
                Ok(self.services.effective_timeout(i))
            },
        }
    }

    /// Admission, after a ready reading won the race: raise the active gauge
    /// for the resolved host and mark the context, so completion releases
    /// exactly what was taken.
    pub fn grant_admission(&mut self, ctx: &mut Context)
        requires
            old(ctx)@.service is Some,
        ensures
            final(self).services@ == old(self).services@,
            inc_active_rel(
                old(self).metrics,
                final(self).metrics,
                old(ctx)@.service.unwrap().host,
            ),
            final(ctx)@.service == old(ctx)@.service,
            final(ctx)@.active == true,
    {
        match &ctx.service {
            Some(s) => {
                self.metrics.inc_active(s.host.as_str());
            },
            None => {},
        }
        ctx.active = true;
    }

    /// The peer phase, once admitted: the backend address of the resolved
    /// route.  A context without a route here is an internal inconsistency,
    /// answered as not found with an empty host.
    pub fn upstream_peer(&self, ctx: &Context) -> (r: Result<String, Error>)
        ensures
            match ctx@.service {
                Some(s) => r matches Ok(a) && a@ == backend_addr_of(s),
                None => r matches Err(e) && e@ == (ErrorView::ServiceNotFound {
                    host: Seq::<char>::empty(),
                }),
            },
    {
        match &ctx.service {
            Some(s) => {
                let mut a = s.service_name.clone();
                a.append(".");
                a.append(s.namespace.as_str());
                a.append(":");
                let p = u16_to_string(s.service_port);
                a.append(p.as_str());
                proof {
                    assert(a@ =~= backend_addr_of(ctx@.service.unwrap()));
                }
                Ok(a)
            },
            None => Err(Error::ServiceNotFound { host: String::new() }),
        }
    }

    /// The completion phase, run once per request whatever the outcome: when
    /// admission raised the gauge, lower it again and clear the mark; touch
    /// nothing otherwise.  Gauges thus return to their pre-request value.
    pub fn logging(&mut self, ctx: &mut Context)
        ensures
            final(self).services@ == old(self).services@,
            final(ctx)@.service == old(ctx)@.service,
            final(ctx)@.active == false,
            if old(ctx)@.active && old(ctx)@.service is Some {
                dec_active_rel(
                    old(self).metrics,
                    final(self).metrics,
                    old(ctx)@.service.unwrap().host,
                )
            } else {
                counts_unchanged(old(self).metrics, final(self).metrics)
            },
    {
        if ctx.active {
            match &ctx.service {
                Some(s) => {
                    self.metrics.dec_active(s.host.as_str());
                },
                None => {},
            }
        }
        ctx.active = false;
    }
}

/// Over one full request lifecycle the registry balances: the filter counted
/// the resolved host once, admission — when it happened — raised the active
/// gauge and completion lowered it again, so every gauge returns to its
/// pre-request value and the total counter rose by one for the resolved host
/// and for no other.  (A request rejected before resolution touches no
/// counter at all, as `request_filter` states.)  The transitions assumed
/// here are exactly those the interceptor's contracts state.
pub proof fn lemma_request_accounting(
    m0: MetricsRegistry,
    m1: MetricsRegistry,
    m2: MetricsRegistry,
    m3: MetricsRegistry,
    h: Seq<char>,
    admitted: bool,
)
    requires
        inc_total_rel(m0, m1, h),
        admitted ==> inc_active_rel(m1, m2, h),
        !admitted ==> counts_unchanged(m1, m2),
        admitted ==> dec_active_rel(m2, m3, h),
        !admitted ==> counts_unchanged(m2, m3),
        m0.active_of(h) < u64::MAX,
    ensures
        forall|x: Seq<char>| m3.active_of(x) == m0.active_of(x),
        m3.total_of(h) == bump(m0.total_of(h)),
        forall|x: Seq<char>| x != h ==> m3.total_of(x) == m0.total_of(x),
        request_net_effect(m0, m3, h, true),
{
    if admitted {
        assert(m2.active_of(h) == bump(m1.active_of(h)));
        assert(m3.active_of(h) == drop_one(m2.active_of(h)));
    }
}

/// The net effect of one completed request on the registry: every gauge back
/// at its pre-request value; the total counter bumped for the resolved host
/// when resolution was reached, and untouched for every other host and for
/// every request rejected before resolution.
pub open spec fn request_net_effect(
    pre: MetricsRegistry,
    post: MetricsRegistry,
    h: Seq<char>,
    resolved: bool,
) -> bool {
    &&& forall|x: Seq<char>| post.active_of(x) == pre.active_of(x)
    &&& (resolved ==> post.total_of(h) == bump(pre.total_of(h)) && (forall|x: Seq<char>|
        x != h ==> post.total_of(x) == pre.total_of(x)))
    &&& (!resolved ==> forall|x: Seq<char>| post.total_of(x) == pre.total_of(x))
}

/// A counter bumped once per completed request.
pub open spec fn iter_bump(v: u64, k: nat) -> u64
    decreases k,
{
    if k == 0 {
        v
    } else {
        bump(iter_bump(v, (k - 1) as nat))
    }
}

/// How many of the requests — each a host and whether it reached route
/// resolution — resolved to the host `x`.
pub open spec fn resolved_count(reqs: Seq<(Seq<char>, bool)>, x: Seq<char>) -> nat
    decreases reqs.len(),
{
    if reqs.len() == 0 {
        0
    } else {
        (if reqs[0].1 && reqs[0].0 == x {
            1nat
        } else {
            0nat
        }) + resolved_count(reqs.drop_first(), x)
    }
}

proof fn lemma_iter_bump_shift(v: u64, k: nat)
    ensures
        iter_bump(bump(v), k) == bump(iter_bump(v, k)),
    decreases k,
{
    if k > 0 {
        lemma_iter_bump_shift(v, (k - 1) as nat);
    }
}

/// After any number of completed requests, mixed admitted and rejected, the
/// active gauge of every host is back at its value before the first of them,
/// and each host's total counter rose exactly once per request that resolved
/// to it.  `states` are the registry values between consecutive requests;
/// each step is one request's net effect, as the lifecycle lemma above
/// establishes it.
pub proof fn lemma_many_requests_accounting(
    states: Seq<MetricsRegistry>,
    reqs: Seq<(Seq<char>, bool)>,
)
    requires
        states.len() == reqs.len() + 1,
        forall|i: int|
            0 <= i < reqs.len() ==> request_net_effect(
                states[i],
                states[i + 1],
                reqs[i].0,
                reqs[i].1,
            ),
    ensures
        forall|x: Seq<char>| states.last().active_of(x) == states.first().active_of(x),
        forall|x: Seq<char>|
            states.last().total_of(x) == iter_bump(
                states.first().total_of(x),
                resolved_count(reqs, x),
            ),
    decreases reqs.len(),
{
    if reqs.len() > 0 {
        let st = states.drop_first();
        let rq = reqs.drop_first();
        assert(forall|j: int| 0 <= j < st.len() ==> st[j] == states[j + 1]);
        assert(forall|j: int| 0 <= j < rq.len() ==> rq[j] == reqs[j + 1]);
        assert(forall|i: int|
            0 <= i < rq.len() ==> request_net_effect(st[i], st[i + 1], rq[i].0, rq[i].1));
        lemma_many_requests_accounting(st, rq);
        assert(request_net_effect(states[0], states[1], reqs[0].0, reqs[0].1));
        assert(st.last() == states.last() && st.first() == states[1]);
        assert forall|x: Seq<char>|
            states.last().total_of(x) == iter_bump(
                states.first().total_of(x),
                resolved_count(reqs, x),
            ) by {
            lemma_iter_bump_shift(states[0].total_of(x), resolved_count(rq, x));
            if reqs[0].1 && reqs[0].0 == x {
                assert(states[1].total_of(x) == bump(states[0].total_of(x)));
                assert(resolved_count(reqs, x) == resolved_count(rq, x) + 1);
            } else {
                assert(states[1].total_of(x) == states[0].total_of(x));
                assert(resolved_count(reqs, x) == resolved_count(rq, x));
            }
        }
    }
}

} // verus!
