//! The middleware chain: an ordered list of wrappers around the
//! routing core. Each middleware observes the request on the way in,
//! may rewrite it or short-circuit with its own response, and
//! post-processes the response on the way out; the chain unwinds in
//! reverse order. Each middleware's entry and exit are recorded as
//! events exactly once per request.

use vstd::prelude::*;
use crate::http::{Request, RequestV, Response, ResponseV, lookup_val, remove_name};

verus! {

/// What a middleware does.
pub enum MwKind {
    /// Pure observation: only its entry and exit events are visible
    /// (a timing or logging layer).
    Log,
    /// Replaces the named request header with the given value before
    /// forwarding.
    SetRequestHeader(String, String),
    /// On the way out, appends the header if the response lacks it.
    DefaultHeader(String, String),
    /// Short-circuits with the given status unless the named request
    /// header's first value equals the given value.
    RequireHeader(String, String, u16),
}

/// The abstract value of a middleware's kind.
pub enum MwKindV {
    Log,
    SetRequestHeader(Seq<char>, Seq<char>),
    DefaultHeader(Seq<char>, Seq<char>),
    RequireHeader(Seq<char>, Seq<char>, u16),
}

/// One layer of the chain, with an identifier that tags its events.
pub struct Middleware {
    pub id: u64,
    pub kind: MwKind,
}

/// The abstract value of a middleware.
pub struct MiddlewareV {
    pub id: u64,
    pub kind: MwKindV,
}

impl View for MwKind {
    type V = MwKindV;

    open spec fn view(&self) -> MwKindV {
        match self {
            MwKind::Log => MwKindV::Log,
            MwKind::SetRequestHeader(n, v) => MwKindV::SetRequestHeader(n@, v@),
            MwKind::DefaultHeader(n, v) => MwKindV::DefaultHeader(n@, v@),
            MwKind::RequireHeader(n, v, s) => MwKindV::RequireHeader(n@, v@, *s),
        }
    }
}

impl View for Middleware {
    type V = MiddlewareV;

    open spec fn view(&self) -> MiddlewareV {
        MiddlewareV { id: self.id, kind: self.kind@ }
    }
}

impl DeepView for Middleware {
    type V = MiddlewareV;

    open spec fn deep_view(&self) -> MiddlewareV {
        self@
    }
}

/// One observable side effect: entering a layer, running the routed
/// handler, leaving a layer.
#[derive(Clone, Copy, PartialEq, Eq, Structural, Debug)]
pub enum Event {
    Entered(u64),
    HandlerRun,
    Exited(u64),
}

/// What a middleware decides on the way in.
pub enum MwStepV {
    Proceed(RequestV),
    Respond(ResponseV),
}

/// The entry half of a middleware: forward a (possibly rewritten)
/// request, or short-circuit with a response.
pub open spec fn enter_sem(m: MiddlewareV, req: RequestV) -> MwStepV {
    match m.kind {
        MwKindV::Log => MwStepV::Proceed(req),
        MwKindV::SetRequestHeader(n, v) => MwStepV::Proceed(
            RequestV {
                method: req.method,
                path: req.path,
                headers: remove_name(req.headers, n).push((n, v)),
            },
        ),
        MwKindV::DefaultHeader(_, _) => MwStepV::Proceed(req),
        MwKindV::RequireHeader(n, v, status) => if lookup_val(req.headers, n) == Some(v) {
            MwStepV::Proceed(req)
        } else {
            MwStepV::Respond(
                ResponseV { status, headers: Seq::empty(), body: Seq::empty() },
            )
        },
    }
}

/// The exit half of a middleware: post-process the downstream
/// response.
pub open spec fn exit_sem(m: MiddlewareV, resp: ResponseV) -> ResponseV {
    match m.kind {
        MwKindV::DefaultHeader(n, v) => if lookup_val(resp.headers, n) is Some {
            resp
        } else {
            ResponseV { status: resp.status, headers: resp.headers.push((n, v)), body: resp.body }
        },
        _ => resp,
    }
}

/// The whole chain around an inner computation: middlewares run in
/// list order on the way in and in reverse order on the way out, each
/// one's events appearing exactly once, the handler event at the
/// innermost point. A short-circuiting middleware keeps everything
/// below it from running.
pub open spec fn chain_sem(
    mws: Seq<MiddlewareV>,
    inner: spec_fn(RequestV) -> ResponseV,
    req: RequestV,
) -> (ResponseV, Seq<Event>)
    decreases mws.len(),
{
    if mws.len() == 0 {
        (inner(req), seq![Event::HandlerRun])
    } else {
        let m = mws[0];
        match enter_sem(m, req) {
            MwStepV::Respond(resp) => (resp, seq![Event::Entered(m.id), Event::Exited(m.id)]),
            MwStepV::Proceed(req2) => {
                let (resp, evs) = chain_sem(mws.drop_first(), inner, req2);
                (
                    exit_sem(m, resp),
                    seq![Event::Entered(m.id)] + evs + seq![Event::Exited(m.id)],
                )
            },
        }
    }
}

/// The entry half, executably.
pub enum MwStep {
    Proceed(Request),
    Respond(Response),
}

pub fn apply_enter(m: &Middleware, req: Request) -> (r: MwStep)
    ensures
        match r {
            MwStep::Proceed(req2) => enter_sem(m@, req@) == MwStepV::Proceed(req2@),
            MwStep::Respond(resp) => enter_sem(m@, req@) == MwStepV::Respond(resp@),
        },
{
    match &m.kind {
        MwKind::Log => MwStep::Proceed(req),
        MwKind::SetRequestHeader(n, v) => {
            let mut req = req;
            req.headers.set(n.as_str(), v.as_str());
            MwStep::Proceed(req)
        },
        MwKind::DefaultHeader(_, _) => MwStep::Proceed(req),
        MwKind::RequireHeader(n, v, status) => {
            let ok = match req.headers.get(n.as_str()) {
                Some(actual) => actual == *v,
                None => false,
            };
            if ok {
                MwStep::Proceed(req)
            } else {
                MwStep::Respond(Response::bare(*status))
            }
        },
    }
}

/// The exit half, executably.
pub fn apply_exit(m: &Middleware, resp: Response) -> (r: Response)
    ensures
        r@ == exit_sem(m@, resp@),
{
    match &m.kind {
        MwKind::DefaultHeader(n, v) => {
            let mut resp = resp;
            if resp.headers.get(n.as_str()).is_none() {
                resp.headers.push(n.as_str(), v.as_str());
            }
            resp
        },
        _ => resp,
    }
}

/// Whether every middleware forwards this request (nothing
/// short-circuits along the way).
pub open spec fn no_short_circuit(mws: Seq<MiddlewareV>, req: RequestV) -> bool
    decreases mws.len(),
{
    if mws.len() == 0 {
        true
    } else {
        match enter_sem(mws[0], req) {
            MwStepV::Respond(_) => false,
            MwStepV::Proceed(req2) => no_short_circuit(mws.drop_first(), req2),
        }
    }
}

/// The entry events of the chain, in list order.
pub open spec fn entry_events(mws: Seq<MiddlewareV>) -> Seq<Event> {
    mws.map_values(|m: MiddlewareV| Event::Entered(m.id))
}

/// The exit events of the chain, in reverse list order.
pub open spec fn exit_events(mws: Seq<MiddlewareV>) -> Seq<Event>
    decreases mws.len(),
{
    if mws.len() == 0 {
        Seq::empty()
    } else {
        exit_events(mws.drop_first()) + seq![Event::Exited(mws[0].id)]
    }
}

/// Middleware ordering: when nothing short-circuits, the chain's
/// events are every layer's entry in list order, then the handler,
/// then every layer's exit in reverse order — so an outer layer's
/// entry side effect is observable before every inner one's and the
/// handler's, and its exit side effect after them.
pub proof fn lemma_chain_event_order(
    mws: Seq<MiddlewareV>,
    inner: spec_fn(RequestV) -> ResponseV,
    req: RequestV,
)
    requires
        no_short_circuit(mws, req),
    ensures
        chain_sem(mws, inner, req).1 == entry_events(mws) + seq![Event::HandlerRun]
            + exit_events(mws),
    decreases mws.len(),
{
    if mws.len() == 0 {
        assert(chain_sem(mws, inner, req).1 =~= entry_events(mws) + seq![Event::HandlerRun]
            + exit_events(mws));
    } else {
        let m = mws[0];
        let t = mws.drop_first();
        match enter_sem(m, req) {
            MwStepV::Respond(_) => {
                assert(false);
            },
            MwStepV::Proceed(req2) => {
                lemma_chain_event_order(t, inner, req2);
                assert(entry_events(mws) =~= seq![Event::Entered(m.id)] + entry_events(t)) by {
                    assert(forall|i: int|
                        0 <= i < t.len() ==> #[trigger] t[i] == mws[i + 1]);
                }
                assert(chain_sem(mws, inner, req).1 =~= entry_events(mws) + seq![
                    Event::HandlerRun,
                ] + exit_events(mws));
            },
        }
    }
}

/// The ordering law for two layers A then B around the handler H: the
/// events are exactly A entered, B entered, H run, B exited, A exited.
pub proof fn lemma_two_layer_order(
    a: MiddlewareV,
    b: MiddlewareV,
    inner: spec_fn(RequestV) -> ResponseV,
    req: RequestV,
)
    requires
        no_short_circuit(seq![a, b], req),
    ensures
        chain_sem(seq![a, b], inner, req).1 == seq![
            Event::Entered(a.id),
            Event::Entered(b.id),
            Event::HandlerRun,
            Event::Exited(b.id),
            Event::Exited(a.id),
        ],
{
    let mws = seq![a, b];
    lemma_chain_event_order(mws, inner, req);
    let t = mws.drop_first();
    assert(t =~= seq![b]);
    assert(t.drop_first() =~= Seq::<MiddlewareV>::empty());
    assert(mws[0] == a && t[0] == b);
    assert(exit_events(t.drop_first()) =~= Seq::<Event>::empty());
    assert(exit_events(t) =~= seq![Event::Exited(b.id)]);
    assert(exit_events(mws) =~= seq![Event::Exited(b.id), Event::Exited(a.id)]);
    assert(entry_events(mws) + seq![Event::HandlerRun] + exit_events(mws) =~= seq![
        Event::Entered(a.id),
        Event::Entered(b.id),
        Event::HandlerRun,
        Event::Exited(b.id),
        Event::Exited(a.id),
    ]);
}

} // verus!
