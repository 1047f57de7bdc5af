//! The request pipeline: a fresh request identifier is attached, the
//! middleware chain wraps the router, the error table rewrites the
//! finished response, and the identifier is echoed on the response —
//! exactly once, fresh for every request.

use vstd::prelude::*;
use crate::http::{
    Request, RequestV, Response, ResponseV, count_name, lookup_val, remove_name,
    lemma_remove_name_clears, lemma_lookup_after_set,
};
use crate::num::{dec_seq, u64_to_string, lemma_dec_seq_injective};
use crate::router::{RouteEntry, RouteEntryV, route_response, route_and_run};
use crate::middleware::{
    Middleware, MiddlewareV, Event, MwStep, chain_sem, apply_enter, apply_exit,
};
use crate::errors::{ErrorTable, RewriteV, apply_error_map, apply_error_handlers};

verus! {

/// The name of the header that carries the request identifier.
pub open spec fn request_id_name() -> Seq<char> {
    "x-request-id"@
}

/// The routing core as the chain's innermost computation.
pub open spec fn route_inner(entries: Seq<RouteEntryV>) -> spec_fn(RequestV) -> ResponseV {
    |rv: RequestV| route_response(entries, rv)
}

/// A composed application: the middleware chain (outermost first), the
/// flat route table, and the error-handler table.
pub struct App {
    pub middlewares: Vec<Middleware>,
    pub routes: Vec<RouteEntry>,
    pub errors: ErrorTable,
}

/// Per-process dispatch state: the next request identifier. It only
/// grows, so no two requests ever share an identifier.
pub struct AppState {
    pub next_request_id: u64,
}

impl AppState {
    pub fn new() -> (r: AppState)
        ensures
            r.next_request_id == 0,
    {
        AppState { next_request_id: 0 }
    }
}

/// Runs the chain from layer `k` inward around the router.
fn run_chain(
    mws: &Vec<Middleware>,
    k: usize,
    routes: &Vec<RouteEntry>,
    req: Request,
    events: &mut Vec<Event>,
) -> (r: Response)
    requires
        k <= mws@.len(),
    ensures
        ({
            let (resp, evs) = chain_sem(
                mws.deep_view().skip(k as int),
                route_inner(routes.deep_view()),
                req@,
            );
            r@ == resp && final(events)@ == old(events)@ + evs
        }),
    decreases mws@.len() - k,
{
    let ghost mv = mws.deep_view().skip(k as int);
    if k == mws.len() {
        assert(mv.len() == 0);
        let r = route_and_run(routes, &req);
        events.push(Event::HandlerRun);
        proof {
            assert(events@ =~= old(events)@ + seq![Event::HandlerRun]);
        }
        r
    } else {
        let m = &mws[k];
        proof {
            assert(mv[0] == mws.deep_view()[k as int]);
            assert(mv.drop_first() =~= mws.deep_view().skip(k as int + 1));
        }
        events.push(Event::Entered(m.id));
        match apply_enter(m, req) {
            MwStep::Respond(resp) => {
                events.push(Event::Exited(m.id));
                proof {
                    assert(events@ =~= old(events)@ + seq![
                        Event::Entered(m@.id),
                        Event::Exited(m@.id),
                    ]);
                }
                resp
            },
            MwStep::Proceed(req2) => {
                let inner = run_chain(mws, k + 1, routes, req2, events);
                let r = apply_exit(m, inner);
                events.push(Event::Exited(m.id));
                proof {
                    let (in_resp, in_evs) = chain_sem(
                        mv.drop_first(),
                        route_inner(routes.deep_view()),
                        req2@,
                    );
                    assert(events@ =~= old(events)@ + (seq![Event::Entered(m@.id)] + in_evs
                        + seq![Event::Exited(m@.id)]));
                }
                r
            },
        }
    }
}

/// What a dispatch produces, abstractly: the identifier is set on the
/// request, the chain runs around the router, the error table rewrites
/// the outcome, and the identifier is echoed on the response.
pub open spec fn spec_dispatch(
    mws: Seq<MiddlewareV>,
    routes: Seq<RouteEntryV>,
    errors: Seq<(u16, RewriteV)>,
    id: u64,
    req: RequestV,
) -> (ResponseV, Seq<Event>) {
    let tagged = RequestV {
        method: req.method,
        path: req.path,
        headers: remove_name(req.headers, request_id_name()).push(
            (request_id_name(), dec_seq(id as nat)),
        ),
    };
    let (resp, evs) = chain_sem(mws, route_inner(routes), tagged);
    let rewritten = apply_error_map(errors, resp);
    let echoed = ResponseV {
        status: rewritten.status,
        headers: remove_name(rewritten.headers, request_id_name()).push(
            (request_id_name(), dec_seq(id as nat)),
        ),
        body: rewritten.body,
    };
    (echoed, evs)
}

/// Dispatches one request through the whole pipeline.
///
/// The response carries exactly one request-identifier header, whose
/// value is the decimal rendering of this request's identifier; the
/// state's counter advances, so the next request gets a fresh one.
pub fn dispatch(app: &App, state: &mut AppState, req: Request) -> (r: (Response, Vec<Event>))
    requires
        old(state).next_request_id < u64::MAX,
    ensures
        final(state).next_request_id == old(state).next_request_id + 1,
        ({
            let (resp, evs) = spec_dispatch(
                app.middlewares.deep_view(),
                app.routes.deep_view(),
                app.errors@,
                old(state).next_request_id,
                req@,
            );
            r.0@ == resp && r.1@ == evs
        }),
        count_name(r.0@.headers, request_id_name()) == 1,
        lookup_val(r.0@.headers, request_id_name()) == Some(
            dec_seq(old(state).next_request_id as nat),
        ),
{
    let ghost orig_req = req@;
    let id = state.next_request_id;
    state.next_request_id = id + 1;
    let id_text = u64_to_string(id);

    let mut req = req;
    req.headers.set("x-request-id", id_text.as_str());
    let ghost tagged = req@;

    let mut events: Vec<Event> = Vec::new();
    let resp = run_chain(&app.middlewares, 0, &app.routes, req, &mut events);
    proof {
        assert(app.middlewares.deep_view().skip(0) =~= app.middlewares.deep_view());
    }

    let resp = apply_error_handlers(&app.errors, resp);
    let mut resp = resp;
    resp.headers.set("x-request-id", id_text.as_str());

    proof {
        let mws = app.middlewares.deep_view();
        let routes = app.routes.deep_view();
        let (cresp, cevs) = chain_sem(mws, route_inner(routes), tagged);
        let (sresp, sevs) = spec_dispatch(mws, routes, app.errors@, id, orig_req);
        assert(tagged == (RequestV {
            method: orig_req.method,
            path: orig_req.path,
            headers: remove_name(orig_req.headers, request_id_name()).push(
                (request_id_name(), dec_seq(id as nat)),
            ),
        }));
        assert(events@ =~= cevs);
        assert(resp@ == sresp);
    }
    (resp, events)
}

/// Freshness of request identifiers: distinct identifiers always
/// render to distinct header values, so two dispatches in sequence
/// (the counter having advanced between them) never share one.
pub proof fn lemma_request_ids_distinct(id1: u64, id2: u64)
    requires
        id1 != id2,
    ensures
        dec_seq(id1 as nat) != dec_seq(id2 as nat),
{
    if dec_seq(id1 as nat) == dec_seq(id2 as nat) {
        lemma_dec_seq_injective(id1 as nat, id2 as nat);
    }
}

/// Every dispatched response carries the identifier it was given: the
/// request-identifier header is found, and its value is that
/// identifier's rendering.
pub proof fn lemma_dispatch_id_value(
    mws: Seq<MiddlewareV>,
    routes: Seq<RouteEntryV>,
    errors: Seq<(u16, RewriteV)>,
    id: u64,
    req: RequestV,
)
    ensures
        lookup_val(spec_dispatch(mws, routes, errors, id, req).0.headers, request_id_name())
            == Some(dec_seq(id as nat)),
{
    let tagged = RequestV {
        method: req.method,
        path: req.path,
        headers: remove_name(req.headers, request_id_name()).push(
            (request_id_name(), dec_seq(id as nat)),
        ),
    };
    let (resp, evs) = chain_sem(mws, route_inner(routes), tagged);
    let rewritten = apply_error_map(errors, resp);
    lemma_remove_name_clears(rewritten.headers, request_id_name());
    lemma_lookup_after_set(
        remove_name(rewritten.headers, request_id_name()),
        (request_id_name(), dec_seq(id as nat)),
        request_id_name(),
    );
}

/// No identifier is ever reused: two dispatches with distinct
/// identifiers — any two in sequence, since the counter advances —
/// answer with distinct request-identifier header values, whatever the
/// two requests were.
pub proof fn lemma_request_ids_never_reused(
    mws: Seq<MiddlewareV>,
    routes: Seq<RouteEntryV>,
    errors: Seq<(u16, RewriteV)>,
    id1: u64,
    id2: u64,
    req1: RequestV,
    req2: RequestV,
)
    requires
        id1 != id2,
    ensures
        lookup_val(spec_dispatch(mws, routes, errors, id1, req1).0.headers, request_id_name())
            != lookup_val(
            spec_dispatch(mws, routes, errors, id2, req2).0.headers,
            request_id_name(),
        ),
{
    lemma_dispatch_id_value(mws, routes, errors, id1, req1);
    lemma_dispatch_id_value(mws, routes, errors, id2, req2);
    lemma_request_ids_distinct(id1, id2);
}

} // verus!
