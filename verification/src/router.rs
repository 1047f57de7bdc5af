//! The router: an ordered route table with guards, matched
//! first-registered-first, and a scope builder that composes nested
//! prefixes and guards into that flat table at startup.

use vstd::prelude::*;
use crate::http::{Request, RequestV, Response, ResponseV, Method, STATUS_NOT_FOUND, HeaderMap};
use crate::guard::{Guard, GuardV, all_guards_pass, guard_passes, guards_pass};
use crate::path::{
    SegPat, SegPatV, Param, pattern_matches, spec_captures, split_path, path_segments,
    match_segments,
};
use crate::handler::{Handler, HandlerV, run_handler, run_handler_spec};

verus! {

/// One registered route: its method, pattern, the guards of every scope
/// it sits in (outermost first), and its handler.
pub struct RouteEntry {
    pub method: Method,
    pub pattern: Vec<SegPat>,
    pub guards: Vec<Guard>,
    pub handler: Handler,
}

/// The abstract value of a route entry.
pub struct RouteEntryV {
    pub method: Method,
    pub pattern: Seq<SegPatV>,
    pub guards: Seq<GuardV>,
    pub handler: HandlerV,
}

impl View for RouteEntry {
    type V = RouteEntryV;

    open spec fn view(&self) -> RouteEntryV {
        RouteEntryV {
            method: self.method,
            pattern: self.pattern.deep_view(),
            guards: self.guards.deep_view(),
            handler: self.handler@,
        }
    }
}

impl DeepView for RouteEntry {
    type V = RouteEntryV;

    open spec fn deep_view(&self) -> RouteEntryV {
        self@
    }
}

/// Whether an entry matches: right method, pattern matches the
/// segments, and every guard of its scope chain admits the request.
pub open spec fn entry_matches(
    e: RouteEntryV,
    method: Method,
    segs: Seq<Seq<char>>,
    headers: Seq<(Seq<char>, Seq<char>)>,
) -> bool {
    e.method == method && pattern_matches(e.pattern, segs) && all_guards_pass(e.guards, headers)
}

/// The first matching entry's index: first-match-wins in registration
/// order.
pub open spec fn spec_match(
    entries: Seq<RouteEntryV>,
    method: Method,
    segs: Seq<Seq<char>>,
    headers: Seq<(Seq<char>, Seq<char>)>,
) -> Option<int>
    decreases entries.len(),
{
    if entries.len() == 0 {
        None
    } else if entry_matches(entries[0], method, segs, headers) {
        Some(0)
    } else {
        match spec_match(entries.drop_first(), method, segs, headers) {
            Some(j) => Some(j + 1),
            None => None,
        }
    }
}

pub proof fn lemma_spec_match_some(
    entries: Seq<RouteEntryV>,
    method: Method,
    segs: Seq<Seq<char>>,
    headers: Seq<(Seq<char>, Seq<char>)>,
    i: int,
)
    requires
        0 <= i < entries.len(),
        entry_matches(entries[i], method, segs, headers),
        forall|j: int| 0 <= j < i ==> !entry_matches(#[trigger] entries[j], method, segs, headers),
    ensures
        spec_match(entries, method, segs, headers) == Some(i),
    decreases entries.len(),
{
    if i > 0 {
        let t = entries.drop_first();
        assert(forall|j: int|
            0 <= j < i - 1 ==> !entry_matches(#[trigger] t[j], method, segs, headers)) by {
            assert(forall|j: int| 0 <= j < t.len() ==> #[trigger] t[j] == entries[j + 1]);
        }
        assert(t[i - 1] == entries[i]);
        lemma_spec_match_some(t, method, segs, headers, i - 1);
    }
}

pub proof fn lemma_spec_match_none(
    entries: Seq<RouteEntryV>,
    method: Method,
    segs: Seq<Seq<char>>,
    headers: Seq<(Seq<char>, Seq<char>)>,
)
    requires
        forall|j: int|
            0 <= j < entries.len() ==> !entry_matches(
                #[trigger] entries[j],
                method,
                segs,
                headers,
            ),
    ensures
        spec_match(entries, method, segs, headers) is None,
    decreases entries.len(),
{
    if entries.len() > 0 {
        let t = entries.drop_first();
        assert(forall|j: int|
            0 <= j < t.len() ==> !entry_matches(#[trigger] t[j], method, segs, headers)) by {
            assert(forall|j: int| 0 <= j < t.len() ==> #[trigger] t[j] == entries[j + 1]);
        }
        lemma_spec_match_none(t, method, segs, headers);
    }
}

/// Matches a request against the table.
///
/// Returns the index of the first entry whose method, pattern and
/// guards all match, together with the typed path parameters that
/// pattern binds; `None` when no entry matches at all.
pub fn match_route(
    entries: &Vec<RouteEntry>,
    method: Method,
    path: &str,
    headers: &HeaderMap,
) -> (r: Option<(usize, Vec<Param>)>)
    ensures
        match r {
            Some((i, params)) => {
                &&& spec_match(entries.deep_view(), method, split_path(path@), headers@)
                    == Some(i as int)
                &&& i < entries@.len()
                &&& params.deep_view() == spec_captures(
                    entries.deep_view()[i as int].pattern,
                    split_path(path@),
                )
            },
            None => spec_match(entries.deep_view(), method, split_path(path@), headers@) is None,
        },
{
    let segs = path_segments(path);
    let n = entries.len();
    for i in 0..n
        invariant
            n == entries@.len(),
            entries.deep_view().len() == n,
            segs.deep_view() == split_path(path@),
            forall|j: int|
                0 <= j < i ==> !entry_matches(
                    #[trigger] entries.deep_view()[j],
                    method,
                    split_path(path@),
                    headers@,
                ),
    {
        let e = &entries[i];
        let ghost ev = entries.deep_view()[i as int];
        assert(ev == e@);
        if e.method == method {
            match match_segments(&e.pattern, &segs) {
                Some(params) => {
                    if guards_pass(&e.guards, headers) {
                        proof {
                            lemma_spec_match_some(
                                entries.deep_view(),
                                method,
                                split_path(path@),
                                headers@,
                                i as int,
                            );
                        }
                        return Some((i, params));
                    }
                },
                None => {},
            }
        }
    }
    proof {
        lemma_spec_match_none(entries.deep_view(), method, split_path(path@), headers@);
    }
    None
}

/// The routing decision as a whole: the matched handler's response, or
/// a bare 404 when nothing matches.
pub open spec fn route_response(entries: Seq<RouteEntryV>, req: RequestV) -> ResponseV {
    let segs = split_path(req.path);
    match spec_match(entries, req.method, segs, req.headers) {
        Some(i) => run_handler_spec(entries[i].handler, spec_captures(entries[i].pattern, segs)),
        None => ResponseV {
            status: STATUS_NOT_FOUND,
            headers: Seq::empty(),
            body: Seq::empty(),
        },
    }
}

fn clone_pats(v: &Vec<SegPat>) -> (r: Vec<SegPat>)
    ensures
        r.deep_view() == v.deep_view(),
{
    let mut r: Vec<SegPat> = Vec::new();
    let n = v.len();
    proof {
        assert(r.deep_view() =~= v.deep_view().take(0));
    }
    for i in 0..n
        invariant
            n == v@.len(),
            r.deep_view() == v.deep_view().take(i as int),
    {
        let ghost before = r.deep_view();
        r.push(v[i].clone());
        proof {
            assert(r.deep_view() =~= before.push(v.deep_view()[i as int]));
            assert(v.deep_view().take(i + 1) =~= v.deep_view().take(i as int).push(
                v.deep_view()[i as int],
            ));
        }
    }
    proof {
        assert(v.deep_view().take(n as int) =~= v.deep_view());
    }
    r
}

fn clone_guards(v: &Vec<Guard>) -> (r: Vec<Guard>)
    ensures
        r.deep_view() == v.deep_view(),
{
    let mut r: Vec<Guard> = Vec::new();
    let n = v.len();
    proof {
        assert(r.deep_view() =~= v.deep_view().take(0));
    }
    for i in 0..n
        invariant
            n == v@.len(),
            r.deep_view() == v.deep_view().take(i as int),
    {
        let ghost before = r.deep_view();
        r.push(v[i].clone());
        proof {
            assert(r.deep_view() =~= before.push(v.deep_view()[i as int]));
            assert(v.deep_view().take(i + 1) =~= v.deep_view().take(i as int).push(
                v.deep_view()[i as int],
            ));
        }
    }
    proof {
        assert(v.deep_view().take(n as int) =~= v.deep_view());
    }
    r
}

impl Clone for Handler {
    fn clone(&self) -> (r: Self)
        ensures
            r@ == self@,
    {
        match self {
            Handler::Fixed { status, headers, body } => {
                let mut hs: Vec<(String, String)> = Vec::new();
                let n = headers.len();
                let ghost all = headers@.map_values(|p: (String, String)| (p.0@, p.1@));
                proof {
                    assert(hs@.map_values(|p: (String, String)| (p.0@, p.1@)) =~= all.take(0));
                }
                for i in 0..n
                    invariant
                        n == headers@.len(),
                        all == headers@.map_values(|p: (String, String)| (p.0@, p.1@)),
                        hs@.map_values(|p: (String, String)| (p.0@, p.1@)) == all.take(i as int),
                {
                    let ghost before = hs@.map_values(|p: (String, String)| (p.0@, p.1@));
                    hs.push((headers[i].0.clone(), headers[i].1.clone()));
                    proof {
                        assert(hs@.map_values(|p: (String, String)| (p.0@, p.1@)) =~= before.push(
                            all[i as int],
                        ));
                        assert(all.take(i + 1) =~= all.take(i as int).push(all[i as int]));
                    }
                }
                proof {
                    assert(all.take(n as int) =~= all);
                }
                Handler::Fixed { status: *status, headers: hs, body: body.clone() }
            },
            Handler::IntsEcho { prefix, sep } => Handler::IntsEcho {
                prefix: prefix.clone(),
                sep: sep.clone(),
            },
        }
    }
}

/// A nested entry as seen from the enclosing scope: the scope's prefix
/// put before the pattern, the scope's guards before the entry's.
pub open spec fn nested_entry(
    prefix: Seq<SegPatV>,
    gs: Seq<GuardV>,
    e: RouteEntryV,
) -> RouteEntryV {
    RouteEntryV {
        method: e.method,
        pattern: prefix + e.pattern,
        guards: gs + e.guards,
        handler: e.handler,
    }
}

/// A scope under construction: its own guards, and the entries
/// registered in it so far (patterns relative to the scope's root,
/// entry guards those of inner scopes only).
pub struct Scope {
    pub guards: Vec<Guard>,
    pub entries: Vec<RouteEntry>,
}

impl Scope {
    pub fn new() -> (r: Scope)
        ensures
            r.guards.deep_view() == Seq::<GuardV>::empty(),
            r.entries.deep_view() == Seq::<RouteEntryV>::empty(),
    {
        let r = Scope { guards: Vec::new(), entries: Vec::new() };
        proof {
            assert(r.guards.deep_view() =~= Seq::<GuardV>::empty());
            assert(r.entries.deep_view() =~= Seq::<RouteEntryV>::empty());
        }
        r
    }

    /// Adds a guard to this scope; it will apply to every route nested
    /// under it.
    pub fn guard(self, g: Guard) -> (r: Scope)
        ensures
            r.guards.deep_view() == self.guards.deep_view().push(g@),
            r.entries.deep_view() == self.entries.deep_view(),
    {
        let mut guards = self.guards;
        let ghost before = guards.deep_view();
        guards.push(g);
        proof {
            assert(guards.deep_view() =~= before.push(g@));
        }
        Scope { guards, entries: self.entries }
    }

    /// Registers a route in this scope, after those already registered.
    pub fn route(self, method: Method, pattern: Vec<SegPat>, handler: Handler) -> (r: Scope)
        ensures
            r.guards.deep_view() == self.guards.deep_view(),
            r.entries.deep_view() == self.entries.deep_view().push(
                RouteEntryV {
                    method,
                    pattern: pattern.deep_view(),
                    guards: Seq::empty(),
                    handler: handler@,
                },
            ),
    {
        let mut entries = self.entries;
        let ghost before = entries.deep_view();
        let e = RouteEntry { method, pattern, guards: Vec::new(), handler };
        proof {
            assert(e.guards.deep_view() =~= Seq::<GuardV>::empty());
        }
        entries.push(e);
        proof {
            assert(entries.deep_view() =~= before.push(e@));
        }
        Scope { guards: self.guards, entries }
    }

    /// Nests a child scope under a path prefix: every entry of the
    /// child appears after this scope's entries, with the prefix put
    /// before its pattern and the child's guards before its own.
    pub fn nest(self, prefix: Vec<SegPat>, child: Scope) -> (r: Scope)
        ensures
            r.guards.deep_view() == self.guards.deep_view(),
            r.entries.deep_view() == self.entries.deep_view() + child.entries.deep_view()
                .map_values(
                |e: RouteEntryV| nested_entry(prefix.deep_view(), child.guards.deep_view(), e),
            ),
    {
        let ghost selfdeep = self.entries.deep_view();
        let ghost childdeep = child.entries.deep_view();
        let ghost f = |e: RouteEntryV| nested_entry(prefix.deep_view(), child.guards.deep_view(), e);
        let mut out = self.entries;
        let n = child.entries.len();
        proof {
            assert(out.deep_view() =~= selfdeep + childdeep.take(0).map_values(f));
        }
        for k in 0..n
            invariant
                n == child.entries@.len(),
                childdeep == child.entries.deep_view(),
                f == (|e: RouteEntryV| nested_entry(
                    prefix.deep_view(),
                    child.guards.deep_view(),
                    e,
                )),
                out.deep_view() == selfdeep + childdeep.take(k as int).map_values(f),
        {
            let ghost before = out.deep_view();
            let e = &child.entries[k];
            let mut pat = clone_pats(&prefix);
            let mut tail = clone_pats(&e.pattern);
            pat.append(&mut tail);
            let mut gs = clone_guards(&child.guards);
            let mut gtail = clone_guards(&e.guards);
            gs.append(&mut gtail);
            let ne = RouteEntry {
                method: e.method,
                pattern: pat,
                guards: gs,
                handler: e.handler.clone(),
            };
            proof {
                assert(ne.pattern.deep_view() =~= prefix.deep_view() + childdeep[k as int].pattern);
                assert(ne.guards.deep_view() =~= child.guards.deep_view()
                    + childdeep[k as int].guards);
                assert(ne@ == f(childdeep[k as int]));
            }
            out.push(ne);
            proof {
                assert(out.deep_view() =~= before.push(f(childdeep[k as int])));
                assert(childdeep.take(k + 1) =~= childdeep.take(k as int).push(
                    childdeep[k as int],
                ));
                assert(childdeep.take(k + 1).map_values(f) =~= childdeep.take(k as int).map_values(
                    f,
                ).push(f(childdeep[k as int])));
                assert(out.deep_view() =~= selfdeep + childdeep.take(k + 1).map_values(f));
            }
        }
        proof {
            assert(childdeep.take(n as int) =~= childdeep);
        }
        Scope { guards: self.guards, entries: out }
    }

    /// Finishes the scope: its own guards are put before each entry's,
    /// and the flat route table comes out in registration order.
    pub fn build(self) -> (r: Vec<RouteEntry>)
        ensures
            r.deep_view() == self.entries.deep_view().map_values(
                (|e: RouteEntryV| nested_entry(Seq::<SegPatV>::empty(), self.guards.deep_view(), e)),
            ),
    {
        let empty_prefix: Vec<SegPat> = Vec::new();
        proof {
            assert(empty_prefix.deep_view() =~= Seq::<SegPatV>::empty());
        }
        let folded = Scope { guards: Vec::new(), entries: Vec::new() }.nest(empty_prefix, self);
        let ghost selfguards = self.guards.deep_view();
        proof {
            assert(Seq::<RouteEntryV>::empty() + self.entries.deep_view().map_values(
                (|e: RouteEntryV| nested_entry(Seq::<SegPatV>::empty(), selfguards, e)),
            ) =~= self.entries.deep_view().map_values(
                (|e: RouteEntryV| nested_entry(Seq::<SegPatV>::empty(), selfguards, e)),
            ));
        }
        folded.entries
    }
}

/// Guard composition across nesting: an entry carrying exactly the
/// guards G1 (outer scope) then G2 (inner scope) is reachable if and
/// only if both admit the request — never on one alone, and a guard
/// failure is a non-match of the whole route, not a partial match.
pub proof fn lemma_nested_guard_conjunction(
    e: RouteEntryV,
    g1: GuardV,
    g2: GuardV,
    method: Method,
    segs: Seq<Seq<char>>,
    headers: Seq<(Seq<char>, Seq<char>)>,
)
    requires
        e.guards == seq![g1, g2],
    ensures
        entry_matches(e, method, segs, headers) <==> (e.method == method && pattern_matches(
            e.pattern,
            segs,
        ) && guard_passes(g1, headers) && guard_passes(g2, headers)),
{
    assert(e.guards[0] == g1);
    assert(e.guards[1] == g2);
    if guard_passes(g1, headers) && guard_passes(g2, headers) {
        assert forall|i: int| 0 <= i < e.guards.len() implies guard_passes(
            #[trigger] e.guards[i],
            headers,
        ) by {
            if i == 0 {
                assert(guard_passes(g1, headers));
            } else {
                assert(i == 1);
                assert(guard_passes(g2, headers));
            }
        }
    }
}

/// Routes the request and runs the matched handler.
pub fn route_and_run(entries: &Vec<RouteEntry>, req: &Request) -> (r: Response)
    ensures
        r@ == route_response(entries.deep_view(), req@),
{
    match match_route(entries, req.method, req.path.as_str(), &req.headers) {
        Some((i, params)) => run_handler(&entries[i].handler, &params),
        None => Response::bare(STATUS_NOT_FOUND),
    }
}

} // verus!
