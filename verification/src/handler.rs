//! Responder invocation: a handler takes the bound path parameters and
//! produces a response as plain data.

use vstd::prelude::*;
use crate::http::{Response, ResponseV, HeaderMap, STATUS_OK};
use crate::num::{dec_seq, u64_to_string};
use crate::path::{Param, ParamV, CapV, CapValue};

verus! {

/// What runs once a route has matched.
pub enum Handler {
    /// Always the same response: the given status, extra headers, body.
    Fixed { status: u16, headers: Vec<(String, String)>, body: String },
    /// A 200 response echoing the integer captures in order: the prefix,
    /// then the integers in decimal separated by `sep`.
    IntsEcho { prefix: String, sep: String },
}

/// The abstract value of a handler.
pub enum HandlerV {
    Fixed { status: u16, headers: Seq<(Seq<char>, Seq<char>)>, body: Seq<char> },
    IntsEcho { prefix: Seq<char>, sep: Seq<char> },
}

impl View for Handler {
    type V = HandlerV;

    open spec fn view(&self) -> HandlerV {
        match self {
            Handler::Fixed { status, headers, body } => HandlerV::Fixed {
                status: *status,
                headers: headers@.map_values(|p: (String, String)| (p.0@, p.1@)),
                body: body@,
            },
            Handler::IntsEcho { prefix, sep } => HandlerV::IntsEcho {
                prefix: prefix@,
                sep: sep@,
            },
        }
    }
}

impl DeepView for Handler {
    type V = HandlerV;

    open spec fn deep_view(&self) -> HandlerV {
        self@
    }
}

/// The integer captures among the parameters, in order.
pub open spec fn ints_of(params: Seq<ParamV>) -> Seq<u64>
    decreases params.len(),
{
    if params.len() == 0 {
        Seq::empty()
    } else {
        match params[0].value {
            CapV::Int(n) => seq![n] + ints_of(params.drop_first()),
            CapV::Str(_) => ints_of(params.drop_first()),
        }
    }
}

/// The decimal renderings of `vals` joined with `sep`.
pub open spec fn join_dec(vals: Seq<u64>, sep: Seq<char>) -> Seq<char>
    decreases vals.len(),
{
    if vals.len() == 0 {
        Seq::empty()
    } else if vals.len() == 1 {
        dec_seq(vals[0] as nat)
    } else {
        dec_seq(vals[0] as nat) + sep + join_dec(vals.drop_first(), sep)
    }
}

/// What response a handler gives for these parameters.
pub open spec fn run_handler_spec(h: HandlerV, params: Seq<ParamV>) -> ResponseV {
    match h {
        HandlerV::Fixed { status, headers, body } => ResponseV { status, headers, body },
        HandlerV::IntsEcho { prefix, sep } => ResponseV {
            status: STATUS_OK,
            headers: Seq::empty(),
            body: prefix + join_dec(ints_of(params), sep),
        },
    }
}

/// The integer captures from index `k` on, as a vector.
fn ints_from(params: &Vec<Param>, k: usize) -> (r: Vec<u64>)
    requires
        k <= params@.len(),
    ensures
        r@ == ints_of(params.deep_view().skip(k as int)),
    decreases params@.len() - k,
{
    let ghost pv = params.deep_view().skip(k as int);
    if k == params.len() {
        let r: Vec<u64> = Vec::new();
        assert(r@ =~= ints_of(pv));
        r
    } else {
        proof {
            assert(pv[0] == params.deep_view()[k as int]);
            assert(pv.drop_first() =~= params.deep_view().skip(k as int + 1));
        }
        let mut rest = ints_from(params, k + 1);
        match &params[k].value {
            CapValue::Int(n) => {
                let ghost restv = rest@;
                rest.insert(0, *n);
                assert(rest@ =~= seq![*n] + restv);
            },
            CapValue::Str(_) => {},
        }
        assert(rest@ =~= ints_of(pv));
        rest
    }
}

/// Joins the decimal renderings of `vals` from index `k` on.
fn join_dec_from(vals: &Vec<u64>, k: usize, sep: &str) -> (r: String)
    requires
        k <= vals@.len(),
    ensures
        r@ == join_dec(vals@.skip(k as int), sep@),
    decreases vals@.len() - k,
{
    let ghost vv = vals@.skip(k as int);
    if k == vals.len() {
        let r = String::new();
        assert(r@ =~= join_dec(vv, sep@));
        r
    } else if k + 1 == vals.len() {
        let r = u64_to_string(vals[k]);
        assert(vv.len() == 1 && vv[0] == vals@[k as int]);
        r
    } else {
        let mut r = u64_to_string(vals[k]);
        r.append(sep);
        let tail = join_dec_from(vals, k + 1, sep);
        r.append(tail.as_str());
        proof {
            assert(vv[0] == vals@[k as int]);
            assert(vv.drop_first() =~= vals@.skip(k as int + 1));
            assert(r@ =~= dec_seq(vv[0] as nat) + sep@ + join_dec(vv.drop_first(), sep@));
        }
        r
    }
}

/// Runs a handler on the bound parameters.
pub fn run_handler(h: &Handler, params: &Vec<Param>) -> (r: Response)
    ensures
        r@ == run_handler_spec(h@, params.deep_view()),
{
    match h {
        Handler::Fixed { status, headers, body } => {
            let mut hm = HeaderMap::new();
            let n = headers.len();
            proof {
                let all = headers@.map_values(|p: (String, String)| (p.0@, p.1@));
                assert(hm@ =~= all.take(0));
            }
            for i in 0..n
                invariant
                    n == headers@.len(),
                    hm@ == headers@.map_values(|p: (String, String)| (p.0@, p.1@)).take(i as int),
            {
                let ghost before = hm@;
                hm.push(headers[i].0.as_str(), headers[i].1.as_str());
                proof {
                    let all = headers@.map_values(|p: (String, String)| (p.0@, p.1@));
                    assert(all.take(i + 1) =~= all.take(i as int).push(all[i as int]));
                }
            }
            proof {
                let all = headers@.map_values(|p: (String, String)| (p.0@, p.1@));
                assert(all.take(n as int) =~= all);
            }
            Response { status: *status, headers: hm, body: body.clone() }
        },
        Handler::IntsEcho { prefix, sep } => {
            let vals = ints_from(params, 0);
            let joined = join_dec_from(&vals, 0, sep.as_str());
            let mut body = prefix.clone();
            body.append(joined.as_str());
            proof {
                assert(params.deep_view().skip(0) =~= params.deep_view());
                assert(vals@.skip(0) =~= vals@);
            }
            Response { status: STATUS_OK, headers: HeaderMap::new(), body }
        },
    }
}

} // verus!
