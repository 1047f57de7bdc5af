//! The error-mapping layer: a table from status code to a response
//! rewrite, applied once after the chain. A response whose status has
//! a handler is replaced by that handler's body and content type (the
//! status itself is kept); any other response passes through
//! unchanged. The table holds at most one handler per code.

use vstd::prelude::*;
use crate::http::{Response, ResponseV, remove_name};

verus! {

/// The replacement a handler writes: a content type and a body.
pub struct Rewrite {
    pub content_type: String,
    pub body: String,
}

/// The abstract value of a rewrite.
pub struct RewriteV {
    pub content_type: Seq<char>,
    pub body: Seq<char>,
}

impl View for Rewrite {
    type V = RewriteV;

    open spec fn view(&self) -> RewriteV {
        RewriteV { content_type: self.content_type@, body: self.body@ }
    }
}

/// The rewrite registered for `code`, if any.
pub open spec fn lookup_code(t: Seq<(u16, RewriteV)>, code: u16) -> Option<RewriteV>
    decreases t.len(),
{
    if t.len() == 0 {
        None
    } else if t[0].0 == code {
        Some(t[0].1)
    } else {
        lookup_code(t.drop_first(), code)
    }
}

/// How many handlers `t` holds for `code`.
pub open spec fn count_code(t: Seq<(u16, RewriteV)>, code: u16) -> nat
    decreases t.len(),
{
    if t.len() == 0 {
        0
    } else {
        (if t[0].0 == code { 1nat } else { 0nat }) + count_code(t.drop_first(), code)
    }
}

/// `t` with every handler for `code` removed, order otherwise kept.
pub open spec fn remove_code(t: Seq<(u16, RewriteV)>, code: u16) -> Seq<(u16, RewriteV)>
    decreases t.len(),
{
    if t.len() == 0 {
        t
    } else if t[0].0 == code {
        remove_code(t.drop_first(), code)
    } else {
        seq![t[0]] + remove_code(t.drop_first(), code)
    }
}

pub proof fn lemma_remove_code_clears(t: Seq<(u16, RewriteV)>, code: u16)
    ensures
        count_code(remove_code(t, code), code) == 0,
    decreases t.len(),
{
    if t.len() > 0 {
        lemma_remove_code_clears(t.drop_first(), code);
        if t[0].0 != code {
            let rest = remove_code(t.drop_first(), code);
            assert((seq![t[0]] + rest).drop_first() =~= rest);
        }
    }
}

pub proof fn lemma_remove_code_snoc(t: Seq<(u16, RewriteV)>, x: (u16, RewriteV), code: u16)
    ensures
        remove_code(t.push(x), code) == if x.0 == code {
            remove_code(t, code)
        } else {
            remove_code(t, code).push(x)
        },
    decreases t.len(),
{
    if t.len() == 0 {
        assert(t.push(x).drop_first() =~= t);
        if x.0 != code {
            assert(seq![t.push(x)[0]] + remove_code(t, code) =~= remove_code(t, code).push(x));
        }
    } else {
        assert(t.push(x).drop_first() =~= t.drop_first().push(x));
        lemma_remove_code_snoc(t.drop_first(), x, code);
        if x.0 != code && t[0].0 != code {
            assert(seq![t.push(x)[0]] + remove_code(t.drop_first(), code).push(x) =~= (seq![t[0]]
                + remove_code(t.drop_first(), code)).push(x));
        }
    }
}

pub proof fn lemma_count_code_snoc(t: Seq<(u16, RewriteV)>, x: (u16, RewriteV), code: u16)
    ensures
        count_code(t.push(x), code) == count_code(t, code) + (if x.0 == code {
            1nat
        } else {
            0nat
        }),
    decreases t.len(),
{
    if t.len() == 0 {
        assert(t.push(x).drop_first() =~= t);
    } else {
        assert(t.push(x).drop_first() =~= t.drop_first().push(x));
        lemma_count_code_snoc(t.drop_first(), x, code);
    }
}

/// After pushing a handler for `code` onto a table with none, that
/// handler is the one found.
pub proof fn lemma_lookup_code_after_set(t: Seq<(u16, RewriteV)>, x: (u16, RewriteV), code: u16)
    requires
        count_code(t, code) == 0,
        x.0 == code,
    ensures
        lookup_code(t.push(x), code) == Some(x.1),
    decreases t.len(),
{
    if t.len() > 0 {
        assert(t.push(x).drop_first() =~= t.drop_first().push(x));
        lemma_lookup_code_after_set(t.drop_first(), x, code);
    }
}

/// Pushing a handler for one code does not change what is found for
/// another.
pub proof fn lemma_lookup_code_push_other(t: Seq<(u16, RewriteV)>, x: (u16, RewriteV), other: u16)
    requires
        x.0 != other,
    ensures
        lookup_code(t.push(x), other) == lookup_code(t, other),
    decreases t.len(),
{
    if t.len() == 0 {
        assert(t.push(x).drop_first() =~= t);
    } else {
        assert(t.push(x).drop_first() =~= t.drop_first().push(x));
        lemma_lookup_code_push_other(t.drop_first(), x, other);
    }
}

/// Removing one code's handlers does not change what is found for
/// another.
pub proof fn lemma_remove_code_keeps_other(t: Seq<(u16, RewriteV)>, code: u16, other: u16)
    requires
        code != other,
    ensures
        lookup_code(remove_code(t, code), other) == lookup_code(t, other),
    decreases t.len(),
{
    if t.len() > 0 {
        lemma_remove_code_keeps_other(t.drop_first(), code, other);
        if t[0].0 != code {
            let rest = remove_code(t.drop_first(), code);
            assert((seq![t[0]] + rest).drop_first() =~= rest);
            assert((seq![t[0]] + rest)[0] == t[0]);
        }
    }
}

/// The table of error handlers, keyed by status code.
pub struct ErrorTable {
    entries: Vec<(u16, Rewrite)>,
}

impl View for ErrorTable {
    type V = Seq<(u16, RewriteV)>;

    closed spec fn view(&self) -> Seq<(u16, RewriteV)> {
        self.entries@.map_values(|p: (u16, Rewrite)| (p.0, p.1@))
    }
}

impl ErrorTable {
    pub fn new() -> (r: ErrorTable)
        ensures
            r@ == Seq::<(u16, RewriteV)>::empty(),
    {
        let r = ErrorTable { entries: Vec::new() };
        proof {
            assert(r@ =~= Seq::<(u16, RewriteV)>::empty());
        }
        r
    }

    /// Registers the handler for a status code, replacing any earlier
    /// one for the same code: the table keeps at most one per code.
    pub fn handler(self, code: u16, content_type: &str, body: &str) -> (r: ErrorTable)
        ensures
            r@ == remove_code(self@, code).push(
                (code, RewriteV { content_type: content_type@, body: body@ }),
            ),
            lookup_code(r@, code) == Some(
                RewriteV { content_type: content_type@, body: body@ },
            ),
            count_code(r@, code) == 1,
    {
        let ghost orig = self@;
        let mut kept: Vec<(u16, Rewrite)> = Vec::new();
        let n = self.entries.len();
        proof {
            assert(orig.take(0) =~= Seq::<(u16, RewriteV)>::empty());
            assert(kept@.map_values(|p: (u16, Rewrite)| (p.0, p.1@)) =~= Seq::<(
                u16,
                RewriteV,
            )>::empty());
        }
        for i in 0..n
            invariant
                n == self.entries.len(),
                orig == self@,
                orig.len() == n,
                kept@.map_values(|p: (u16, Rewrite)| (p.0, p.1@)) == remove_code(
                    orig.take(i as int),
                    code,
                ),
        {
            let ghost before = kept@.map_values(|p: (u16, Rewrite)| (p.0, p.1@));
            if self.entries[i].0 != code {
                let pair = (self.entries[i].0, Rewrite {
                    content_type: self.entries[i].1.content_type.clone(),
                    body: self.entries[i].1.body.clone(),
                });
                kept.push(pair);
            }
            proof {
                assert(orig.take(i + 1) =~= orig.take(i as int).push(orig[i as int]));
                lemma_remove_code_snoc(orig.take(i as int), orig[i as int], code);
                assert(orig[i as int] == (self.entries@[i as int].0, self.entries@[i as int].1@));
                if orig[i as int].0 != code {
                    assert(kept@.map_values(|p: (u16, Rewrite)| (p.0, p.1@)) =~= before.push(
                        orig[i as int],
                    ));
                }
            }
        }
        let rw = Rewrite { content_type: content_type.to_owned(), body: body.to_owned() };
        kept.push((code, rw));
        let r = ErrorTable { entries: kept };
        proof {
            assert(orig.take(n as int) =~= orig);
            let x = (code, RewriteV { content_type: content_type@, body: body@ });
            assert(r@ =~= remove_code(orig, code).push(x));
            lemma_remove_code_clears(orig, code);
            lemma_lookup_code_after_set(remove_code(orig, code), x, code);
            lemma_count_code_snoc(remove_code(orig, code), x, code);
        }
        r
    }

    /// The rewrite for a code, if one is registered.
    pub fn find(&self, code: u16) -> (r: Option<&Rewrite>)
        ensures
            match r {
                Some(rw) => lookup_code(self@, code) == Some(rw@),
                None => lookup_code(self@, code) is None,
            },
    {
        let n = self.entries.len();
        proof {
            assert(self@.skip(0) =~= self@);
        }
        for i in 0..n
            invariant
                n == self.entries.len(),
                self@.len() == n,
                lookup_code(self@, code) == lookup_code(self@.skip(i as int), code),
        {
            let ghost pre = self@.skip(i as int);
            if self.entries[i].0 == code {
                assert(pre[0] == self@[i as int]);
                return Some(&self.entries[i].1);
            }
            proof {
                assert(pre[0] == self@[i as int]);
                assert(pre.drop_first() =~= self@.skip(i + 1));
            }
        }
        proof {
            assert(self@.skip(n as int) =~= Seq::<(u16, RewriteV)>::empty());
        }
        None
    }
}

/// The name under which the replacement's content type is recorded.
pub open spec fn content_type_name() -> Seq<char> {
    "content-type"@
}

/// Applying the table to a finished response: if the status has a
/// handler, the body and content type are replaced and the status
/// kept; otherwise the response is untouched.
pub open spec fn apply_error_map(t: Seq<(u16, RewriteV)>, resp: ResponseV) -> ResponseV {
    match lookup_code(t, resp.status) {
        Some(rw) => ResponseV {
            status: resp.status,
            headers: remove_name(resp.headers, content_type_name()).push(
                (content_type_name(), rw.content_type),
            ),
            body: rw.body,
        },
        None => resp,
    }
}

/// Applies the error table to a response.
pub fn apply_error_handlers(t: &ErrorTable, resp: Response) -> (r: Response)
    ensures
        r@ == apply_error_map(t@, resp@),
{
    match t.find(resp.status) {
        Some(rw) => {
            let mut resp = resp;
            let body = rw.body.clone();
            resp.headers.set("content-type", rw.content_type.as_str());
            resp.body = body;
            resp
        },
        None => resp,
    }
}

/// The error handlers the examples install: a JSON not-found body, a
/// plain bad-request body, a plain internal-error body.
pub fn standard_error_table() -> (r: ErrorTable)
    ensures
        r@ == seq![
            (
                crate::http::STATUS_INTERNAL_ERROR,
                RewriteV { content_type: "text/plain"@, body: "Internal server error"@ },
            ),
            (
                crate::http::STATUS_BAD_REQUEST,
                RewriteV { content_type: "text/plain"@, body: "Bad request"@ },
            ),
            (
                crate::http::STATUS_NOT_FOUND,
                RewriteV {
                    content_type: "application/json"@,
                    body: "{\"error\":\"Not found\",\"message\":\"The requested resource was not found\"}"@,
                },
            ),
        ],
        lookup_code(r@, crate::http::STATUS_NOT_FOUND) == Some(
            RewriteV {
                content_type: "application/json"@,
                body: "{\"error\":\"Not found\",\"message\":\"The requested resource was not found\"}"@,
            },
        ),
        lookup_code(r@, crate::http::STATUS_INTERNAL_ERROR) == Some(
            RewriteV { content_type: "text/plain"@, body: "Internal server error"@ },
        ),
        lookup_code(r@, crate::http::STATUS_BAD_REQUEST) == Some(
            RewriteV { content_type: "text/plain"@, body: "Bad request"@ },
        ),
{
    let t0 = ErrorTable::new();
    let t1 = t0.handler(
        crate::http::STATUS_INTERNAL_ERROR,
        "text/plain",
        "Internal server error",
    );
    let t2 = t1.handler(crate::http::STATUS_BAD_REQUEST, "text/plain", "Bad request");
    let t3 = t2.handler(
        crate::http::STATUS_NOT_FOUND,
        "application/json",
        "{\"error\":\"Not found\",\"message\":\"The requested resource was not found\"}",
    );
    proof {
        let x400 = (crate::http::STATUS_BAD_REQUEST, RewriteV {
            content_type: "text/plain"@,
            body: "Bad request"@,
        });
        let x404 = (crate::http::STATUS_NOT_FOUND, RewriteV {
            content_type: "application/json"@,
            body: "{\"error\":\"Not found\",\"message\":\"The requested resource was not found\"}"@,
        });
        lemma_remove_code_keeps_other(t1@, crate::http::STATUS_BAD_REQUEST, crate::http::STATUS_INTERNAL_ERROR);
        lemma_lookup_code_push_other(remove_code(t1@, crate::http::STATUS_BAD_REQUEST), x400, crate::http::STATUS_INTERNAL_ERROR);
        lemma_remove_code_keeps_other(t2@, crate::http::STATUS_NOT_FOUND, crate::http::STATUS_INTERNAL_ERROR);
        lemma_lookup_code_push_other(remove_code(t2@, crate::http::STATUS_NOT_FOUND), x404, crate::http::STATUS_INTERNAL_ERROR);
        lemma_remove_code_keeps_other(t2@, crate::http::STATUS_NOT_FOUND, crate::http::STATUS_BAD_REQUEST);
        lemma_lookup_code_push_other(remove_code(t2@, crate::http::STATUS_NOT_FOUND), x404, crate::http::STATUS_BAD_REQUEST);
        let x500 = (crate::http::STATUS_INTERNAL_ERROR, RewriteV {
            content_type: "text/plain"@,
            body: "Internal server error"@,
        });
        let e = Seq::<(u16, RewriteV)>::empty();
        assert(remove_code(e, crate::http::STATUS_INTERNAL_ERROR) == e);
        assert(remove_code(e, crate::http::STATUS_BAD_REQUEST) == e);
        assert(remove_code(e, crate::http::STATUS_NOT_FOUND) == e);
        assert(t1@ =~= seq![x500]);
        assert(seq![x500].drop_first() =~= e);
        assert(remove_code(t1@, crate::http::STATUS_BAD_REQUEST) =~= seq![x500]);
        assert(t2@ =~= seq![x500, x400]);
        assert(seq![x500, x400].drop_first() =~= seq![x400]);
        assert(seq![x400].drop_first() =~= e);
        assert(remove_code(seq![x400], crate::http::STATUS_NOT_FOUND) =~= seq![x400]);
        assert(remove_code(t2@, crate::http::STATUS_NOT_FOUND) =~= seq![x500, x400]);
        assert(t3@ =~= seq![x500, x400, x404]);
    }
    t3
}

} // verus!
