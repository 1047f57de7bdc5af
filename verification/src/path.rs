//! Path patterns and typed captures.
//!
//! A path is split at '/' into segments; a pattern is a list of literal
//! and capture segments. An integer capture matches only a segment that
//! is a decimal number fitting in `u64` — anything else is a non-match
//! of the whole route, never a partial match.

use vstd::prelude::*;
use crate::num::{all_digits, dec_val, parse_u64};

verus! {

/// The index of the first '/' in `s`, or `s.len()` when there is none.
pub open spec fn find_sep(s: Seq<char>) -> nat
    decreases s.len(),
{
    if s.len() == 0 {
        0
    } else if s[0] == '/' {
        0
    } else {
        1 + find_sep(s.drop_first())
    }
}

/// `find_sep` is the unique position with nothing but non-separators
/// before it and a separator (or the end) at it.
pub proof fn lemma_find_sep_at(s: Seq<char>, k: int)
    requires
        0 <= k <= s.len(),
        forall|j: int| 0 <= j < k ==> s[j] != '/',
        k < s.len() ==> s[k] == '/',
    ensures
        find_sep(s) == k,
    decreases s.len(),
{
    if s.len() > 0 && s[0] != '/' {
        let t = s.drop_first();
        assert(forall|j: int| 0 <= j < k - 1 ==> t[j] != '/');
        lemma_find_sep_at(t, k - 1);
    }
}

/// Splitting at '/': the pieces between separators, in order. A string
/// without a separator is one piece; every separator ends a piece, and
/// the rest of the string follows as further pieces.
pub open spec fn split_on(s: Seq<char>) -> Seq<Seq<char>>
    decreases s.len(),
{
    let i = find_sep(s);
    if i >= s.len() {
        seq![s]
    } else {
        seq![s.take(i as int)] + split_on(s.skip(i as int + 1))
    }
}

/// The segments of a request path: a single leading '/' is dropped,
/// the rest is split at '/'.
pub open spec fn split_path(s: Seq<char>) -> Seq<Seq<char>> {
    if s.len() > 0 && s[0] == '/' {
        split_on(s.drop_first())
    } else {
        split_on(s)
    }
}

/// Splits `s` at '/' from position `from` on.
fn split_on_from(s: &str, from: usize) -> (r: Vec<String>)
    requires
        from <= s@.len(),
    ensures
        r.deep_view() == split_on(s@.skip(from as int)),
    decreases s@.len() - from,
{
    let n = s.unicode_len();
    let mut i = from;
    while i < n && s.get_char(i) != '/'
        invariant
            from <= i <= n,
            n == s@.len(),
            forall|j: int| from <= j < i ==> s@[j] != '/',
        decreases n - i,
    {
        i += 1;
    }
    let ghost t = s@.skip(from as int);
    proof {
        assert(forall|j: int| 0 <= j < i - from ==> t[j] != '/');
        if i < n {
            assert(t[i - from] == s@[i as int]);
        }
        lemma_find_sep_at(t, i - from);
    }
    let piece = s.substring_char(from, i).to_owned();
    proof {
        assert(piece@ =~= t.take(i - from));
    }
    if i < n {
        let mut rest = split_on_from(s, i + 1);
        rest.insert(0, piece);
        proof {
            assert(s@.skip(i + 1) =~= t.skip(i - from + 1));
            assert(rest.deep_view() =~= seq![t.take(i - from)] + split_on(t.skip(i - from + 1)));
        }
        rest
    } else {
        let mut r: Vec<String> = Vec::new();
        r.push(piece);
        proof {
            assert(piece@ =~= t);
            assert(r.deep_view() =~= seq![t]);
        }
        r
    }
}

/// Splits a request path into its segments.
pub fn path_segments(s: &str) -> (r: Vec<String>)
    ensures
        r.deep_view() == split_path(s@),
{
    if s.unicode_len() > 0 && s.get_char(0) == '/' {
        let r = split_on_from(s, 1);
        proof {
            assert(s@.skip(1) =~= s@.drop_first());
        }
        r
    } else {
        let r = split_on_from(s, 0);
        proof {
            assert(s@.skip(0) =~= s@);
        }
        r
    }
}

/// Decides whether a path lies under a mount prefix, and with what
/// remainder: the delegation test for an opaque static-content
/// provider. The caller hands the remainder to the provider and turns
/// its not-found signal into the pipeline's own not-found response.
pub fn strip_prefix_segments(prefix: &Vec<String>, path: &str) -> (r: Option<Vec<String>>)
    ensures
        r is Some <==> (split_path(path@).len() >= prefix.deep_view().len() && (forall|i: int|
            0 <= i < prefix.deep_view().len() ==> split_path(path@)[i] == #[trigger] prefix.deep_view()[i])),
        r matches Some(rest) ==> rest.deep_view() == split_path(path@).skip(
            prefix.deep_view().len() as int,
        ),
{
    let segs = path_segments(path);
    let n = prefix.len();
    if segs.len() < n {
        return None;
    }
    for i in 0..n
        invariant
            n == prefix@.len(),
            segs.deep_view() == split_path(path@),
            n <= segs@.len(),
            forall|j: int| 0 <= j < i ==> split_path(path@)[j] == #[trigger] prefix.deep_view()[j],
    {
        let pi: &String = &prefix[i];
        let si: &String = &segs[i];
        if !(*pi == *si) {
            assert(split_path(path@)[i as int] != prefix.deep_view()[i as int]);
            return None;
        }
        assert(split_path(path@)[i as int] == prefix.deep_view()[i as int]);
    }
    let mut rest: Vec<String> = Vec::new();
    let m = segs.len();
    proof {
        assert(rest.deep_view() =~= split_path(path@).skip(n as int).take(0));
    }
    let mut i = n;
    while i < m
        invariant
            n <= i <= m,
            m == segs@.len(),
            segs.deep_view() == split_path(path@),
            rest.deep_view() == split_path(path@).skip(n as int).take(i - n),
        decreases m - i,
    {
        let ghost before = rest.deep_view();
        rest.push(segs[i].clone());
        proof {
            let tail = split_path(path@).skip(n as int);
            assert(tail[i - n] == split_path(path@)[i as int]);
            assert(rest.deep_view() =~= before.push(tail[i - n]));
            assert(tail.take(i - n + 1) =~= tail.take(i - n).push(tail[i - n]));
        }
        i += 1;
    }
    proof {
        let tail = split_path(path@).skip(n as int);
        assert(tail.take(m - n) =~= tail);
    }
    Some(rest)
}

/// One segment of a route pattern.
pub enum SegPat {
    /// Matches exactly this text.
    Lit(String),
    /// A named capture that matches only a decimal number fitting in
    /// `u64` and binds it as an integer.
    CaptureInt(String),
    /// A named capture that matches any non-empty segment and binds its
    /// text.
    CaptureStr(String),
}

/// The abstract value of a pattern segment.
pub enum SegPatV {
    Lit(Seq<char>),
    CaptureInt(Seq<char>),
    CaptureStr(Seq<char>),
}

impl View for SegPat {
    type V = SegPatV;

    open spec fn view(&self) -> SegPatV {
        match self {
            SegPat::Lit(s) => SegPatV::Lit(s@),
            SegPat::CaptureInt(n) => SegPatV::CaptureInt(n@),
            SegPat::CaptureStr(n) => SegPatV::CaptureStr(n@),
        }
    }
}

impl DeepView for SegPat {
    type V = SegPatV;

    open spec fn deep_view(&self) -> SegPatV {
        self@
    }
}

impl Clone for SegPat {
    fn clone(&self) -> (r: Self)
        ensures
            r@ == self@,
    {
        match self {
            SegPat::Lit(s) => SegPat::Lit(s.clone()),
            SegPat::CaptureInt(n) => SegPat::CaptureInt(n.clone()),
            SegPat::CaptureStr(n) => SegPat::CaptureStr(n.clone()),
        }
    }
}

/// Whether one pattern segment matches one path segment.
pub open spec fn seg_matches(p: SegPatV, seg: Seq<char>) -> bool {
    match p {
        SegPatV::Lit(s) => seg == s,
        SegPatV::CaptureInt(_) => seg.len() >= 1 && all_digits(seg) && dec_val(seg) <= u64::MAX,
        SegPatV::CaptureStr(_) => seg.len() >= 1,
    }
}

/// Whether a whole pattern matches a whole segment list: same length,
/// segment by segment.
pub open spec fn pattern_matches(ps: Seq<SegPatV>, segs: Seq<Seq<char>>) -> bool {
    ps.len() == segs.len() && forall|i: int| 0 <= i < ps.len() ==> seg_matches(
        #[trigger] ps[i],
        segs[i],
    )
}

/// A captured value: the typed binding of one capture segment.
pub enum CapValue {
    Int(u64),
    Str(String),
}

/// The abstract value of a captured value.
pub enum CapV {
    Int(u64),
    Str(Seq<char>),
}

impl View for CapValue {
    type V = CapV;

    open spec fn view(&self) -> CapV {
        match self {
            CapValue::Int(n) => CapV::Int(*n),
            CapValue::Str(s) => CapV::Str(s@),
        }
    }
}

/// One named, typed path parameter.
pub struct Param {
    pub name: String,
    pub value: CapValue,
}

/// The abstract value of a path parameter.
pub struct ParamV {
    pub name: Seq<char>,
    pub value: CapV,
}

impl View for Param {
    type V = ParamV;

    open spec fn view(&self) -> ParamV {
        ParamV { name: self.name@, value: self.value@ }
    }
}

impl DeepView for Param {
    type V = ParamV;

    open spec fn deep_view(&self) -> ParamV {
        self@
    }
}

/// The parameters a matching pattern binds, in pattern order. Only
/// meaningful when `pattern_matches(ps, segs)` holds.
pub open spec fn spec_captures(ps: Seq<SegPatV>, segs: Seq<Seq<char>>) -> Seq<ParamV>
    decreases ps.len(),
{
    if ps.len() == 0 || segs.len() == 0 {
        Seq::empty()
    } else {
        let rest = spec_captures(ps.drop_first(), segs.drop_first());
        match ps[0] {
            SegPatV::Lit(_) => rest,
            SegPatV::CaptureInt(n) => seq![
                ParamV { name: n, value: CapV::Int(dec_val(segs[0]) as u64) },
            ] + rest,
            SegPatV::CaptureStr(n) => seq![ParamV { name: n, value: CapV::Str(segs[0]) }] + rest,
        }
    }
}

/// Matches pattern segments against path segments from index `i` on.
fn match_from(ps: &Vec<SegPat>, segs: &Vec<String>, i: usize) -> (r: Option<Vec<Param>>)
    requires
        i <= ps@.len(),
        i <= segs@.len(),
    ensures
        r is Some <==> pattern_matches(ps.deep_view().skip(i as int), segs.deep_view().skip(i as int)),
        r matches Some(v) ==> v.deep_view() == spec_captures(
            ps.deep_view().skip(i as int),
            segs.deep_view().skip(i as int),
        ),
    decreases ps@.len() - i,
{
    let ghost psv = ps.deep_view().skip(i as int);
    let ghost sgv = segs.deep_view().skip(i as int);
    if i == ps.len() {
        if segs.len() == i {
            let r: Vec<Param> = Vec::new();
            proof {
                assert(psv.len() == 0);
                assert(sgv.len() == 0);
                assert(r.deep_view() =~= spec_captures(psv, sgv));
            }
            Some(r)
        } else {
            assert(psv.len() != sgv.len());
            None
        }
    } else if i == segs.len() {
        assert(psv.len() != sgv.len());
        None
    } else {
        proof {
            assert(psv[0] == ps.deep_view()[i as int]);
            assert(sgv[0] == segs.deep_view()[i as int]);
            assert(psv.drop_first() =~= ps.deep_view().skip(i as int + 1));
            assert(sgv.drop_first() =~= segs.deep_view().skip(i as int + 1));
        }
        let seg: &String = &segs[i];
        let step: Option<Param> = match &ps[i] {
            SegPat::Lit(s) => {
                if *s == *seg {
                    None
                } else {
                    assert(!seg_matches(psv[0], sgv[0]));
                    return None;
                }
            },
            SegPat::CaptureInt(n) => {
                match parse_u64(seg.as_str()) {
                    Some(v) => Some(Param { name: n.clone(), value: CapValue::Int(v) }),
                    None => {
                        assert(!seg_matches(psv[0], sgv[0]));
                        return None;
                    },
                }
            },
            SegPat::CaptureStr(n) => {
                if seg.as_str().unicode_len() >= 1 {
                    Some(Param { name: n.clone(), value: CapValue::Str(seg.clone()) })
                } else {
                    assert(!seg_matches(psv[0], sgv[0]));
                    return None;
                }
            },
        };
        assert(seg_matches(psv[0], sgv[0]));
        match match_from(ps, segs, i + 1) {
            Some(mut rest) => {
                let ghost restv = rest.deep_view();
                match step {
                    Some(p) => {
                        rest.insert(0, p);
                        proof {
                            assert(rest.deep_view() =~= seq![p@] + restv);
                            assert(rest.deep_view() =~= spec_captures(psv, sgv));
                        }
                    },
                    None => {
                        proof {
                            assert(rest.deep_view() =~= spec_captures(psv, sgv));
                        }
                    },
                }
                proof {
                    assert(pattern_matches(psv, sgv)) by {
                        assert(forall|k: int|
                            1 <= k < psv.len() ==> #[trigger] psv[k] == psv.drop_first()[k - 1]
                                && sgv[k] == sgv.drop_first()[k - 1]);
                    }
                }
                Some(rest)
            },
            None => {
                proof {
                    if pattern_matches(psv, sgv) {
                        assert(forall|k: int|
                            0 <= k < psv.drop_first().len() ==> seg_matches(
                                #[trigger] psv.drop_first()[k],
                                sgv.drop_first()[k],
                            )) by {
                            assert(forall|k: int|
                                0 <= k < psv.drop_first().len() ==> psv.drop_first()[k] == psv[k
                                    + 1] && sgv.drop_first()[k] == #[trigger] sgv[k + 1]);
                        }
                    }
                }
                None
            },
        }
    }
}

/// Matches a pattern against the segments of a path.
///
/// Returns the bound parameters when every segment matches its pattern
/// segment, `None` otherwise — a capture that fails to parse at its
/// declared type makes the whole match fail.
pub fn match_segments(ps: &Vec<SegPat>, segs: &Vec<String>) -> (r: Option<Vec<Param>>)
    ensures
        r is Some <==> pattern_matches(ps.deep_view(), segs.deep_view()),
        r matches Some(v) ==> v.deep_view() == spec_captures(ps.deep_view(), segs.deep_view()),
{
    proof {
        assert(ps.deep_view().skip(0) =~= ps.deep_view());
        assert(segs.deep_view().skip(0) =~= segs.deep_view());
    }
    match_from(ps, segs, 0)
}

} // verus!
