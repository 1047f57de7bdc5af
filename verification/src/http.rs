//! Plain-data model of HTTP requests and responses.
//!
//! Header names are compared case-insensitively (ASCII); a header map may
//! hold several values for one name.

use vstd::prelude::*;

verus! {

/// The request methods the router distinguishes.
#[derive(Clone, Copy, PartialEq, Eq, Structural, Debug)]
pub enum Method {
    Get,
    Post,
    Put,
    Delete,
}

pub const STATUS_OK: u16 = 200;
pub const STATUS_CREATED: u16 = 201;
pub const STATUS_FOUND: u16 = 302;
pub const STATUS_BAD_REQUEST: u16 = 400;
pub const STATUS_UNAUTHORIZED: u16 = 401;
pub const STATUS_NOT_FOUND: u16 = 404;
pub const STATUS_INTERNAL_ERROR: u16 = 500;
pub const STATUS_UNAVAILABLE: u16 = 503;

/// ASCII lowercasing of a single character; everything outside 'A'..='Z'
/// is left unchanged.
pub open spec fn lower_char(c: char) -> char {
    if 'A' <= c && c <= 'Z' {
        match c {
            'A' => 'a', 'B' => 'b', 'C' => 'c', 'D' => 'd', 'E' => 'e',
            'F' => 'f', 'G' => 'g', 'H' => 'h', 'I' => 'i', 'J' => 'j',
            'K' => 'k', 'L' => 'l', 'M' => 'm', 'N' => 'n', 'O' => 'o',
            'P' => 'p', 'Q' => 'q', 'R' => 'r', 'S' => 's', 'T' => 't',
            'U' => 'u', 'V' => 'v', 'W' => 'w', 'X' => 'x', 'Y' => 'y',
            _ => 'z',
        }
    } else {
        c
    }
}

/// ASCII lowercasing of a character sequence.
pub open spec fn lower(s: Seq<char>) -> Seq<char> {
    s.map_values(|c: char| lower_char(c))
}

/// Case-insensitive equality of two header names.
pub open spec fn name_matches(a: Seq<char>, b: Seq<char>) -> bool {
    lower(a) == lower(b)
}

fn lower_char_exec(c: char) -> (r: char)
    ensures
        r == lower_char(c),
{
    if 'A' <= c && c <= 'Z' {
        match c {
            'A' => 'a', 'B' => 'b', 'C' => 'c', 'D' => 'd', 'E' => 'e',
            'F' => 'f', 'G' => 'g', 'H' => 'h', 'I' => 'i', 'J' => 'j',
            'K' => 'k', 'L' => 'l', 'M' => 'm', 'N' => 'n', 'O' => 'o',
            'P' => 'p', 'Q' => 'q', 'R' => 'r', 'S' => 's', 'T' => 't',
            'U' => 'u', 'V' => 'v', 'W' => 'w', 'X' => 'x', 'Y' => 'y',
            _ => 'z',
        }
    } else {
        c
    }
}

/// Case-insensitive comparison of two header names.
pub fn header_name_eq(a: &str, b: &str) -> (r: bool)
    ensures
        r == name_matches(a@, b@),
{
    let alen = a.unicode_len();
    let blen = b.unicode_len();
    if alen != blen {
        assert(lower(a@).len() != lower(b@).len());
        return false;
    }
    for i in 0..alen
        invariant
            alen == a@.len(),
            alen == b@.len(),
            forall|j: int| 0 <= j < i ==> lower(a@)[j] == lower(b@)[j],
    {
        let ca = lower_char_exec(a.get_char(i));
        let cb = lower_char_exec(b.get_char(i));
        if ca != cb {
            assert(lower(a@)[i as int] != lower(b@)[i as int]);
            return false;
        }
    }
    assert(lower(a@) =~= lower(b@));
    true
}

/// How many entries of `hs` carry the name `name` (case-insensitively).
pub open spec fn count_name(hs: Seq<(Seq<char>, Seq<char>)>, name: Seq<char>) -> nat
    decreases hs.len(),
{
    if hs.len() == 0 {
        0
    } else {
        (if name_matches(hs[0].0, name) { 1nat } else { 0nat }) + count_name(
            hs.drop_first(),
            name,
        )
    }
}

/// The value of the first entry of `hs` named `name`, if any.
pub open spec fn lookup_val(hs: Seq<(Seq<char>, Seq<char>)>, name: Seq<char>) -> Option<Seq<char>>
    decreases hs.len(),
{
    if hs.len() == 0 {
        None
    } else if name_matches(hs[0].0, name) {
        Some(hs[0].1)
    } else {
        lookup_val(hs.drop_first(), name)
    }
}

/// `hs` with every entry named `name` removed, order otherwise kept.
pub open spec fn remove_name(
    hs: Seq<(Seq<char>, Seq<char>)>,
    name: Seq<char>,
) -> Seq<(Seq<char>, Seq<char>)>
    decreases hs.len(),
{
    if hs.len() == 0 {
        hs
    } else if name_matches(hs[0].0, name) {
        remove_name(hs.drop_first(), name)
    } else {
        seq![hs[0]] + remove_name(hs.drop_first(), name)
    }
}

pub proof fn lemma_count_name_snoc(
    hs: Seq<(Seq<char>, Seq<char>)>,
    x: (Seq<char>, Seq<char>),
    name: Seq<char>,
)
    ensures
        count_name(hs.push(x), name) == count_name(hs, name) + (if name_matches(x.0, name) {
            1nat
        } else {
            0nat
        }),
    decreases hs.len(),
{
    if hs.len() == 0 {
        assert(hs.push(x).drop_first() =~= hs);
    } else {
        assert(hs.push(x).drop_first() =~= hs.drop_first().push(x));
        lemma_count_name_snoc(hs.drop_first(), x, name);
    }
}

pub proof fn lemma_remove_name_snoc(
    hs: Seq<(Seq<char>, Seq<char>)>,
    x: (Seq<char>, Seq<char>),
    name: Seq<char>,
)
    ensures
        remove_name(hs.push(x), name) == if name_matches(x.0, name) {
            remove_name(hs, name)
        } else {
            remove_name(hs, name).push(x)
        },
    decreases hs.len(),
{
    if hs.len() == 0 {
        assert(hs.push(x).drop_first() =~= hs);
        if !name_matches(x.0, name) {
            assert(seq![hs.push(x)[0]] + remove_name(hs, name) =~= remove_name(hs, name).push(x));
        }
    } else {
        assert(hs.push(x).drop_first() =~= hs.drop_first().push(x));
        lemma_remove_name_snoc(hs.drop_first(), x, name);
        if !name_matches(x.0, name) {
            if !name_matches(hs[0].0, name) {
                assert(seq![hs.push(x)[0]] + remove_name(hs.drop_first(), name).push(x) =~= (
                seq![hs[0]] + remove_name(hs.drop_first(), name)).push(x));
            }
        }
    }
}

/// Nothing named `name` survives `remove_name`.
pub proof fn lemma_remove_name_clears(hs: Seq<(Seq<char>, Seq<char>)>, name: Seq<char>)
    ensures
        count_name(remove_name(hs, name), name) == 0,
    decreases hs.len(),
{
    if hs.len() == 0 {
    } else {
        lemma_remove_name_clears(hs.drop_first(), name);
        if !name_matches(hs[0].0, name) {
            let rest = remove_name(hs.drop_first(), name);
            assert((seq![hs[0]] + rest).drop_first() =~= rest);
        }
    }
}

/// A multi-valued header map with case-insensitive names.
pub struct HeaderMap {
    entries: Vec<(String, String)>,
}

impl View for HeaderMap {
    type V = Seq<(Seq<char>, Seq<char>)>;

    closed spec fn view(&self) -> Seq<(Seq<char>, Seq<char>)> {
        self.entries@.map_values(|p: (String, String)| (p.0@, p.1@))
    }
}

impl HeaderMap {
    pub fn new() -> (r: HeaderMap)
        ensures
            r@ == Seq::<(Seq<char>, Seq<char>)>::empty(),
    {
        let r = HeaderMap { entries: Vec::new() };
        assert(r@ =~= Seq::<(Seq<char>, Seq<char>)>::empty());
        r
    }

    /// Appends an entry, keeping any existing entries of the same name.
    pub fn push(&mut self, name: &str, value: &str)
        ensures
            final(self)@ == old(self)@.push((name@, value@)),
    {
        self.entries.push((name.to_owned(), value.to_owned()));
        assert(self@ =~= old(self)@.push((name@, value@)));
    }

    /// The value of the first entry with this name, case-insensitively.
    pub fn get(&self, name: &str) -> (r: Option<String>)
        ensures
            match r {
                Some(v) => lookup_val(self@, name@) == Some(v@),
                None => lookup_val(self@, name@) is None,
            },
    {
        let n = self.entries.len();
        proof {
            assert(self@.skip(0) =~= self@);
        }
        for i in 0..n
            invariant
                n == self.entries.len(),
                self@.len() == n,
                lookup_val(self@, name@) == lookup_val(self@.skip(i as int), name@),
        {
            let ghost pre = self@.skip(i as int);
            if header_name_eq(self.entries[i].0.as_str(), name) {
                assert(pre[0] == self@[i as int]);
                return Some(self.entries[i].1.clone());
            }
            proof {
                assert(pre[0] == self@[i as int]);
                assert(pre.drop_first() =~= self@.skip(i + 1));
            }
        }
        proof {
            assert(self@.skip(n as int) =~= Seq::<(Seq<char>, Seq<char>)>::empty());
        }
        None
    }

    /// Replaces every entry named `name` with the single entry
    /// `(name, value)`, appended at the end.
    pub fn set(&mut self, name: &str, value: &str)
        ensures
            final(self)@ == remove_name(old(self)@, name@).push((name@, value@)),
            count_name(final(self)@, name@) == 1,
            lookup_val(final(self)@, name@) == Some(value@),
    {
        let mut kept: Vec<(String, String)> = Vec::new();
        let n = self.entries.len();
        let ghost orig = self@;
        proof {
            assert(orig.take(0) =~= Seq::<(Seq<char>, Seq<char>)>::empty());
            assert(kept@.map_values(|p: (String, String)| (p.0@, p.1@)) =~= Seq::<(
                Seq<char>,
                Seq<char>,
            )>::empty());
        }
        for i in 0..n
            invariant
                n == self.entries.len(),
                orig == self@,
                orig.len() == n,
                kept@.map_values(|p: (String, String)| (p.0@, p.1@)) == remove_name(
                    orig.take(i as int),
                    name@,
                ),
        {
            let ghost before = kept@.map_values(|p: (String, String)| (p.0@, p.1@));
            if !header_name_eq(self.entries[i].0.as_str(), name) {
                let pair = (self.entries[i].0.clone(), self.entries[i].1.clone());
                kept.push(pair);
            }
            proof {
                assert(orig.take(i + 1) =~= orig.take(i as int).push(orig[i as int]));
                lemma_remove_name_snoc(orig.take(i as int), orig[i as int], name@);
                assert(orig[i as int] == (self.entries@[i as int].0@, self.entries@[i as int].1@));
                if !name_matches(orig[i as int].0, name@) {
                    assert(kept@.map_values(|p: (String, String)| (p.0@, p.1@)) =~= before.push(
                        orig[i as int],
                    ));
                }
            }
        }
        kept.push((name.to_owned(), value.to_owned()));
        self.entries = kept;
        proof {
            assert(orig.take(n as int) =~= orig);
            assert(self@ =~= remove_name(orig, name@).push((name@, value@)));
            lemma_remove_name_clears(orig, name@);
            lemma_count_name_snoc(remove_name(orig, name@), (name@, value@), name@);
            lemma_lookup_after_set(remove_name(orig, name@), (name@, value@), name@);
        }
    }

    /// The entries as plain pairs, in order.
    pub fn pairs(&self) -> (r: &Vec<(String, String)>)
        ensures
            r@.len() == self@.len(),
            forall|i: int|
                0 <= i < r@.len() ==> (#[trigger] r@[i].0@, r@[i].1@) == self@[i],
    {
        &self.entries
    }

    pub fn len(&self) -> (r: usize)
        ensures
            r == self@.len(),
    {
        self.entries.len()
    }
}

/// Pushing `(name, value)` onto a map with no entry named `name` makes
/// that value the one `lookup_val` finds.
pub proof fn lemma_lookup_after_set(
    hs: Seq<(Seq<char>, Seq<char>)>,
    x: (Seq<char>, Seq<char>),
    name: Seq<char>,
)
    requires
        count_name(hs, name) == 0,
        name_matches(x.0, name),
    ensures
        lookup_val(hs.push(x), name) == Some(x.1),
    decreases hs.len(),
{
    if hs.len() == 0 {
    } else {
        assert(hs.push(x).drop_first() =~= hs.drop_first().push(x));
        lemma_lookup_after_set(hs.drop_first(), x, name);
    }
}

/// A request as plain data: method, raw path, headers.
pub struct Request {
    pub method: Method,
    pub path: String,
    pub headers: HeaderMap,
}

/// A response as plain data: status code, headers, body.
pub struct Response {
    pub status: u16,
    pub headers: HeaderMap,
    pub body: String,
}

/// The abstract value of a request.
pub struct RequestV {
    pub method: Method,
    pub path: Seq<char>,
    pub headers: Seq<(Seq<char>, Seq<char>)>,
}

/// The abstract value of a response.
pub struct ResponseV {
    pub status: u16,
    pub headers: Seq<(Seq<char>, Seq<char>)>,
    pub body: Seq<char>,
}

impl View for Request {
    type V = RequestV;

    open spec fn view(&self) -> RequestV {
        RequestV { method: self.method, path: self.path@, headers: self.headers@ }
    }
}

impl View for Response {
    type V = ResponseV;

    open spec fn view(&self) -> ResponseV {
        ResponseV { status: self.status, headers: self.headers@, body: self.body@ }
    }
}

impl Response {
    /// A bare response: the given status, no headers, an empty body.
    pub fn bare(status: u16) -> (r: Response)
        ensures
            r@ == (ResponseV {
                status,
                headers: Seq::<(Seq<char>, Seq<char>)>::empty(),
                body: Seq::<char>::empty(),
            }),
    {
        Response { status, headers: HeaderMap::new(), body: String::new() }
    }
}

} // verus!
