use vstd::prelude::*;

use crate::text::{chars_eq_ignore_case, chars_of, eq_ignore_case, utf8, utf8_bytes};

verus! {

/// The transport protocol a request was negotiated on.
#[derive(Clone, Copy, Debug, PartialEq, Eq, Structural)]
pub enum Protocol {
    H1,
    H2,
    H3,
    Unspecified,
}

/// Header names and values as texts, in order.
pub type HeadersView = Seq<(Seq<char>, Seq<char>)>;

pub open spec fn headers_view(hs: Seq<(String, String)>) -> HeadersView {
    hs.map_values(|p: (String, String)| (p.0@, p.1@))
}

/// An HTTP request as the handlers see it.
pub struct Request {
    pub method: String,
    pub path: String,
    pub headers: Vec<(String, String)>,
    pub http_version: String,
}

pub struct RequestView {
    pub method: Seq<char>,
    pub path: Seq<char>,
    pub headers: HeadersView,
    pub http_version: Seq<char>,
}

impl View for Request {
    type V = RequestView;

    open spec fn view(&self) -> RequestView {
        RequestView {
            method: self.method@,
            path: self.path@,
            headers: headers_view(self.headers@),
            http_version: self.http_version@,
        }
    }
}

/// An HTTP response: status, headers, and body bytes.
pub struct Response {
    pub status: u16,
    pub headers: Vec<(String, String)>,
    pub body: Vec<u8>,
}

pub struct ResponseView {
    pub status: u16,
    pub headers: HeadersView,
    pub body: Seq<u8>,
}

impl View for Response {
    type V = ResponseView;

    open spec fn view(&self) -> ResponseView {
        ResponseView { status: self.status, headers: headers_view(self.headers@), body: self.body@ }
    }
}

/// The value of the first header whose name equals `name` up to ASCII case.
pub open spec fn header_get(hs: HeadersView, name: Seq<char>) -> Option<Seq<char>>
    decreases hs.len(),
{
    if hs.len() == 0 {
        None
    } else if eq_ignore_case(hs[0].0, name) {
        Some(hs[0].1)
    } else {
        header_get(hs.drop_first(), name)
    }
}

/// Header names are pairwise distinct.
pub open spec fn names_unique(hs: HeadersView) -> bool {
    forall|i: int, j: int| 0 <= i < j < hs.len() ==> (#[trigger] hs[i]).0 != (#[trigger] hs[j]).0
}

/// Setting a header: a header of the same name takes the new value in place,
/// otherwise the header is added at the end.
pub open spec fn header_set(hs: HeadersView, name: Seq<char>, value: Seq<char>) -> HeadersView {
    if exists|i: int| 0 <= i < hs.len() && (#[trigger] hs[i]).0 == name {
        let i = choose|i: int|
            0 <= i < hs.len() && (#[trigger] hs[i]).0 == name && forall|j: int|
                0 <= j < i ==> (#[trigger] hs[j]).0 != name;
        hs.update(i, (name, value))
    } else {
        hs.push((name, value))
    }
}

pub open spec fn opt_view(o: Option<String>) -> Option<Seq<char>> {
    match o {
        Some(s) => Some(s@),
        None => None,
    }
}

/// The value of a header, looked up without regard to the case of its name.
pub fn header_value(headers: &Vec<(String, String)>, name: &str) -> (r: Option<String>)
    ensures
        opt_view(r) == header_get(headers_view(headers@), name@),
{
    let want = chars_of(name);
    let ghost hv = headers_view(headers@);
    assert(hv.subrange(0, hv.len() as int) =~= hv);
    let mut i: usize = 0;
    while i < headers.len()
        invariant
            i <= headers@.len(),
            want@ == name@,
            hv == headers_view(headers@),
            header_get(hv, name@) == header_get(hv.subrange(i as int, hv.len() as int), name@),
        decreases headers@.len() - i,
    {
        let ghost rest = hv.subrange(i as int, hv.len() as int);
        assert(rest.drop_first() =~= hv.subrange(i + 1, hv.len() as int));
        let have = chars_of(headers[i].0.as_str());
        assert(rest[0] == hv[i as int]);
        if chars_eq_ignore_case(&have, &want) {
            return Some(headers[i].1.clone());
        }
        i = i + 1;
    }
    None
}

impl Request {
    /// The value of a request header, names compared without regard to case.
    pub fn header(&self, name: &str) -> (r: Option<String>)
        ensures
            opt_view(r) == header_get(self@.headers, name@),
    {
        header_value(&self.headers, name)
    }
}

/// Setting a header on an empty list gives that one header.
pub proof fn lemma_set_on_empty(name: Seq<char>, value: Seq<char>)
    ensures
        header_set(Seq::empty(), name, value) == seq![(name, value)],
{
    assert(Seq::<(Seq<char>, Seq<char>)>::empty().push((name, value)) =~= seq![(name, value)]);
}

proof fn lemma_header_set_found(hs: HeadersView, name: Seq<char>, value: Seq<char>, i: int)
    requires
        0 <= i < hs.len(),
        hs[i].0 == name,
        forall|j: int| 0 <= j < i ==> (#[trigger] hs[j]).0 != name,
    ensures
        header_set(hs, name, value) == hs.update(i, (name, value)),
{
    let k = choose|k: int|
        0 <= k < hs.len() && (#[trigger] hs[k]).0 == name && forall|j: int|
            0 <= j < k ==> (#[trigger] hs[j]).0 != name;
    assert(0 <= k < hs.len() && hs[k].0 == name);
    if k < i {
        assert(hs[k].0 != name);
    }
    if k > i {
        assert(hs[i].0 != name);
    }
}

pub proof fn lemma_header_set_unique(hs: HeadersView, name: Seq<char>, value: Seq<char>)
    requires
        names_unique(hs),
    ensures
        names_unique(header_set(hs, name, value)),
{
    if exists|i: int| 0 <= i < hs.len() && (#[trigger] hs[i]).0 == name {
        let i = choose|i: int| 0 <= i < hs.len() && (#[trigger] hs[i]).0 == name;
        assert forall|j: int| 0 <= j < i implies (#[trigger] hs[j]).0 != name by {}
        lemma_header_set_found(hs, name, value, i);
        let r = hs.update(i, (name, value));
        assert forall|a: int, b: int| 0 <= a < b < r.len() implies (#[trigger] r[a]).0 != (
        #[trigger] r[b]).0 by {
            if a == i {
                assert(hs[b].0 != hs[i].0);
            } else if b == i {
                assert(hs[a].0 != hs[i].0);
            }
        }
    } else {
        let r = hs.push((name, value));
        assert forall|a: int, b: int| 0 <= a < b < r.len() implies (#[trigger] r[a]).0 != (
        #[trigger] r[b]).0 by {
            if b == hs.len() {
                assert(r[a] == hs[a]);
            }
        }
    }
}

/// Puts a name and value into an association list: an entry of the same name
/// takes the new value in place, otherwise the pair is added at the end.
pub fn put_pair(pairs: &mut Vec<(String, String)>, name: String, value: String)
    ensures
        headers_view(final(pairs)@) == header_set(headers_view(old(pairs)@), name@, value@),
{
    let ghost hv = headers_view(old(pairs)@);
    let mut i: usize = 0;
    while i < pairs.len()
        invariant
            i <= pairs@.len(),
            pairs@ == old(pairs)@,
            hv == headers_view(old(pairs)@),
            forall|j: int| 0 <= j < i ==> (#[trigger] hv[j]).0 != name@,
        decreases pairs@.len() - i,
    {
        if pairs[i].0 == name {
            proof {
                lemma_header_set_found(hv, name@, value@, i as int);
            }
            pairs.set(i, (name, value));
            assert(headers_view(pairs@) =~= header_set(hv, name@, value@));
            return ;
        }
        i = i + 1;
    }
    pairs.push((name, value));
    assert(headers_view(pairs@) =~= header_set(hv, name@, value@));
}

impl Response {
    /// A response with the given status, no headers and an empty body.
    pub fn new(status: u16) -> (r: Response)
        ensures
            r@.status == status,
            r@.headers == Seq::<(Seq<char>, Seq<char>)>::empty(),
            r@.body == Seq::<u8>::empty(),
    {
        let r = Response { status, headers: Vec::new(), body: Vec::new() };
        assert(r@.headers =~= Seq::<(Seq<char>, Seq<char>)>::empty());
        r
    }

    /// Header names of this response are pairwise distinct.
    pub open spec fn wf(&self) -> bool {
        names_unique(self@.headers)
    }

    /// Sets a header; an existing header of the same name is replaced.
    pub fn set_header(&mut self, name: String, value: String)
        ensures
            final(self)@.status == old(self)@.status,
            final(self)@.body == old(self)@.body,
            final(self)@.headers == header_set(old(self)@.headers, name@, value@),
            old(self).wf() ==> final(self).wf(),
    {
        put_pair(&mut self.headers, name, value);
        proof {
            if old(self).wf() {
                lemma_header_set_unique(old(self)@.headers, name@, value@);
            }
        }
    }

    /// The value of a header of this response, by its exact name.
    pub fn header(&self, name: &str) -> (r: Option<String>)
        ensures
            match r {
                Some(v) => exists|i: int|
                    0 <= i < self@.headers.len() && (#[trigger] self@.headers[i]).0 == name@
                        && self@.headers[i].1 == v@,
                None => forall|i: int|
                    0 <= i < self@.headers.len() ==> (#[trigger] self@.headers[i]).0 != name@,
            },
    {
        let want = String::from_str(name);
        let mut i: usize = 0;
        while i < self.headers.len()
            invariant
                i <= self.headers@.len(),
                want@ == name@,
                forall|j: int| 0 <= j < i ==> (#[trigger] self@.headers[j]).0 != name@,
            decreases self.headers@.len() - i,
        {
            if self.headers[i].0 == want {
                assert(self@.headers[i as int].0 == name@);
                return Some(self.headers[i].1.clone());
            }
            i = i + 1;
        }
        None
    }

    /// Whether this response has a header of the given exact name.
    pub fn has_header(&self, name: &str) -> (r: bool)
        ensures
            r == exists|i: int| 0 <= i < self@.headers.len() && (#[trigger] self@.headers[i]).0 == name@,
    {
        let h = self.header(name);
        h.is_some()
    }

    /// Sets a plain-text body: its UTF-8 bytes, with `Content-Type: text/plain`.
    pub fn with_text(self, text: &str) -> (r: Response)
        ensures
            r@.status == self@.status,
            r@.body == utf8(text@),
            r@.headers == header_set(self@.headers, "Content-Type"@, "text/plain"@),
    {
        let cs = chars_of(text);
        self.with_body(utf8_bytes(cs.as_slice()), "text/plain")
    }

    /// Sets a JSON body from its text, with `Content-Type: application/json`.
    pub fn with_json(self, json: &[char]) -> (r: Response)
        ensures
            r@.status == self@.status,
            r@.body == utf8(json@),
            r@.headers == header_set(self@.headers, "Content-Type"@, "application/json"@),
    {
        self.with_body(utf8_bytes(json), "application/json")
    }

    /// Sets the body and its content type.
    pub fn with_body(self, body: Vec<u8>, content_type: &str) -> (r: Response)
        ensures
            r@.status == self@.status,
            r@.body == body@,
            r@.headers == header_set(self@.headers, "Content-Type"@, content_type@),
    {
        let mut r = self;
        r.body = body;
        r.set_header(String::from_str("Content-Type"), String::from_str(content_type));
        r
    }
}

} // verus!
