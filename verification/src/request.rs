//! Inbound requests, their mathematical representation, and the two
//! extraction capabilities: non-destructive metadata extraction and
//! destructive body consumption.
use vstd::prelude::*;

verus! {

/// An HTTP method. Requests with methods outside this set are the
/// transport layer's concern and never reach the library.
#[derive(Clone, Copy, PartialEq, Eq, Structural, Debug, Hash)]
pub enum Method {
    Get,
    Post,
    Put,
    Delete,
    Head,
    Options,
    Patch,
    Trace,
    Connect,
}

/// A flat string-keyed, string-valued mapping: path parameters captured by a
/// route match, or decoded query pairs. Later pairs do not shadow earlier
/// ones; `get` returns the first binding of a key.
pub struct Params {
    pub pairs: Vec<(String, String)>,
}

/// Representation of a parameter map: a sequence of key/value pairs.
pub type ParamsRep = Seq<(Seq<char>, Seq<char>)>;

impl DeepView for Params {
    type V = ParamsRep;

    open spec fn deep_view(&self) -> ParamsRep {
        self.pairs.deep_view()
    }
}

/// The first value bound to `key` in `pairs`, if any.
pub open spec fn spec_lookup(pairs: ParamsRep, key: Seq<char>) -> Option<Seq<char>>
    decreases pairs.len(),
{
    if pairs.len() == 0 {
        None
    } else if pairs[0].0 == key {
        Some(pairs[0].1)
    } else {
        spec_lookup(pairs.drop_first(), key)
    }
}

impl Params {
    /// An empty parameter map.
    pub fn new() -> (r: Params)
        ensures
            r.deep_view() =~= Seq::<(Seq<char>, Seq<char>)>::empty(),
    {
        let r = Params { pairs: Vec::new() };
        proof {
            assert(r.pairs.deep_view() =~= Seq::<(Seq<char>, Seq<char>)>::empty());
        }
        r
    }

    /// How many pairs the map holds.
    pub fn len(&self) -> (n: usize)
        ensures
            n == self.deep_view().len(),
    {
        self.pairs.len()
    }

    /// Add a binding at the end of the map.
    pub fn push(&mut self, key: String, value: String)
        ensures
            final(self).deep_view() =~= old(self).deep_view().push((key@, value@)),
    {
        self.pairs.push((key, value));
    }

    /// The first value bound to `key`, if any.
    pub fn get(&self, key: &str) -> (r: Option<&String>)
        ensures
            match r {
                Some(v) => spec_lookup(self.deep_view(), key@) == Some(v@),
                None => spec_lookup(self.deep_view(), key@) is None,
            },
    {
        let n = self.pairs.len();
        proof {
            assert(self.deep_view().skip(0) =~= self.deep_view());
        }
        for i in 0..n
            invariant
                n == self.pairs.len(),
                spec_lookup(self.deep_view(), key@) == spec_lookup(
                    self.deep_view().skip(i as int),
                    key@,
                ),
        {
            proof {
                assert(self.deep_view().skip(i as int)[0] == self.deep_view()[i as int]);
                assert(self.deep_view().skip(i as int).drop_first() =~= self.deep_view().skip(
                    i as int + 1,
                ));
            }
            if string_eq(&self.pairs[i].0, key) {
                return Some(&self.pairs[i].1);
            }
        }
        proof {
            assert(self.deep_view().skip(n as int) =~= Seq::<(Seq<char>, Seq<char>)>::empty());
        }
        None
    }
}

/// Whether a `String` and a `&str` spell the same characters.
pub fn string_eq(a: &String, b: &str) -> (r: bool)
    ensures
        r == (a@ == b@),
{
    let owned = String::from_str(b);
    a.eq(&owned)
}

/// Mathematical content of a request: what contracts speak about.
pub struct ReqRep {
    pub method: Method,
    pub path: Seq<char>,
    pub query: Seq<char>,
    pub headers: Seq<(Seq<char>, Seq<char>)>,
    pub body: Seq<u8>,
    pub params: ParamsRep,
    pub peer: Option<Seq<char>>,
}

/// An inbound request: method, path, query, headers and body, plus the
/// ambient metadata the pipeline injects before dispatch (path parameters
/// from the route match, and the peer address).
pub struct Request {
    pub method: Method,
    pub path: String,
    pub query: String,
    pub headers: Vec<(String, String)>,
    pub body: Vec<u8>,
    pub params: Params,
    pub peer: Option<String>,
}

impl DeepView for Request {
    type V = ReqRep;

    open spec fn deep_view(&self) -> ReqRep {
        ReqRep {
            method: self.method,
            path: self.path@,
            query: self.query@,
            headers: self.headers.deep_view(),
            body: self.body.deep_view(),
            params: self.params.deep_view(),
            peer: match self.peer {
                Some(p) => Some(p@),
                None => None,
            },
        }
    }
}

impl Request {
    /// A request with the given method, path and query, no headers, an empty
    /// body, no parameters and no peer address.
    pub fn new(method: Method, path: String, query: String) -> (r: Request)
        ensures
            r.deep_view() == (ReqRep {
                method,
                path: path@,
                query: query@,
                headers: Seq::<(Seq<char>, Seq<char>)>::empty(),
                body: Seq::<u8>::empty(),
                params: Seq::<(Seq<char>, Seq<char>)>::empty(),
                peer: None,
            }),
    {
        let r = Request {
            method,
            path,
            query,
            headers: Vec::new(),
            body: Vec::new(),
            params: Params::new(),
            peer: None,
        };
        proof {
            assert(r.headers.deep_view() =~= Seq::<(Seq<char>, Seq<char>)>::empty());
            assert(r.body.deep_view() =~= Seq::<u8>::empty());
        }
        r
    }
}

/// The mathematical content of a value: what the pipeline's contracts speak
/// about. Everything that flows through handlers — inputs, outputs, and
/// extraction errors — has such a representation.
pub trait Modeled: Sized {
    type Rep;

    /// This value's content.
    spec fn rep(&self) -> Self::Rep;
}

impl Modeled for Request {
    type Rep = ReqRep;

    open spec fn rep(&self) -> ReqRep {
        self.deep_view()
    }
}

impl Modeled for Params {
    type Rep = ParamsRep;

    open spec fn rep(&self) -> ParamsRep {
        self.deep_view()
    }
}

impl<T: Modeled, E: Modeled> Modeled for Result<T, E> {
    type Rep = Result<<T as Modeled>::Rep, <E as Modeled>::Rep>;

    open spec fn rep(&self) -> Result<<T as Modeled>::Rep, <E as Modeled>::Rep> {
        match self {
            Ok(t) => Ok(t.rep()),
            Err(e) => Err(e.rep()),
        }
    }
}

/// Body extraction: consumes the request by value to produce a typed input.
/// Runs at most once per request; the request is gone afterwards.
pub trait Consume: Sized + Modeled {
    type Error: Modeled;

    /// The outcome of consuming a request with the given content.
    spec fn spec_consume(req: ReqRep) -> Result<
        <Self as Modeled>::Rep,
        <Self::Error as Modeled>::Rep,
    >;

    /// Consume the request and produce the typed input, or a typed error.
    fn consume(request: Request) -> (r: Result<Self, Self::Error>)
        ensures
            r.rep() == Self::spec_consume(request.rep()),
    ;
}

/// Metadata extraction: reads the request's URI, headers and ambient
/// metadata without touching the body, so several extractors can run on the
/// same request. The contract is a relation because an extractor may consult
/// an outside decoder whose diagnostic text the library does not model.
pub trait Extract<S>: Sized {
    type Error;

    /// Holds when `result` is a correct extraction outcome for a request
    /// with the given content under the given state.
    spec fn extract_rel(req: ReqRep, state: &S, result: &Result<Self, Self::Error>) -> bool;

    /// Extract a typed value from the request's metadata.
    fn extract(request: &Request, state: &S) -> (r: Result<Self, Self::Error>)
        ensures
            Self::extract_rel(request.rep(), state, &r),
    ;
}

} // verus!
