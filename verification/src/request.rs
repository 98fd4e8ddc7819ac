//! Composing a URL, a method, headers and an optional body into a request.
//!
//! A request is built from a URL plus optional extra headers and an optional
//! body. Construction installs the default header set and then folds the
//! extra headers in, overwriting by key; `add_header` does the same later.
//! No header is ever removed, and no `content-length` is computed for a
//! body: that stays the caller's responsibility.
use vstd::prelude::*;

use crate::errors::NanoGetError;
use crate::headers::{
    insert_pair, lemma_insert_pair_unique, pair_views, spec_insert_pair, unique_keys,
};
use crate::strutil::str_eq;
use crate::url::{lemma_url_fields, ToUrl, Url, UrlView};

verus! {

/// A key/value pair handed in as an extra request header.
pub type Header<'a> = (&'a str, &'a str);

/// The HTTP methods a request can carry. Only `GET` is produced by the
/// constructors today; the rest stand ready for future use.
#[allow(dead_code)]
#[derive(Debug)]
pub(crate) enum RequestType {
    HEAD,
    GET,
    PUT,
    POST,
    DELETE,
    OPTIONS,
    CUSTOM(String),
}

/// The token written on the request line for each method.
pub(crate) open spec fn method_view(t: &RequestType) -> Seq<char> {
    match t {
        RequestType::GET => "GET"@,
        RequestType::HEAD => "HEAD"@,
        RequestType::POST => "POST"@,
        RequestType::PUT => "PUT"@,
        RequestType::DELETE => "DELETE"@,
        RequestType::OPTIONS => "OPTIONS"@,
        RequestType::CUSTOM(_) => "CUSTOM"@,
    }
}

impl RequestType {
    /// The token written on the request line for this method.
    pub(crate) fn value(&self) -> (r: &'static str)
        ensures
            r@ == method_view(self),
    {
        match self {
            RequestType::GET => "GET",
            RequestType::HEAD => "HEAD",
            RequestType::POST => "POST",
            RequestType::PUT => "PUT",
            RequestType::DELETE => "DELETE",
            RequestType::OPTIONS => "OPTIONS",
            RequestType::CUSTOM(_) => "CUSTOM",
        }
    }
}

/// The mathematical content of a [`Request`].
pub ghost struct RequestView {
    pub url: UrlView,
    pub method: Seq<char>,
    pub headers: Option<Seq<(Seq<char>, Seq<char>)>>,
    pub body: Option<Seq<char>>,
}

/// The view of an optional header list.
pub(crate) open spec fn opt_pair_views(h: &Option<Vec<(String, String)>>) -> Option<
    Seq<(Seq<char>, Seq<char>)>,
> {
    match h {
        Some(hs) => Some(pair_views(hs@)),
        None => None,
    }
}

/// The basic HTTP request: a URL, a method, headers and an optional body.
#[derive(Debug)]
pub struct Request {
    /// The URL the request is addressed to.
    pub url: Url,
    pub(crate) request_type: RequestType,
    pub(crate) headers: Option<Vec<(String, String)>>,
    /// The optional body sent after the header block.
    pub body: Option<String>,
}

impl View for Request {
    type V = RequestView;

    closed spec fn view(&self) -> RequestView {
        RequestView {
            url: self.url@,
            method: method_view(&self.request_type),
            headers: opt_pair_views(&self.headers),
            body: self.body.deep_view(),
        }
    }
}

/// The view of a request reads off its parts.
pub(crate) proof fn lemma_request_fields(r: &Request)
    ensures
        r@.url == r.url@,
        r@.method == method_view(&r.request_type),
        r@.headers == opt_pair_views(&r.headers),
        r@.body == r.body.deep_view(),
{
}

/// The default header set of a URL: a fixed client identifier, a catch-all
/// `accept`, the URL's host, and `connection: close` so that the response
/// ends at end-of-input.
pub open spec fn spec_default_headers(host: Seq<char>) -> Seq<(Seq<char>, Seq<char>)> {
    seq![
        ("user-agent"@, "mini-get/0.1.0"@),
        ("accept"@, "*/*"@),
        ("host"@, host),
        ("connection"@, "close"@),
    ]
}

/// The default header keys are pairwise distinct.
pub proof fn lemma_default_headers_unique(host: Seq<char>)
    ensures
        unique_keys(spec_default_headers(host)),
{
    reveal_strlit("user-agent");
    reveal_strlit("accept");
    reveal_strlit("host");
    reveal_strlit("connection");
    assert(unique_keys(spec_default_headers(host))) by {
        assert("user-agent"@.len() == 10);
        assert("accept"@.len() == 6);
        assert("host"@.len() == 4);
        assert("connection"@.len() == 10);
        assert("user-agent"@[0] == 'u');
        assert("connection"@[0] == 'c');
    }
}

/// Extra headers folded into existing ones, first to last, overwriting by
/// key.
pub open spec fn spec_merge_headers(
    ps: Seq<(Seq<char>, Seq<char>)>,
    addnl: Seq<(Seq<char>, Seq<char>)>,
) -> Seq<(Seq<char>, Seq<char>)>
    decreases addnl.len(),
{
    if addnl.len() == 0 {
        ps
    } else {
        spec_merge_headers(spec_insert_pair(ps, addnl[0].0, addnl[0].1), addnl.drop_first())
    }
}

/// Folding extra headers in keeps the keys unique.
pub proof fn lemma_merge_preserves_unique(
    ps: Seq<(Seq<char>, Seq<char>)>,
    addnl: Seq<(Seq<char>, Seq<char>)>,
)
    requires
        unique_keys(ps),
    ensures
        unique_keys(spec_merge_headers(ps, addnl)),
    decreases addnl.len(),
{
    if addnl.len() > 0 {
        lemma_insert_pair_unique(ps, addnl[0].0, addnl[0].1);
        lemma_merge_preserves_unique(
            spec_insert_pair(ps, addnl[0].0, addnl[0].1),
            addnl.drop_first(),
        );
    }
}

/// The views of a list of borrowed header pairs.
pub open spec fn ref_pair_views(ps: Seq<(&str, &str)>) -> Seq<(Seq<char>, Seq<char>)> {
    ps.map_values(|p: (&str, &str)| (p.0@, p.1@))
}

/// The views of the extra headers handed to a constructor; none counts as
/// an empty list.
pub open spec fn spec_addnl_views(h: Option<Vec<Header<'_>>>) -> Seq<(Seq<char>, Seq<char>)> {
    match h {
        Some(v) => ref_pair_views(v@),
        None => Seq::empty(),
    }
}

/// The headers a freshly constructed request carries for the given URL and
/// extra headers.
pub open spec fn spec_new_request_headers(u: UrlView, h: Option<Vec<Header<'_>>>) -> Seq<
    (Seq<char>, Seq<char>),
> {
    spec_merge_headers(spec_default_headers(u.host), spec_addnl_views(h))
}

/// An optional header collection after an insert-or-overwrite; a missing
/// collection starts fresh with the one pair.
pub open spec fn spec_insert_opt(
    h: Option<Seq<(Seq<char>, Seq<char>)>>,
    k: Seq<char>,
    v: Seq<char>,
) -> Seq<(Seq<char>, Seq<char>)> {
    match h {
        Some(hs) => spec_insert_pair(hs, k, v),
        None => seq![(k, v)],
    }
}

impl Request {
    /// Builds a request for the URL, with the default headers, the given
    /// extra headers folded in, and the given body. Building always
    /// succeeds.
    pub fn new<A: ToUrl>(url: A, headers: Option<Vec<Header<'_>>>, body: Option<String>) -> (r:
        Result<Self, NanoGetError>)
        ensures
            r is Ok,
            r->Ok_0@.url == url.to_url_spec(),
            r->Ok_0@.method == "GET"@,
            r->Ok_0@.body == body.deep_view(),
            r->Ok_0@.headers == Some(spec_new_request_headers(url.to_url_spec(), headers)),
            unique_keys(r->Ok_0@.headers->0),
    {
        let u = match url.to_url() {
            Ok(u) => u,
            Err(e) => {
                return Err(e);
            },
        };
        proof {
            lemma_url_fields(&u);
        }
        let defaults = Self::get_default_headers(&u);
        let mut request = Request {
            url: u,
            request_type: RequestType::GET,
            headers: Some(defaults),
            body,
        };
        let addnl = process_headers(headers);
        request.merge_addnl_headers(addnl);
        proof {
            lemma_default_headers_unique(url.to_url_spec().host);
            lemma_merge_preserves_unique(
                spec_default_headers(url.to_url_spec().host),
                spec_addnl_views(headers),
            );
        }
        Ok(request)
    }

    /// Folds extra headers into the request's headers, overwriting by key;
    /// a request that had no header collection adopts the extra ones as
    /// they are.
    fn merge_addnl_headers(&mut self, addnl_headers: Option<Vec<(String, String)>>)
        ensures
            final(self)@.url == old(self)@.url,
            final(self)@.method == old(self)@.method,
            final(self)@.body == old(self)@.body,
            final(self)@.headers == match (old(self)@.headers, addnl_headers) {
                (Some(hs), Some(av)) => Some(spec_merge_headers(hs, pair_views(av@))),
                (Some(hs), None) => Some(hs),
                (None, ref a) => opt_pair_views(a),
            },
    {
        proof {
            lemma_request_fields(self);
        }
        let mut cur: Option<Vec<(String, String)>> = None;
        core::mem::swap(&mut cur, &mut self.headers);
        match cur {
            Some(mut hs) => {
                match addnl_headers {
                    Some(av) => {
                        let ghost target = spec_merge_headers(pair_views(hs@), pair_views(av@));
                        proof {
                            assert(pair_views(av@).subrange(0, av@.len() as int) =~= pair_views(
                                av@,
                            ));
                        }
                        let mut i: usize = 0;
                        while i < av.len()
                            invariant
                                i <= av@.len(),
                                target == spec_merge_headers(
                                    pair_views(hs@),
                                    pair_views(av@).subrange(i as int, av@.len() as int),
                                ),
                            decreases av@.len() - i,
                        {
                            let ghost rest = pair_views(av@).subrange(i as int, av@.len() as int);
                            proof {
                                assert(rest[0] == pair_views(av@)[i as int]);
                                assert(pair_views(av@)[i as int] == (av@[i as int].0@, av@[
                                    i as int].1@));
                                assert(rest.drop_first() =~= pair_views(av@).subrange(
                                    i + 1,
                                    av@.len() as int,
                                ));
                            }
                            let k = av[i].0.clone();
                            let v = av[i].1.clone();
                            insert_pair(&mut hs, k, v);
                            i += 1;
                        }
                        proof {
                            assert(pair_views(av@).subrange(av@.len() as int, av@.len() as int)
                                =~= Seq::<(Seq<char>, Seq<char>)>::empty());
                        }
                        self.headers = Some(hs);
                    },
                    None => {
                        self.headers = Some(hs);
                    },
                }
            },
            None => {
                self.headers = addnl_headers;
            },
        }
    }

    /// Builds a request for the URL alone: default headers, no body.
    pub fn default_get_request<A: ToUrl>(url: A) -> (r: Result<Self, NanoGetError>)
        ensures
            r is Ok,
            r->Ok_0@.url == url.to_url_spec(),
            r->Ok_0@.method == "GET"@,
            r->Ok_0@.body is None,
            r->Ok_0@.headers == Some(spec_default_headers(url.to_url_spec().host)),
            unique_keys(r->Ok_0@.headers->0),
    {
        let r = Self::new(url, None, None);
        proof {
            assert(spec_addnl_views(Option::<Vec<Header<'_>>>::None) =~= Seq::<(
                Seq<char>,
                Seq<char>,
            )>::empty());
        }
        r
    }

    /// The default header set for the URL, in the order it is written out.
    fn get_default_headers(url: &Url) -> (r: Vec<(String, String)>)
        ensures
            pair_views(r@) == spec_default_headers(url@.host),
    {
        proof {
            lemma_url_fields(url);
        }
        let mut headers: Vec<(String, String)> = Vec::new();
        headers.push(("user-agent".to_owned(), "mini-get/0.1.0".to_owned()));
        headers.push(("accept".to_owned(), "*/*".to_owned()));
        headers.push(("host".to_owned(), url.host.clone()));
        headers.push(("connection".to_owned(), "close".to_owned()));
        proof {
            assert(pair_views(headers@) =~= spec_default_headers(url@.host));
        }
        headers
    }

    /// The header pairs the request will send.
    pub fn get_request_headers(&self) -> (r: Vec<(String, String)>)
        requires
            self@.headers is Some,
        ensures
            pair_views(r@) == self@.headers->0,
    {
        proof {
            lemma_request_fields(self);
        }
        let mut out: Vec<(String, String)> = Vec::new();
        match &self.headers {
            Some(hs) => {
                let mut i: usize = 0;
                while i < hs.len()
                    invariant
                        i <= hs.len(),
                        out@.len() == i,
                        forall|j: int|
                            0 <= j < i ==> (#[trigger] out@[j]).0@ == hs@[j].0@ && out@[j].1@
                                == hs@[j].1@,
                    decreases hs.len() - i,
                {
                    let k = hs[i].0.clone();
                    let v = hs[i].1.clone();
                    out.push((k, v));
                    i += 1;
                }
                proof {
                    assert(pair_views(out@) =~= pair_views(hs@));
                }
                out
            },
            None => out,
        }
    }

    /// Whether the request addresses an `https` URL.
    pub fn is_https(&self) -> (r: bool)
        ensures
            r == (self@.url.protocol == "https"@),
    {
        proof {
            lemma_request_fields(self);
            lemma_url_fields(&self.url);
        }
        str_eq(self.url.protocol.as_str(), "https")
    }

    /// The token of the request's HTTP method.
    pub fn get_request_type(&self) -> (r: &str)
        ensures
            r@ == self@.method,
    {
        proof {
            lemma_request_fields(self);
        }
        self.request_type.value()
    }

    /// Inserts a header, overwriting any entry under the same key: the last
    /// write wins, and no entry can be removed.
    pub fn add_header(&mut self, key: &str, value: &str)
        ensures
            final(self)@.url == old(self)@.url,
            final(self)@.method == old(self)@.method,
            final(self)@.body == old(self)@.body,
            final(self)@.headers == Some(spec_insert_opt(old(self)@.headers, key@, value@)),
            (match old(self)@.headers {
                Some(hs) => unique_keys(hs),
                None => true,
            }) ==> unique_keys(final(self)@.headers->0),
    {
        proof {
            lemma_request_fields(self);
        }
        let mut cur: Option<Vec<(String, String)>> = None;
        core::mem::swap(&mut cur, &mut self.headers);
        match cur {
            Some(mut hs) => {
                proof {
                    if unique_keys(pair_views(hs@)) {
                        lemma_insert_pair_unique(pair_views(hs@), key@, value@);
                    }
                }
                insert_pair(&mut hs, key.to_owned(), value.to_owned());
                self.headers = Some(hs);
            },
            None => {
                let mut hs: Vec<(String, String)> = Vec::new();
                hs.push((key.to_owned(), value.to_owned()));
                proof {
                    assert(pair_views(hs@) =~= seq![(key@, value@)]);
                }
                self.headers = Some(hs);
            },
        }
    }
}

/// Turns borrowed header pairs into owned ones, keeping their order.
fn process_headers(headers: Option<Vec<Header<'_>>>) -> (r: Option<Vec<(String, String)>>)
    ensures
        match (headers, r) {
            (Some(v), Some(w)) => pair_views(w@) == ref_pair_views(v@),
            (None, None) => true,
            _ => false,
        },
{
    match headers {
        Some(v) => {
            let mut w: Vec<(String, String)> = Vec::new();
            let mut i: usize = 0;
            while i < v.len()
                invariant
                    i <= v@.len(),
                    w@.len() == i,
                    forall|j: int|
                        0 <= j < i ==> (#[trigger] w@[j]).0@ == v@[j].0@ && w@[j].1@ == v@[j].1@,
                decreases v@.len() - i,
            {
                let k = v[i].0.to_owned();
                let val = v[i].1.to_owned();
                w.push((k, val));
                i += 1;
            }
            proof {
                assert(pair_views(w@) =~= ref_pair_views(v@));
            }
            Some(w)
        },
        None => None,
    }
}

} // verus!
