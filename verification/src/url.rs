//! Decomposing a URL string into protocol, host, port and path.
//!
//! The decomposition makes three passes, each splitting on the first
//! occurrence of a delimiter: `"://"` separates the protocol from the rest,
//! the first `/` separates the domain from the path, and the first `:` in
//! the domain separates the host from the port. A missing protocol defaults
//! to `http`, a missing path to `/`, and a missing port to the scheme's
//! well-known port (`80` for `http`, `443` for `https`, nothing otherwise).
//!
//! A host written as an IPv6 literal contains `:` itself; the first-colon
//! split does not treat it specially, mirroring the three-pass design.
use vstd::prelude::*;

use crate::errors::NanoGetError;
use crate::strutil::{
    contains_pat, find_first, first_occ, lemma_contains_iff_occurrence, lemma_first_occ_props,
    pat_at, str_eq,
};

verus! {

/// The mathematical content of a [`Url`]: each component as a character
/// sequence, beside the string the value was parsed from.
pub ghost struct UrlView {
    pub protocol: Seq<char>,
    pub host: Seq<char>,
    pub port: Seq<char>,
    pub path: Seq<char>,
    pub absolute: Seq<char>,
}

/// The protocol split: the part before the first `"://"` (or the default)
/// and the remainder.
pub open spec fn spec_parse_proto(s: Seq<char>, default_proto: Option<Seq<char>>) -> (Seq<
    char,
>, Seq<char>) {
    match first_occ(s, "://"@) {
        Some(i) => (s.subrange(0, i), s.subrange(i + "://"@.len(), s.len() as int)),
        None => (
            match default_proto {
                Some(p) => p,
                None => "http"@,
            },
            s,
        ),
    }
}

/// The domain/path split: the part before the first `/`, and the path from
/// that `/` onward (or the default path).
pub open spec fn spec_parse_full_domain(s: Seq<char>, default_path: Option<Seq<char>>) -> (Seq<
    char,
>, Seq<char>) {
    match first_occ(s, "/"@) {
        Some(i) => (s.subrange(0, i), s.subrange(i, s.len() as int)),
        None => (
            s,
            match default_path {
                Some(p) => p,
                None => "/"@,
            },
        ),
    }
}

/// The host/port split: the part before the first `:` and the part after it
/// (or the default port; with none, the port is left empty).
pub open spec fn spec_parse_host_port(s: Seq<char>, default_port: Option<Seq<char>>) -> (Seq<
    char,
>, Seq<char>) {
    match first_occ(s, ":"@) {
        Some(i) => (s.subrange(0, i), s.subrange(i + ":"@.len(), s.len() as int)),
        None => (
            s,
            match default_port {
                Some(p) => p,
                None => Seq::<char>::empty(),
            },
        ),
    }
}

/// The well-known port of a scheme, where there is one.
pub open spec fn spec_default_port(proto: Seq<char>) -> Option<Seq<char>> {
    if proto == "http"@ {
        Some("80"@)
    } else if proto == "https"@ {
        Some("443"@)
    } else {
        None
    }
}

/// The full decomposition of a URL string: all three passes composed.
pub open spec fn spec_url_of(s: Seq<char>) -> UrlView {
    let (protocol, rest) = spec_parse_proto(s, None);
    let (full_domain, path) = spec_parse_full_domain(rest, None);
    let (host, port) = spec_parse_host_port(full_domain, spec_default_port(protocol));
    UrlView { protocol, host, port, path, absolute: s }
}

/// Splits a URL string on the first `"://"`. The left part is the protocol;
/// without the delimiter the protocol is the given default, or `http`.
pub fn parse_proto(s: String, default_proto: Option<String>) -> (r: (String, String))
    ensures
        (r.0@, r.1@) == spec_parse_proto(s@, default_proto.deep_view()),
{
    let n = s.as_str().unicode_len();
    let sep_len = "://".unicode_len();
    match find_first(s.as_str(), "://") {
        Some(i) => {
            let left = s.as_str().substring_char(0, i).to_owned();
            let right = s.as_str().substring_char(i + sep_len, n).to_owned();
            (left, right)
        },
        None => {
            match default_proto {
                Some(proto) => (proto, s),
                None => ("http".to_owned(), s),
            }
        },
    }
}

/// Splits the remainder on the first `/`. The right part, `/` included, is
/// the path; without a `/` the path is the given default, or `/`.
pub fn parse_full_domain(s: String, default_path: Option<String>) -> (r: (String, String))
    ensures
        (r.0@, r.1@) == spec_parse_full_domain(s@, default_path.deep_view()),
{
    let n = s.as_str().unicode_len();
    match find_first(s.as_str(), "/") {
        Some(i) => {
            let fdom = s.as_str().substring_char(0, i).to_owned();
            let rest = s.as_str().substring_char(i, n).to_owned();
            (fdom, rest)
        },
        None => {
            match default_path {
                Some(path) => (s, path),
                None => (s, "/".to_owned()),
            }
        },
    }
}

/// Splits the domain on the first `:`. The right part is the port; without
/// a `:` the port is the given default, or left empty.
pub fn parse_host_and_port(s: String, default_port: Option<String>) -> (r: (String, String))
    ensures
        (r.0@, r.1@) == spec_parse_host_port(s@, default_port.deep_view()),
{
    let n = s.as_str().unicode_len();
    let sep_len = ":".unicode_len();
    match find_first(s.as_str(), ":") {
        Some(i) => {
            let host = s.as_str().substring_char(0, i).to_owned();
            let port = s.as_str().substring_char(i + sep_len, n).to_owned();
            (host, port)
        },
        None => {
            match default_port {
                Some(port) => (s, port),
                None => (s, String::new()),
            }
        },
    }
}

/// The parts of a URL.
#[derive(Debug)]
pub struct Url {
    /// The scheme of the URL; defaults to `http` when the string names none.
    pub protocol: String,
    /// The host part of the URL, without the port.
    pub host: String,
    /// The port of the URL, defaulted by scheme where the string names none.
    pub port: String,
    /// Everything from the first `/` of the remainder onward; `/` by default.
    pub path: String,
    pub(crate) absolute: String,
}

impl View for Url {
    type V = UrlView;

    closed spec fn view(&self) -> UrlView {
        UrlView {
            protocol: self.protocol@,
            host: self.host@,
            port: self.port@,
            path: self.path@,
            absolute: self.absolute@,
        }
    }
}

impl Clone for Url {
    /// Duplicates the URL; the copy carries the same components.
    fn clone(&self) -> (r: Self)
        ensures
            r@ == self@,
    {
        Url {
            protocol: self.protocol.clone(),
            host: self.host.clone(),
            port: self.port.clone(),
            path: self.path.clone(),
            absolute: self.absolute.clone(),
        }
    }
}

impl Url {
    /// Decomposes a URL string into its parts.
    pub fn new(url: &str) -> (r: Self)
        ensures
            r@ == spec_url_of(url@),
    {
        let s = url.to_owned();
        let (protocol, rest) = parse_proto(s.clone(), None);
        let (full_domain, path) = parse_full_domain(rest, None);
        let default_port = Self::get_default_port_for_proto(protocol.as_str());
        let (host, port) = parse_host_and_port(full_domain, default_port);
        Url { protocol, host, port, path, absolute: s }
    }

    /// The well-known port of the scheme, where there is one.
    fn get_default_port_for_proto(proto: &str) -> (r: Option<String>)
        ensures
            r.deep_view() == spec_default_port(proto@),
    {
        if str_eq(proto, "http") {
            Some("80".to_owned())
        } else if str_eq(proto, "https") {
            Some("443".to_owned())
        } else {
            None
        }
    }

    /// Reassembles the URL from its parts, port included.
    pub fn get_full_url(&self) -> (r: String)
        ensures
            r@ == self@.protocol + "://"@ + self@.host + ":"@ + self@.port + self@.path,
    {
        let mut out = self.protocol.clone();
        out.append("://");
        out.append(self.host.as_str());
        out.append(":");
        out.append(self.port.as_str());
        out.append(self.path.as_str());
        out
    }

    /// The `host:port` pair of the URL.
    pub fn get_host_with_port(&self) -> (r: String)
        ensures
            r@ == self@.host + ":"@ + self@.port,
    {
        let mut out = self.host.clone();
        out.append(":");
        out.append(self.port.as_str());
        out
    }
}

/// The view of a URL reads off its public fields.
pub(crate) proof fn lemma_url_fields(u: &Url)
    ensures
        u@.protocol == u.protocol@,
        u@.host == u.host@,
        u@.port == u.port@,
        u@.path == u.path@,
{
}

/// The ability to be made into a [`Url`].
pub trait ToUrl {
    /// The URL this value stands for.
    spec fn to_url_spec(&self) -> UrlView;

    /// Converts the value into a URL; the conversion always succeeds.
    fn to_url(&self) -> (r: Result<Url, NanoGetError>)
        ensures
            r is Ok,
            r->Ok_0@ == self.to_url_spec(),
    ;
}

impl ToUrl for String {
    open spec fn to_url_spec(&self) -> UrlView {
        spec_url_of(self@)
    }

    fn to_url(&self) -> (r: Result<Url, NanoGetError>)
        ensures
            r is Ok,
            r->Ok_0@ == self.to_url_spec(),
    {
        Ok(Url::new(self.as_str()))
    }
}

impl ToUrl for &str {
    open spec fn to_url_spec(&self) -> UrlView {
        spec_url_of(self@)
    }

    fn to_url(&self) -> (r: Result<Url, NanoGetError>)
        ensures
            r is Ok,
            r->Ok_0@ == self.to_url_spec(),
    {
        Ok(Url::new(self))
    }
}

impl ToUrl for Url {
    open spec fn to_url_spec(&self) -> UrlView {
        self@
    }

    fn to_url(&self) -> (r: Result<Url, NanoGetError>)
        ensures
            r is Ok,
            r->Ok_0@ == self.to_url_spec(),
    {
        Ok(self.clone())
    }
}

impl ToUrl for &Url {
    open spec fn to_url_spec(&self) -> UrlView {
        (*self)@
    }

    fn to_url(&self) -> (r: Result<Url, NanoGetError>)
        ensures
            r is Ok,
            r->Ok_0@ == self.to_url_spec(),
    {
        Ok((*self).clone())
    }
}

/// A pair of values of one type, as a two-way split leaves them.
pub struct Tuple<T: Clone> {
    pub left: T,
    pub right: T,
}

/// A string without `"://"` parses with protocol `http`, and the whole
/// string is what the domain and path are then read from.
pub proof fn lemma_schemeless_defaults(s: Seq<char>)
    requires
        !contains_pat(s, "://"@),
    ensures
        spec_url_of(s).protocol == "http"@,
        spec_parse_proto(s, None).1 == s,
{
}

/// In `{scheme}://{rest}` the protocol is exactly `scheme` and the rest of
/// the decomposition reads exactly `rest`, provided `scheme` does not itself
/// contain the delimiter.
pub proof fn lemma_scheme_extracted(scheme: Seq<char>, rest: Seq<char>)
    requires
        !contains_pat(scheme, "://"@),
    ensures
        spec_url_of(scheme + "://"@ + rest).protocol == scheme,
        spec_parse_proto(scheme + "://"@ + rest, None).1 == rest,
{
    let sep = "://"@;
    let s = scheme + sep + rest;
    let l = scheme.len() as int;
    reveal_strlit("://");
    assert(pat_at(s, sep, l)) by {
        assert(s.subrange(l, l + sep.len()) =~= sep);
    }
    assert forall|j: int| 0 <= j < l implies !pat_at(s, sep, j) by {
        if pat_at(s, sep, j) {
            if j + sep.len() <= l {
                assert(pat_at(scheme, sep, j)) by {
                    assert(scheme.subrange(j, j + sep.len()) =~= s.subrange(j, j + sep.len()));
                }
                lemma_contains_iff_occurrence(scheme, sep);
            } else if j == l - 1 {
                assert(s.subrange(j, j + sep.len())[1] == s[l]);
                assert(sep[1] == '/' && sep[0] == ':');
            } else {
                assert(j == l - 2);
                assert(s.subrange(j, j + sep.len())[2] == s[l]);
                assert(sep[2] == '/' && sep[0] == ':');
            }
        }
    }
    lemma_first_occ_props(s, sep);
    match first_occ(s, sep) {
        Some(i) => {
            if i < l {
                assert(!pat_at(s, sep, i));
            } else if i > l {
                assert(pat_at(s, sep, l));
            }
            assert(i == l);
            assert(s.subrange(0, l) =~= scheme);
            assert(s.subrange(l + sep.len(), s.len() as int) =~= rest);
        },
        None => {
            assert(pat_at(s, sep, l));
        },
    }
}

/// The parts of any parsed URL satisfy the type's invariants: the path is
/// never empty and starts with `/`, and the host never contains `:`.
pub proof fn lemma_url_invariants(s: Seq<char>)
    ensures
        spec_url_of(s).path.len() > 0,
        spec_url_of(s).path[0] == '/',
        forall|j: int|
            0 <= j < spec_url_of(s).host.len() ==> #[trigger] spec_url_of(s).host[j] != ':',
{
    reveal_strlit("/");
    reveal_strlit(":");
    let (protocol, rest) = spec_parse_proto(s, None);
    let (full_domain, path) = spec_parse_full_domain(rest, None);
    let (host, port) = spec_parse_host_port(full_domain, spec_default_port(protocol));
    lemma_first_occ_props(rest, "/"@);
    match first_occ(rest, "/"@) {
        Some(i) => {
            assert(pat_at(rest, "/"@, i));
            assert(path[0] == rest.subrange(i, rest.len() as int)[0]);
            assert(rest.subrange(i, i + 1)[0] == '/');
        },
        None => {
            assert(path == "/"@);
        },
    }
    lemma_first_occ_props(full_domain, ":"@);
    assert forall|j: int| 0 <= j < host.len() implies #[trigger] host[j] != ':' by {
        if host[j] == ':' {
            assert(pat_at(full_domain, ":"@, j)) by {
                assert(full_domain.subrange(j, j + 1) =~= ":"@);
            }
            match first_occ(full_domain, ":"@) {
                Some(i) => {
                    assert(host.len() == i);
                },
                None => {},
            }
        }
    }
}

} // verus!
