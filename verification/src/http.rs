//! Writing a request onto a channel and reading the response back.
//!
//! Serialization writes, in order: the request line, each header as
//! `key: value` with CRLF, a blank line, and the raw body if there is one.
//! The first write error stops the operation; nothing is retried or rolled
//! back. Reading consumes the channel to end-of-input and decomposes the
//! text it got, whatever it was.
use vstd::prelude::*;

use crate::errors::{ErrorKind, NanoGetError};
use crate::headers::pair_views;
use crate::request::{lemma_request_fields, Request, RequestView};
use crate::response::{new_response_from_complete, spec_response_of, Response,
    response_headers_unique};
use crate::stream::HttpStream;
use crate::url::lemma_url_fields;

verus! {

/// The request line: method, path and protocol version, CRLF-terminated.
pub open spec fn spec_request_line(r: RequestView) -> Seq<char> {
    r.method + " "@ + r.url.path + " HTTP/1.1\r\n"@
}

/// One header as written: `key: value` with CRLF.
pub open spec fn spec_header_line(p: (Seq<char>, Seq<char>)) -> Seq<char> {
    p.0 + ": "@ + p.1 + "\r\n"@
}

/// The header block: every header in order, each CRLF-terminated.
pub open spec fn spec_header_lines(hs: Seq<(Seq<char>, Seq<char>)>) -> Seq<char>
    decreases hs.len(),
{
    if hs.len() == 0 {
        Seq::empty()
    } else {
        spec_header_line(hs[0]) + spec_header_lines(hs.drop_first())
    }
}

/// A request's headers, or nothing where it carries no collection.
pub open spec fn spec_headers_or_empty(h: Option<Seq<(Seq<char>, Seq<char>)>>) -> Seq<
    (Seq<char>, Seq<char>),
> {
    match h {
        Some(hs) => hs,
        None => Seq::empty(),
    }
}

/// A request's body, or nothing where it carries none.
pub open spec fn spec_body_or_empty(b: Option<Seq<char>>) -> Seq<char> {
    match b {
        Some(x) => x,
        None => Seq::empty(),
    }
}

/// Everything a request puts on the wire: request line, header block,
/// blank line, and the raw body if any — with no terminator after the body
/// and no `content-length` computed on the caller's behalf.
pub open spec fn spec_serialized_request(r: RequestView) -> Seq<char> {
    spec_request_line(r) + spec_header_lines(spec_headers_or_empty(r.headers)) + "\r\n"@
        + spec_body_or_empty(r.body)
}

/// Writes the request line onto the channel.
fn write_http_method<S: HttpStream>(stream: &mut S, request: &Request) -> (r: Result<
    (),
    NanoGetError,
>)
    ensures
        r is Ok ==> final(stream).written() == old(stream).written() + spec_request_line(
            request@,
        ),
        r is Err ==> r->Err_0@ == ErrorKind::NetworkError,
{
    proof {
        lemma_request_fields(request);
        lemma_url_fields(&request.url);
    }
    let mut line = request.get_request_type().to_owned();
    line.append(" ");
    line.append(request.url.path.as_str());
    line.append(" HTTP/1.1\r\n");
    stream.write_all_str(line.as_str())
}

/// Writes the header block and the blank line onto the channel.
fn write_std_headers<S: HttpStream>(stream: &mut S, request: &Request) -> (r: Result<
    (),
    NanoGetError,
>)
    ensures
        r is Ok ==> final(stream).written() == old(stream).written() + spec_header_lines(
            spec_headers_or_empty(request@.headers),
        ) + "\r\n"@,
        r is Err ==> r->Err_0@ == ErrorKind::NetworkError,
{
    proof {
        lemma_request_fields(request);
    }
    let ghost w0 = stream.written();
    let ghost all = spec_headers_or_empty(request@.headers);
    match &request.headers {
        Some(hs) => {
            proof {
                assert(all == pair_views(hs@));
                assert(all.subrange(0, all.len() as int) =~= all);
            }
            let mut i: usize = 0;
            while i < hs.len()
                invariant
                    i <= hs.len(),
                    all == pair_views(hs@),
                    stream.written() + spec_header_lines(
                        all.subrange(i as int, all.len() as int),
                    ) == w0 + spec_header_lines(all),
                decreases hs.len() - i,
            {
                let ghost rest = all.subrange(i as int, all.len() as int);
                let ghost w = stream.written();
                proof {
                    assert(rest[0] == all[i as int]);
                    assert(all[i as int] == (hs@[i as int].0@, hs@[i as int].1@));
                    assert(rest.drop_first() =~= all.subrange(i + 1, all.len() as int));
                }
                let mut line = hs[i].0.clone();
                line.append(": ");
                line.append(hs[i].1.as_str());
                line.append("\r\n");
                proof {
                    assert(line@ == spec_header_line(all[i as int]));
                }
                match stream.write_all_str(line.as_str()) {
                    Ok(u) => u,
                    Err(e) => {
                        return Err(e);
                    },
                };
                proof {
                    assert((w + line@) + spec_header_lines(rest.drop_first()) =~= w + (line@
                        + spec_header_lines(rest.drop_first())));
                    assert(spec_header_lines(rest) == line@ + spec_header_lines(
                        rest.drop_first(),
                    ));
                }
                i += 1;
            }
            proof {
                assert(all.subrange(all.len() as int, all.len() as int) =~= Seq::<(
                    Seq<char>,
                    Seq<char>,
                )>::empty());
                assert(stream.written() + Seq::<char>::empty() =~= stream.written());
            }
        },
        None => {
            proof {
                assert(stream.written() + spec_header_lines(all) =~= stream.written());
            }
        },
    }
    let ghost w1 = stream.written();
    let r = stream.write_all_str("\r\n");
    proof {
        if r is Ok {
            assert(w1 == w0 + spec_header_lines(all));
            assert((w0 + spec_header_lines(all)) + "\r\n"@ =~= w0 + spec_header_lines(all)
                + "\r\n"@);
        }
    }
    r
}

/// Writes the raw body onto the channel.
fn write_request_body<S: HttpStream>(stream: &mut S, request: &Request) -> (r: Result<
    (),
    NanoGetError,
>)
    requires
        request@.body is Some,
    ensures
        r is Ok ==> final(stream).written() == old(stream).written() + request@.body->0,
        r is Err ==> r->Err_0@ == ErrorKind::NetworkError,
{
    proof {
        lemma_request_fields(request);
    }
    match &request.body {
        Some(b) => stream.write_all_str(b.as_str()),
        None => Ok(()),
    }
}

/// Serializes the whole request onto the channel: request line, headers,
/// blank line, then the body if the request has one. The first write error
/// surfaces as a `NetworkError` and nothing is retried.
pub fn send_request<S: HttpStream>(stream: &mut S, request: &Request) -> (r: Result<
    (),
    NanoGetError,
>)
    ensures
        r is Ok ==> final(stream).written() == old(stream).written() + spec_serialized_request(
            request@,
        ),
        r is Err ==> r->Err_0@ == ErrorKind::NetworkError,
{
    proof {
        lemma_request_fields(request);
    }
    let ghost w0 = stream.written();
    match write_http_method(stream, request) {
        Ok(u) => u,
        Err(e) => {
            return Err(e);
        },
    };
    match write_std_headers(stream, request) {
        Ok(u) => u,
        Err(e) => {
            return Err(e);
        },
    };
    let ghost w2 = stream.written();
    if request.body.is_some() {
        match write_request_body(stream, request) {
            Ok(u) => u,
            Err(e) => {
                return Err(e);
            },
        };
        proof {
            assert(stream.written() =~= w0 + spec_serialized_request(request@));
        }
        Ok(())
    } else {
        proof {
            assert(stream.written() =~= w0 + spec_serialized_request(request@));
        }
        Ok(())
    }
}

/// The text the request puts on the wire, as one string.
pub fn serialize_request(request: &Request) -> (r: String)
    ensures
        r@ == spec_serialized_request(request@),
{
    proof {
        lemma_request_fields(request);
        lemma_url_fields(&request.url);
    }
    let ghost all = spec_headers_or_empty(request@.headers);
    let mut out = request.get_request_type().to_owned();
    out.append(" ");
    out.append(request.url.path.as_str());
    out.append(" HTTP/1.1\r\n");
    proof {
        assert(out@ == spec_request_line(request@));
        assert(all.subrange(0, all.len() as int) =~= all);
    }
    match &request.headers {
        Some(hs) => {
            let mut i: usize = 0;
            while i < hs.len()
                invariant
                    i <= hs.len(),
                    all == pair_views(hs@),
                    out@ + spec_header_lines(all.subrange(i as int, all.len() as int))
                        == spec_request_line(request@) + spec_header_lines(all),
                decreases hs.len() - i,
            {
                let ghost rest = all.subrange(i as int, all.len() as int);
                let ghost before = out@;
                proof {
                    assert(rest[0] == all[i as int]);
                    assert(all[i as int] == (hs@[i as int].0@, hs@[i as int].1@));
                    assert(rest.drop_first() =~= all.subrange(i + 1, all.len() as int));
                }
                out.append(hs[i].0.as_str());
                out.append(": ");
                out.append(hs[i].1.as_str());
                out.append("\r\n");
                proof {
                    assert(out@ =~= before + spec_header_line(all[i as int]));
                    assert((before + spec_header_line(rest[0])) + spec_header_lines(
                        rest.drop_first(),
                    ) =~= before + (spec_header_line(rest[0]) + spec_header_lines(
                        rest.drop_first(),
                    )));
                    assert(spec_header_lines(rest) == spec_header_line(rest[0])
                        + spec_header_lines(rest.drop_first()));
                }
                i += 1;
            }
            proof {
                assert(all.subrange(all.len() as int, all.len() as int) =~= Seq::<(
                    Seq<char>,
                    Seq<char>,
                )>::empty());
                assert(out@ + Seq::<char>::empty() =~= out@);
            }
        },
        None => {
            proof {
                assert(out@ + spec_header_lines(all) =~= out@);
            }
        },
    }
    out.append("\r\n");
    match &request.body {
        Some(b) => {
            out.append(b.as_str());
        },
        None => {},
    }
    proof {
        assert(out@ =~= spec_serialized_request(request@));
    }
    out
}

/// Reads the channel's reply to end-of-input.
fn read_response<S: HttpStream>(stream: &mut S) -> (r: Result<String, NanoGetError>)
    ensures
        final(stream).written() == old(stream).written(),
        r is Err ==> r->Err_0@ == ErrorKind::NetworkError,
{
    stream.read_to_end_string()
}

/// Decomposes reply text into a [`Response`].
fn parse_body_from_response(response: &str) -> (r: Response)
    ensures
        r@ == spec_response_of(response@),
        response_headers_unique(r@),
{
    new_response_from_complete(response.to_owned())
}

/// Reads the channel to end-of-input and decomposes what it got. Whatever
/// text came back, the result is its decomposition; only a transport read
/// failure surfaces as an error.
pub fn receive_response<S: HttpStream>(stream: &mut S) -> (r: Result<Response, NanoGetError>)
    ensures
        final(stream).written() == old(stream).written(),
        r is Ok ==> (exists|t: Seq<char>| r->Ok_0@ == #[trigger] spec_response_of(t)),
        r is Ok ==> response_headers_unique(r->Ok_0@),
        r is Err ==> r->Err_0@ == ErrorKind::NetworkError,
{
    let text = match read_response(stream) {
        Ok(t) => t,
        Err(e) => {
            return Err(e);
        },
    };
    let response = parse_body_from_response(text.as_str());
    Ok(response)
}

/// One full round trip over a connected channel: the request is written in
/// full, then the reply is read to end-of-input and decomposed. The first
/// transport failure surfaces as a `NetworkError`.
pub fn execute<S: HttpStream>(stream: &mut S, request: &Request) -> (r: Result<
    Response,
    NanoGetError,
>)
    ensures
        r is Ok ==> final(stream).written() == old(stream).written() + spec_serialized_request(
            request@,
        ),
        r is Ok ==> (exists|t: Seq<char>| r->Ok_0@ == #[trigger] spec_response_of(t)),
        r is Ok ==> response_headers_unique(r->Ok_0@),
        r is Err ==> r->Err_0@ == ErrorKind::NetworkError,
{
    match send_request(stream, request) {
        Ok(u) => u,
        Err(e) => {
            return Err(e);
        },
    };
    receive_response(stream)
}

} // verus!
