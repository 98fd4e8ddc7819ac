//! Decomposing raw response text into status, headers and body.
//!
//! The text is split once on the first `"\r\n\r\n"`: the left side is the
//! head block, the right side is the body, kept byte-for-byte even when it
//! contains the separator again. The head block splits into `"\r\n"` lines;
//! the first is the status line, the rest are header candidates. A header
//! candidate without `:` is silently skipped. Decoding never fails: a
//! malformed status line classifies as the `Failure` sentinel instead.
use vstd::prelude::*;

use crate::headers::{
    insert_pair, lemma_insert_pair_unique, pair_views, spec_insert_pair,
    unique_keys,
};
use crate::strutil::{
    find_first, first_occ, lemma_split_on_nonempty, split_on, split_str, trim, trim_spec, views_of,
};

verus! {

/// The categories of an HTTP status code, by hundreds range.
///
/// `Ignore` and `Failure` are internal sentinels, not wire values: `Ignore`
/// marks a value that carries no response, and `Failure` marks a status line
/// whose code token could not be classified (wrong length, not numeric, or
/// outside every range). Classification is total and deterministic.
#[derive(Debug, Copy, Clone, PartialEq, Eq, Structural)]
pub enum StatusCode {
    /// A code in the 1xx range.
    Informational(u16),
    /// A code in the 2xx range, the successful responses.
    Success(u16),
    /// A code in the 3xx range.
    Redirection(u16),
    /// A code in the 4xx range.
    ClientError(u16),
    /// A code in the 5xx range.
    ServerError(u16),
    Ignore,
    Failure,
}

/// The numeric code a classified status carries, if any.
pub open spec fn spec_get_code(c: StatusCode) -> Option<u16> {
    match c {
        StatusCode::Informational(val) => Some(val),
        StatusCode::Success(val) => Some(val),
        StatusCode::Redirection(val) => Some(val),
        StatusCode::ClientError(val) => Some(val),
        StatusCode::ServerError(val) => Some(val),
        _ => None,
    }
}

/// Whether the character is a decimal digit.
pub open spec fn is_digit_char(c: char) -> bool {
    48 <= c as u32 <= 57
}

/// The value of a three-digit token.
pub open spec fn spec_code_num(t: Seq<char>) -> int {
    100 * (t[0] as u32 - 48) + 10 * (t[1] as u32 - 48) + (t[2] as u32 - 48)
}

/// The category of a numeric code: each hundreds range from 100 to 599 has
/// its category; every other value is the `Failure` sentinel.
pub open spec fn spec_classify(n: u16) -> StatusCode {
    if 100 <= n <= 199 {
        StatusCode::Informational(n)
    } else if 200 <= n <= 299 {
        StatusCode::Success(n)
    } else if 300 <= n <= 399 {
        StatusCode::Redirection(n)
    } else if 400 <= n <= 499 {
        StatusCode::ClientError(n)
    } else if 500 <= n <= 599 {
        StatusCode::ServerError(n)
    } else {
        StatusCode::Failure
    }
}

/// The classification of a status-code token: trimmed, it must be exactly
/// three decimal digits, else the result is `Failure`.
pub open spec fn spec_status_from_code(tok: Seq<char>) -> StatusCode {
    let t = trim_spec(tok);
    if t.len() != 3 {
        StatusCode::Failure
    } else if !(is_digit_char(t[0]) && is_digit_char(t[1]) && is_digit_char(t[2])) {
        StatusCode::Failure
    } else {
        spec_classify(spec_code_num(t) as u16)
    }
}

/// The status code and reason phrase read from the status line's pieces:
/// the second space-separated token is the code, the third, if present, is
/// the reason. Without a second token the status is `Failure`.
pub open spec fn spec_status_of_parts(parts: Seq<Seq<char>>) -> (StatusCode, Option<Seq<char>>) {
    (
        if parts.len() >= 2 {
            spec_status_from_code(parts[1])
        } else {
            StatusCode::Failure
        },
        if parts.len() >= 3 {
            Some(parts[2])
        } else {
            None
        },
    )
}

/// One header candidate folded into the collected pairs: a line with `:`
/// contributes its untrimmed key and trimmed value, any other line is
/// skipped.
pub open spec fn spec_header_step(
    acc: Seq<(Seq<char>, Seq<char>)>,
    line: Seq<char>,
) -> Seq<(Seq<char>, Seq<char>)> {
    match first_occ(line, ":"@) {
        Some(i) => spec_insert_pair(
            acc,
            line.subrange(0, i),
            trim_spec(line.subrange(i + ":"@.len(), line.len() as int)),
        ),
        None => acc,
    }
}

/// All header candidates folded into the collected pairs, first to last.
pub open spec fn spec_headers_fold(
    acc: Seq<(Seq<char>, Seq<char>)>,
    lines: Seq<Seq<char>>,
) -> Seq<(Seq<char>, Seq<char>)>
    decreases lines.len(),
{
    if lines.len() == 0 {
        acc
    } else {
        spec_headers_fold(spec_header_step(acc, lines[0]), lines.drop_first())
    }
}

/// The headers read from the candidate lines: nothing at all when there is
/// no candidate line, otherwise the folded pairs (possibly none of them).
pub open spec fn spec_headers_of_lines(lines: Seq<Seq<char>>) -> Option<
    Seq<(Seq<char>, Seq<char>)>,
> {
    if lines.len() == 0 {
        None
    } else {
        Some(spec_headers_fold(Seq::empty(), lines))
    }
}

/// The head/body split: the text up to the first `"\r\n\r\n"` and the text
/// after it. Without the separator both sides are the whole text.
pub open spec fn spec_split_head_body(t: Seq<char>) -> (Seq<char>, Seq<char>) {
    match first_occ(t, "\r\n\r\n"@) {
        Some(i) => (t.subrange(0, i), t.subrange(i + "\r\n\r\n"@.len(), t.len() as int)),
        None => (t, t),
    }
}

/// The mathematical content of a [`Response`].
pub ghost struct ResponseView {
    pub status: StatusCode,
    pub reason: Option<Seq<char>>,
    pub headers: Option<Seq<(Seq<char>, Seq<char>)>>,
    pub body: Seq<char>,
}

/// The full decomposition of response text into status, reason, headers and
/// body.
pub open spec fn spec_response_of(t: Seq<char>) -> ResponseView {
    let (head, body) = spec_split_head_body(t);
    let lines = split_on(head, "\r\n"@);
    let (status, reason) = spec_status_of_parts(split_on(lines[0], " "@));
    ResponseView {
        status,
        reason,
        headers: spec_headers_of_lines(lines.drop_first()),
        body,
    }
}

/// The status of a response: the classified code and the reason phrase, if
/// the status line carried one. Only the token right after the code is
/// taken as the reason; later tokens are dropped.
#[derive(Debug, Clone)]
pub struct ResponseStatus(pub StatusCode, pub Option<String>);

impl View for ResponseStatus {
    type V = (StatusCode, Option<Seq<char>>);

    closed spec fn view(&self) -> (StatusCode, Option<Seq<char>>) {
        (self.0, self.1.deep_view())
    }
}

/// The response read back from the transport: status, headers and body.
pub struct Response {
    /// The status of the response.
    pub status: ResponseStatus,
    /// The body of the response.
    pub body: String,
    headers: Option<Vec<(String, String)>>,
}

impl View for Response {
    type V = ResponseView;

    closed spec fn view(&self) -> ResponseView {
        ResponseView {
            status: self.status@.0,
            reason: self.status@.1,
            headers: match self.headers {
                Some(ref hs) => Some(pair_views(hs@)),
                None => None,
            },
            body: self.body@,
        }
    }
}

/// A response's headers, where it has any, carry pairwise distinct keys.
pub open spec fn response_headers_unique(v: ResponseView) -> bool {
    match v.headers {
        Some(hs) => unique_keys(hs),
        None => true,
    }
}

impl Response {
    /// The header pairs of the response, where the head block had any
    /// candidate line at all.
    pub fn get_response_headers(&self) -> (r: Option<Vec<(String, String)>>)
        ensures
            match self@.headers {
                Some(hs) => r is Some && pair_views(r->0@) == hs,
                None => r is None,
            },
    {
        match &self.headers {
            Some(hs) => {
                let mut out: Vec<(String, String)> = Vec::new();
                let mut i: usize = 0;
                while i < hs.len()
                    invariant
                        i <= hs.len(),
                        out@.len() == i,
                        forall|j: int|
                            0 <= j < i ==> (#[trigger] out@[j]).0@ == hs@[j].0@ && out@[j].1@
                                == hs@[j].1@,
                    decreases hs.len() - i,
                {
                    let k = hs[i].0.clone();
                    let v = hs[i].1.clone();
                    out.push((k, v));
                    i += 1;
                }
                proof {
                    assert(pair_views(out@) =~= pair_views(hs@));
                }
                Some(out)
            },
            None => None,
        }
    }

    /// The numeric status code of the response, where its status carries
    /// one.
    pub fn get_status_code(&self) -> (r: Option<u16>)
        ensures
            r == spec_get_code(self@.status),
    {
        self.status.0.get_code()
    }
}

impl StatusCode {
    /// The numeric code this status carries, if any; the `Ignore` and
    /// `Failure` sentinels carry none.
    pub fn get_code(self) -> (r: Option<u16>)
        ensures
            r == spec_get_code(self),
    {
        match self {
            StatusCode::Informational(val) => Some(val),
            StatusCode::ClientError(val) => Some(val),
            StatusCode::ServerError(val) => Some(val),
            StatusCode::Success(val) => Some(val),
            StatusCode::Redirection(val) => Some(val),
            _ => None,
        }
    }

    /// Classifies a status-code token. The token is trimmed; unless it is
    /// then exactly three decimal digits in one of the hundreds ranges from
    /// 100 to 599, the result is the `Failure` sentinel.
    pub fn from_code(code: &str) -> (r: Self)
        ensures
            r == spec_status_from_code(code@),
    {
        let t = trim(code);
        let n = t.as_str().unicode_len();
        if n != 3 {
            return StatusCode::Failure;
        }
        let c0 = t.as_str().get_char(0);
        let c1 = t.as_str().get_char(1);
        let c2 = t.as_str().get_char(2);
        let u0 = c0 as u32;
        let u1 = c1 as u32;
        let u2 = c2 as u32;
        if !(48 <= u0 && u0 <= 57 && 48 <= u1 && u1 <= 57 && 48 <= u2 && u2 <= 57) {
            return StatusCode::Failure;
        }
        let code_num: u16 = (100 * (u0 - 48) + 10 * (u1 - 48) + (u2 - 48)) as u16;
        if 100 <= code_num && code_num <= 199 {
            StatusCode::Informational(code_num)
        } else if 200 <= code_num && code_num <= 299 {
            StatusCode::Success(code_num)
        } else if 300 <= code_num && code_num <= 399 {
            StatusCode::Redirection(code_num)
        } else if 400 <= code_num && code_num <= 499 {
            StatusCode::ClientError(code_num)
        } else if 500 <= code_num && code_num <= 599 {
            StatusCode::ServerError(code_num)
        } else {
            StatusCode::Failure
        }
    }
}

/// Decomposes complete response text into a [`Response`].
pub fn new_response_from_complete(response: String) -> (r: Response)
    ensures
        r@ == spec_response_of(response@),
        response_headers_unique(r@),
{
    let n = response.as_str().unicode_len();
    let sep_len = "\r\n\r\n".unicode_len();
    let (heads, body) = match find_first(response.as_str(), "\r\n\r\n") {
        Some(i) => {
            let h = response.as_str().substring_char(0, i).to_owned();
            let b = response.as_str().substring_char(i + sep_len, n).to_owned();
            (h, b)
        },
        None => (response.clone(), response.clone()),
    };
    proof {
        reveal_strlit("\r\n");
    }
    let head_lines = split_str(heads.as_str(), "\r\n");
    proof {
        lemma_split_on_nonempty(heads@, "\r\n"@);
    }
    let (resp_state, headers) = process_head_lines(&head_lines);
    Response { status: resp_state, body, headers }
}

/// Reads the status line and the header candidates from the head block's
/// lines.
pub fn process_head_lines(lines: &Vec<String>) -> (r: (ResponseStatus, Option<
    Vec<(String, String)>,
>))
    requires
        lines@.len() >= 1,
    ensures
        (r.0@.0, r.0@.1) == spec_status_of_parts(split_on(lines@[0]@, " "@)),
        match spec_headers_of_lines(views_of(lines@).drop_first()) {
            Some(hs) => r.1 is Some && pair_views(r.1->0@) == hs && unique_keys(hs),
            None => r.1 is None,
        },
{
    let head = &lines[0];
    proof {
        reveal_strlit(" ");
    }
    let parts = split_str(head.as_str(), " ");
    proof {
        lemma_split_on_nonempty(head@, " "@);
        if parts@.len() >= 2 {
            assert(views_of(parts@)[1] == parts@[1]@);
        }
        if parts@.len() >= 3 {
            assert(views_of(parts@)[2] == parts@[2]@);
        }
    }
    let status_code = if parts.len() >= 2 {
        StatusCode::from_code(parts[1].as_str())
    } else {
        StatusCode::Failure
    };
    let reason = if parts.len() >= 3 {
        Some(parts[2].clone())
    } else {
        None
    };
    let response_headers = process_response_headers(lines, 1);
    proof {
        assert(views_of(lines@).drop_first() =~= views_of(lines@).subrange(
            1,
            lines@.len() as int,
        ));
    }
    (ResponseStatus(status_code, reason), response_headers)
}

/// Folds the header candidate lines from `start` onward into collected
/// pairs; with no candidate line at all the result is nothing.
pub fn process_response_headers(lines: &Vec<String>, start: usize) -> (r: Option<
    Vec<(String, String)>,
>)
    requires
        start <= lines@.len(),
    ensures
        match spec_headers_of_lines(views_of(lines@).subrange(start as int, lines@.len() as int)) {
            Some(hs) => r is Some && pair_views(r->0@) == hs && unique_keys(hs),
            None => r is None,
        },
{
    let ghost all = views_of(lines@).subrange(start as int, lines@.len() as int);
    if start >= lines.len() {
        return None;
    }
    let mut hs: Vec<(String, String)> = Vec::new();
    proof {
        assert(pair_views(hs@) =~= Seq::<(Seq<char>, Seq<char>)>::empty());
    }
    let mut i: usize = start;
    while i < lines.len()
        invariant
            start <= i <= lines@.len(),
            all == views_of(lines@).subrange(start as int, lines@.len() as int),
            unique_keys(pair_views(hs@)),
            spec_headers_fold(Seq::empty(), all) == spec_headers_fold(
                pair_views(hs@),
                views_of(lines@).subrange(i as int, lines@.len() as int),
            ),
        decreases lines@.len() - i,
    {
        let ghost rest = views_of(lines@).subrange(i as int, lines@.len() as int);
        let ghost acc = pair_views(hs@);
        proof {
            assert(rest[0] == views_of(lines@)[i as int]);
            assert(views_of(lines@)[i as int] == lines@[i as int]@);
            assert(rest.drop_first() =~= views_of(lines@).subrange(
                i + 1,
                lines@.len() as int,
            ));
        }
        let line = &lines[i];
        let line_len = line.as_str().unicode_len();
        let colon_len = ":".unicode_len();
        match find_first(line.as_str(), ":") {
            Some(ci) => {
                let key = line.as_str().substring_char(0, ci).to_owned();
                let value = trim(line.as_str().substring_char(ci + colon_len, line_len));
                proof {
                    lemma_insert_pair_unique(acc, key@, value@);
                }
                insert_pair(&mut hs, key, value);
            },
            None => {},
        }
        i += 1;
    }
    proof {
        assert(views_of(lines@).subrange(lines@.len() as int, lines@.len() as int)
            =~= Seq::<Seq<char>>::empty());
    }
    Some(hs)
}

/// Decomposition is a function of the text alone: any two responses read
/// from the same text are field-for-field identical.
pub proof fn lemma_parse_idempotent(t: Seq<char>, a: ResponseView, b: ResponseView)
    requires
        a == spec_response_of(t),
        b == spec_response_of(t),
    ensures
        a == b,
{
}

} // verus!
