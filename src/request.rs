use vstd::prelude::*;
use crate::error::RequestError;
use crate::headers::{
    collapse_headers, header_map, is_last_of_name, lemma_header_map_last_wins, lemma_sent_header_kept,
    names_unique, pairs_view,
};
use crate::method::{invalid_method_text, is_method_token, is_tchar, method_token, parse_method};
use vstd::multiset::Multiset;
use vstd::utf8::encode_utf8;

verus! {

#[verifier::external_type_specification]
#[verifier::external_body]
pub struct ExClient(reqwest::Client);

#[verifier::external_type_specification]
#[verifier::external_body]
pub struct ExRequestBuilder(reqwest::RequestBuilder);

/// A validated request, ready to be handed to the transport.
pub struct PreparedRequest {
    pub method: reqwest::Method,
    pub url: String,
    /// Each name once, with the value of its last entry.
    pub headers: Vec<(String, String)>,
    /// `None` means the request carries no payload at all.
    pub body: Option<String>,
}

/// Validates the method and settles the headers of a request; the URL and the
/// body are kept as given. Nothing is sent.
pub fn prepare_request(
    method: &str,
    url: String,
    headers: Vec<(String, String)>,
    body: Option<String>,
) -> (r: Result<PreparedRequest, RequestError>)
    ensures
        r is Ok <==> is_method_token(method@),
        r is Err ==> r->Err_0 is InvalidMethod && r->Err_0.text() == invalid_method_text(),
        r is Ok ==> {
            let p = r->Ok_0;
            &&& method_token(p.method) == method@
            &&& p.url == url
            &&& p.headers@.len() <= headers@.len()
            &&& names_unique(pairs_view(p.headers@))
            &&& header_map(pairs_view(p.headers@)) == header_map(pairs_view(headers@))
            &&& p.body == body
        },
{
    match parse_method(method) {
        Err(e) => Err(e),
        Ok(m) => {
            let settled = collapse_headers(&headers);
            Ok(PreparedRequest { method: m, url, headers: settled, body })
        },
    }
}

/// The builder holds a request, and no error from a URL, header name or
/// header value that the transport refused.
pub uninterp spec fn builder_ok(b: reqwest::RequestBuilder) -> bool;

/// The method text of the request that the builder holds.
pub uninterp spec fn builder_method(b: reqwest::RequestBuilder) -> Seq<char>;

/// The headers of the request that the builder holds, in no order: each name
/// as the transport stores it (ASCII letters in lower case), each value as
/// bytes.
pub uninterp spec fn builder_headers(b: reqwest::RequestBuilder) -> Multiset<(Seq<char>, Seq<u8>)>;

/// The transport accepts the URL text: it parses as a URL with a host.
pub uninterp spec fn url_accepted(url: Seq<char>) -> bool;

/// The payload of the request that the builder holds; `None` where it has none.
pub uninterp spec fn builder_body(b: reqwest::RequestBuilder) -> Option<Seq<u8>>;

/// The most headers a request may carry. The transport's header map gives up
/// (it panics) once a table of 32768 slots has to grow again, which can happen
/// from 6554 names on; this bound, with one more header for credentials in the
/// URL, stays below that.
pub const MAX_REQUEST_HEADERS: usize = 6500;

/// A header name that the transport accepts: one to 65535 token characters.
pub open spec fn header_name_ok(name: Seq<char>) -> bool {
    0 < name.len() <= 65535 && forall|i: int| 0 <= i < name.len() ==> is_tchar(#[trigger] name[i])
}

/// A header value that the transport accepts: no control character but the tab.
pub open spec fn header_value_ok(value: Seq<char>) -> bool {
    forall|i: int|
        0 <= i < value.len() ==> ((#[trigger] value[i] as u32) >= 32 && (value[i] as u32) != 127)
            || value[i] == '\t'
}

/// Every header of the list is accepted by the transport.
pub open spec fn headers_ok(v: Seq<(String, String)>) -> bool {
    forall|i: int| 0 <= i < v.len() ==> header_name_ok(#[trigger] v[i].0@) && header_value_ok(v[i].1@)
}

/// A character with ASCII upper-case letters turned to lower case.
pub open spec fn ascii_lower_char(c: char) -> char {
    if 'A' <= c && c <= 'Z' {
        (((c as u32) + 32) as u8) as char
    } else {
        c
    }
}

/// A text with ASCII upper-case letters turned to lower case.
pub open spec fn ascii_lower(s: Seq<char>) -> Seq<char> {
    s.map_values(|c: char| ascii_lower_char(c))
}

/// The headers as the transport stores them: names in lower case, values as
/// UTF-8 bytes.
pub open spec fn sent_headers(v: Seq<(String, String)>) -> Seq<(Seq<char>, Seq<u8>)> {
    v.map_values(|p: (String, String)| (ascii_lower(p.0@), encode_utf8(p.1@)))
}

/// The payload as the transport stores it.
pub open spec fn sent_body(body: Option<String>) -> Option<Seq<u8>> {
    match body {
        Some(t) => Some(encode_utf8(t@)),
        None => None,
    }
}

/// A header that the caller gives, and does not give again later under the
/// same name, is among the headers attached by `build_request` to a request
/// settled by `prepare_request`: its name as the transport stores it, its
/// value byte for byte.
pub proof fn lemma_given_header_attached(
    given: Seq<(String, String)>,
    settled: Seq<(String, String)>,
    j: int,
)
    requires
        0 <= j < given.len(),
        forall|m: int| j < m < given.len() ==> given[m].0@ != given[j].0@,
        names_unique(pairs_view(settled)),
        header_map(pairs_view(settled)) == header_map(pairs_view(given)),
    ensures
        sent_headers(settled).to_multiset().count((ascii_lower(given[j].0@), encode_utf8(given[j].1@)))
            > 0,
{
    broadcast use vstd::seq_lib::to_multiset_contains;

    let g = pairs_view(given);
    let s = pairs_view(settled);
    lemma_sent_header_kept(given, j);
    lemma_header_map_last_wins(s);
    let k = given[j].0@;
    let m = choose|m: int| 0 <= m < s.len() && s[m].0 == k;
    assert(is_last_of_name(s, m));
    assert(s[m].1 == given[j].1@);
    assert(sent_headers(settled)[m] == (ascii_lower(given[j].0@), encode_utf8(given[j].1@)));
}

/// Relies on reqwest's `Client::request` (with `IntoUrl` for `&str`): starts a
/// request of the method to the URL, with no payload. A URL that the transport
/// does not accept leaves an error in the builder. Credentials in the URL
/// become one authorization header.
#[verifier::external_body]
fn open_request(client: &reqwest::Client, method: reqwest::Method, url: &str) -> (r:
    reqwest::RequestBuilder)
    ensures
        builder_ok(r) <==> url_accepted(url@),
        builder_ok(r) ==> {
            &&& builder_method(r) == method_token(method)
            &&& builder_headers(r).len() <= 1
            &&& builder_body(r) is None
        },
{
    client.request(method, url)
}

/// Relies on reqwest's `RequestBuilder::header`, through http's
/// `HeaderName::from_bytes`, `HeaderValue::try_from` and `HeaderMap::append`:
/// adds one header, its name in lower case and its value as given, where both
/// are valid; otherwise it leaves an error in the builder. The header map
/// panics once it would grow past its fixed size, which the bound on the count
/// keeps clear of.
#[verifier::external_body]
fn add_header(b: reqwest::RequestBuilder, name: String, value: String) -> (r: reqwest::RequestBuilder)
    requires
        builder_ok(b) ==> builder_headers(b).len() < 6553,
    ensures
        builder_ok(r) <==> (builder_ok(b) && header_name_ok(name@) && header_value_ok(value@)),
        builder_ok(r) ==> {
            &&& builder_method(r) == builder_method(b)
            &&& builder_headers(r) == builder_headers(b).insert((ascii_lower(name@), encode_utf8(value@)))
            &&& builder_body(r) == builder_body(b)
        },
{
    b.header(name, value)
}

/// Relies on reqwest's `RequestBuilder::body`: sets the payload of a request
/// that the builder holds, and changes nothing else.
#[verifier::external_body]
fn set_body(b: reqwest::RequestBuilder, body: String) -> (r: reqwest::RequestBuilder)
    ensures
        builder_ok(r) == builder_ok(b),
        builder_ok(r) ==> {
            &&& builder_method(r) == builder_method(b)
            &&& builder_headers(r) == builder_headers(b)
            &&& builder_body(r) == Some(encode_utf8(body@))
        },
{
    b.body(body)
}

/// Builds the outgoing request: its method and URL, each header in turn, and
/// the payload only where one was given. The request is held exactly when the
/// transport accepts the URL and every header; it then carries the method,
/// every header given (beside at most one from credentials in the URL), and
/// exactly the payload given.
pub fn build_request(client: &reqwest::Client, request: PreparedRequest) -> (r:
    reqwest::RequestBuilder)
    requires
        request.headers@.len() <= MAX_REQUEST_HEADERS,
    ensures
        builder_ok(r) <==> url_accepted(request.url@) && headers_ok(request.headers@),
        builder_ok(r) ==> {
            let hs = builder_headers(r);
            let sent = sent_headers(request.headers@).to_multiset();
            &&& builder_method(r) == method_token(request.method)
            &&& sent.subset_of(hs)
            &&& hs.len() <= sent.len() + 1
            &&& builder_body(r) == sent_body(request.body)
        },
{
    broadcast use vstd::seq_lib::to_multiset_build, vstd::seq_lib::to_multiset_len;
    broadcast use vstd::multiset::group_multiset_axioms;
    let ghost req = request;
    let PreparedRequest { method, url, headers, body } = request;
    let mut b = open_request(client, method, url.as_str());
    let ghost first = builder_headers(b);
    proof {
        let z = sent_headers(headers@.take(0));
        assert(z =~= Seq::empty());
        vstd::seq_lib::to_multiset_len(z);
        assert(z.to_multiset() =~= Multiset::empty());
        assert(first.add(z.to_multiset()) =~= first);
    }
    let mut i: usize = 0;
    while i < headers.len()
        invariant
            i <= headers@.len(),
            headers == req.headers,
            url == req.url,
            headers@.len() <= MAX_REQUEST_HEADERS,
            builder_ok(b) <==> url_accepted(url@) && headers_ok(headers@.take(i as int)),
            builder_ok(b) ==> {
                &&& builder_method(b) == method_token(req.method)
                &&& first.len() <= 1
                &&& builder_headers(b) == first.add(sent_headers(headers@.take(i as int)).to_multiset())
                &&& builder_body(b) is None
            },
        decreases headers@.len() - i,
    {
        let ghost prev = b;
        proof {
            if builder_ok(b) {
                let x = sent_headers(headers@.take(i as int));
                assert(x.len() == i);
                vstd::seq_lib::to_multiset_len(x);
                assert(builder_headers(b).len() == first.len() + i);
            }
        }
        b = add_header(b, headers[i].0.clone(), headers[i].1.clone());
        proof {
            let t = headers@.take(i as int);
            let t1 = headers@.take(i as int + 1);
            let e = (ascii_lower(headers@[i as int].0@), encode_utf8(headers@[i as int].1@));
            assert(t1 =~= t.push(headers@[i as int]));
            assert(sent_headers(t1) =~= sent_headers(t).push(e));
            assert(headers_ok(t1) <==> headers_ok(t) && header_name_ok(headers@[i as int].0@)
                && header_value_ok(headers@[i as int].1@)) by {
                if headers_ok(t) && header_name_ok(headers@[i as int].0@) && header_value_ok(
                    headers@[i as int].1@,
                ) {
                    assert forall|k: int| 0 <= k < t1.len() implies header_name_ok(
                        #[trigger] t1[k].0@,
                    ) && header_value_ok(t1[k].1@) by {
                        if k < i {
                            assert(t1[k] == t[k]);
                        }
                    }
                }
                if headers_ok(t1) {
                    assert(t1[i as int] == headers@[i as int]);
                    assert forall|k: int| 0 <= k < t.len() implies header_name_ok(
                        #[trigger] t[k].0@,
                    ) && header_value_ok(t[k].1@) by {
                        assert(t1[k] == t[k]);
                    }
                }
            }
            if builder_ok(b) {
                let x = sent_headers(t).to_multiset();
                vstd::seq_lib::to_multiset_build(sent_headers(t), e);
                assert(sent_headers(t1).to_multiset() =~= x.insert(e));
                assert(builder_headers(prev) == first.add(x));
                assert(builder_headers(b) == first.add(x).insert(e));
                assert(first.add(x).insert(e) =~= first.add(x.insert(e)));
            }
        }
        i = i + 1;
    }
    proof {
        assert(headers@.take(headers@.len() as int) =~= headers@);
        if builder_ok(b) {
            let sent = sent_headers(headers@).to_multiset();
            assert(sent.subset_of(builder_headers(b)));
        }
    }
    match body {
        Some(text) => set_body(b, text),
        None => b,
    }
}

} // verus!
