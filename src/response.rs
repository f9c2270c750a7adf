use vstd::prelude::*;
use crate::error::RequestError;
use vstd::utf8::encode_utf8;
use crate::headers::{collapse_headers, header_map, is_last_of_name, lemma_header_map_last_wins, names_unique, pairs_view};

verus! {

/// The standard reason phrase of a status code, where one is defined.
pub uninterp spec fn canonical_reason_of(code: u16) -> Option<Seq<char>>;

/// The status text recorded for a code: its reason phrase, or the empty text
/// where none is defined.
pub open spec fn status_text_of(code: u16) -> Seq<char> {
    match canonical_reason_of(code) {
        Some(t) => t,
        None => Seq::empty(),
    }
}

/// The text that lossy UTF-8 decoding makes of a byte sequence.
pub uninterp spec fn utf8_lossy_of(bytes: Seq<u8>) -> Seq<char>;

/// A byte that a header value may hold and still read as text: visible ASCII
/// or a tab.
pub open spec fn is_visible_ascii(b: u8) -> bool {
    (32 <= b && b < 127) || b == 9
}

/// Every byte reads as text.
pub open spec fn all_visible_ascii(bytes: Seq<u8>) -> bool {
    forall|i: int| 0 <= i < bytes.len() ==> is_visible_ascii(#[trigger] bytes[i])
}

/// Each byte read as the ASCII character of the same code.
pub open spec fn ascii_chars(bytes: Seq<u8>) -> Seq<char> {
    bytes.map_values(|b: u8| b as char)
}

/// The text recorded for a header value: the value itself where it reads as
/// text, the empty string where it does not.
pub open spec fn header_value_view(bytes: Seq<u8>) -> Seq<char> {
    if all_visible_ascii(bytes) {
        ascii_chars(bytes)
    } else {
        Seq::empty()
    }
}

/// Received headers as pairs of texts, each value as it is recorded.
pub open spec fn raw_pairs_view(v: Seq<(String, Vec<u8>)>) -> Seq<(Seq<char>, Seq<char>)> {
    v.map_values(|p: (String, Vec<u8>)| (p.0@, header_value_view(p.1@)))
}

/// Elapsed milliseconds as recorded: the count itself, or the largest `u64`
/// where the count does not fit.
pub open spec fn recorded_millis(ms: u128) -> u64 {
    if ms > u64::MAX as u128 {
        u64::MAX
    } else {
        ms as u64
    }
}

/// A header received from the endpoint, and not received again later under the
/// same name, is recorded with its value (as text, or empty where it does not
/// read as text); no name is recorded that was not received.
pub proof fn lemma_received_header_kept(headers: Seq<(String, Vec<u8>)>, j: int)
    requires
        0 <= j < headers.len(),
        forall|m: int| j < m < headers.len() ==> headers[m].0@ != headers[j].0@,
    ensures
        header_map(raw_pairs_view(headers)).contains_key(headers[j].0@),
        header_map(raw_pairs_view(headers))[headers[j].0@] == header_value_view(headers[j].1@),
        forall|k: Seq<char>|
            header_map(raw_pairs_view(headers)).contains_key(k) ==> exists|m: int|
                0 <= m < headers.len() && headers[m].0@ == k,
{
    let s = raw_pairs_view(headers);
    assert forall|m: int| j < m < s.len() implies s[m].0 != s[j].0 by {}
    lemma_header_map_last_wins(s);
    assert(is_last_of_name(s, j));
    assert(header_map(s)[s[j].0] == s[j].1);
    assert forall|k: Seq<char>| header_map(s).contains_key(k) implies exists|m: int|
        0 <= m < headers.len() && headers[m].0@ == k by {
        let m = choose|m: int| 0 <= m < s.len() && s[m].0 == k;
        assert(headers[m].0@ == k);
    }
}

/// What the transport handed back: the status code, each header as received
/// (repeated names included, values as raw bytes), and the whole payload.
pub struct RawResponse {
    pub status: u16,
    pub headers: Vec<(String, Vec<u8>)>,
    pub body: Vec<u8>,
}

/// The normalized result of one exchange.
pub struct HttpResponse {
    pub status: u16,
    pub status_text: String,
    /// Each name once, with the value of its last entry.
    pub headers: Vec<(String, String)>,
    pub body: String,
    /// Elapsed whole milliseconds.
    pub time: u64,
    /// Byte length of the raw payload.
    pub size: u64,
}

impl HttpResponse {
    pub open spec fn wf(&self) -> bool {
        names_unique(pairs_view(self.headers@))
    }

    /// The headers as a mapping from name to value.
    pub open spec fn header_view(&self) -> Map<Seq<char>, Seq<char>> {
        header_map(pairs_view(self.headers@))
    }
}

/// Relies on http's `StatusCode::from_u16` and `StatusCode::canonical_reason`
/// (re-exported by reqwest): whether a code has a reason phrase, and which,
/// depends on the code alone; a code outside 100..=999 has none.
#[verifier::external_body]
fn reason_phrase(code: u16) -> (r: Option<String>)
    ensures
        r is Some <==> canonical_reason_of(code) is Some,
        r is Some ==> r->0@ == canonical_reason_of(code)->0,
        r is Some ==> r->0@.len() > 0,
{
    match reqwest::StatusCode::from_u16(code) {
        Ok(s) => match s.canonical_reason() {
            Some(t) => Some(t.to_string()),
            None => None,
        },
        Err(_) => None,
    }
}

/// The status text recorded for a code.
pub fn status_text(code: u16) -> (r: String)
    ensures
        r@ == status_text_of(code),
        r@.len() == 0 <==> canonical_reason_of(code) is None,
{
    match reason_phrase(code) {
        Some(t) => t,
        None => String::new(),
    }
}

/// Relies on http's `HeaderValue::from_bytes` and `HeaderValue::to_str`
/// (re-exported by reqwest): a value reads as text exactly when every byte is
/// visible ASCII or a tab, and the text is then those bytes.
#[verifier::external_body]
fn header_value_text(bytes: &Vec<u8>) -> (r: Option<String>)
    ensures
        r is Some <==> all_visible_ascii(bytes@),
        r is Some ==> r->0@ == ascii_chars(bytes@),
{
    match reqwest::header::HeaderValue::from_bytes(bytes.as_slice()) {
        Ok(v) => match v.to_str() {
            Ok(s) => Some(s.to_string()),
            Err(_) => None,
        },
        Err(_) => None,
    }
}

/// Relies on std's `String::from_utf8_lossy`: the text depends on the bytes
/// alone, and bytes that are the UTF-8 encoding of a text give that text.
#[verifier::external_body]
fn lossy_text(bytes: &Vec<u8>) -> (r: String)
    ensures
        r@ == utf8_lossy_of(bytes@),
        forall|t: Seq<char>| encode_utf8(t) == bytes@ ==> r@ == t,
{
    String::from_utf8_lossy(bytes.as_slice()).to_string()
}

/// The text recorded for one header value.
pub fn header_text(bytes: &Vec<u8>) -> (r: String)
    ensures
        r@ == header_value_view(bytes@),
{
    match header_value_text(bytes) {
        Some(t) => t,
        None => String::new(),
    }
}

/// The received headers, each value replaced by the text recorded for it.
fn header_texts(raw: &Vec<(String, Vec<u8>)>) -> (r: Vec<(String, String)>)
    ensures
        pairs_view(r@) == raw_pairs_view(raw@),
{
    let mut out: Vec<(String, String)> = Vec::new();
    let mut i: usize = 0;
    while i < raw.len()
        invariant
            i <= raw@.len(),
            pairs_view(out@) =~= raw_pairs_view(raw@.take(i as int)),
        decreases raw@.len() - i,
    {
        let name = raw[i].0.clone();
        let text = header_text(&raw[i].1);
        let ghost prev = out@;
        out.push((name, text));
        proof {
            assert(raw@.take(i as int + 1) =~= raw@.take(i as int).push(raw@[i as int]));
            assert(pairs_view(out@) =~= pairs_view(prev).push((name@, text@)));
            assert(pairs_view(out@) =~= raw_pairs_view(raw@.take(i as int + 1)));
        }
        i = i + 1;
    }
    assert(raw@.take(raw@.len() as int) =~= raw@);
    out
}

/// Assembles the normalized response from what the transport received and the
/// elapsed time.
pub fn build_response(raw: RawResponse, elapsed_millis: u128) -> (r: HttpResponse)
    ensures
        r.wf(),
        r.status == raw.status,
        r.status_text@ == status_text_of(raw.status),
        r.header_view() == header_map(raw_pairs_view(raw.headers@)),
        r.status_text@.len() == 0 <==> canonical_reason_of(raw.status) is None,
        r.body@ == utf8_lossy_of(raw.body@),
        forall|t: Seq<char>| encode_utf8(t) == raw.body@ ==> r.body@ == t,
        r.size == raw.body@.len(),
        r.time == recorded_millis(elapsed_millis),
{
    let status_text = status_text(raw.status);
    let texts = header_texts(&raw.headers);
    let headers = collapse_headers(&texts);
    let body = lossy_text(&raw.body);
    let size = raw.body.len() as u64;
    let time: u64 = if elapsed_millis > u64::MAX as u128 {
        u64::MAX
    } else {
        elapsed_millis as u64
    };
    HttpResponse { status: raw.status, status_text, headers, body, time, size }
}

/// Concludes an exchange: a transport failure becomes a transport error, with
/// nothing of a response; a received response is assembled.
pub fn finish_exchange(outcome: Result<RawResponse, String>, elapsed_millis: u128) -> (r: Result<
    HttpResponse,
    RequestError,
>)
    ensures
        outcome is Err <==> r is Err,
        outcome is Err ==> r->Err_0 is Transport && r->Err_0.text() == outcome->Err_0@,
        outcome is Ok ==> {
            let raw = outcome->Ok_0;
            let resp = r->Ok_0;
            &&& resp.wf()
            &&& resp.status == raw.status
            &&& resp.status_text@ == status_text_of(raw.status)
            &&& resp.header_view() == header_map(raw_pairs_view(raw.headers@))
            &&& resp.status_text@.len() == 0 <==> canonical_reason_of(raw.status) is None
            &&& resp.body@ == utf8_lossy_of(raw.body@)
            &&& forall|t: Seq<char>| encode_utf8(t) == raw.body@ ==> resp.body@ == t
            &&& resp.size == raw.body@.len()
            &&& resp.time == recorded_millis(elapsed_millis)
        },
{
    match outcome {
        Err(msg) => Err(RequestError::Transport(msg)),
        Ok(raw) => Ok(build_response(raw, elapsed_millis)),
    }
}

} // verus!
