//! Probe framing: the hand-built request, the connect address, and the
//! classification of raw response bytes into a probe outcome. The
//! network itself stays outside the library; these functions turn plain
//! bytes and text into judgements.

use vstd::prelude::*;

use crate::text::{dec_digits, render_u64, contains_char, trimmed, trim_text};

verus! {

/// The one request the probe sends: a GET for `path` against `host`,
/// asking the server to close the stream after the response.
pub open spec fn spec_request_text(host: Seq<char>, path: Seq<char>) -> Seq<char> {
    "GET "@ + path + " HTTP/1.1\r\nHost: "@ + host
        + "\r\nUser-Agent: Mozilla/5.0 (Windows NT 10.0) AppleWebKit/537.36 (KHTML, like Gecko) Chrome/42.0.2311.135 Safari/537.36 Edge/12.10240\r\nConnection: close\r\n\r\n"@
}

/// Builds the probe's request text.
pub fn build_request(host: &str, path: &str) -> (r: String)
    ensures
        r@ == spec_request_text(host@, path@),
{
    let mut s = String::from_str("GET ");
    s.append(path);
    s.append(" HTTP/1.1\r\nHost: ");
    s.append(host);
    s.append(
        "\r\nUser-Agent: Mozilla/5.0 (Windows NT 10.0) AppleWebKit/537.36 (KHTML, like Gecko) Chrome/42.0.2311.135 Safari/537.36 Edge/12.10240\r\nConnection: close\r\n\r\n",
    );
    proof {
        assert(s@ =~= spec_request_text(host@, path@));
    }
    s
}

/// The transport target for one candidate: the address with its port,
/// the address bracketed when it holds a colon (an IPv6 literal).
pub open spec fn spec_connect_address(ip: Seq<char>, port: u16) -> Seq<char> {
    if ip.contains(':') {
        seq!['['] + ip + "]:"@ + dec_digits(port as int)
    } else {
        ip + seq![':'] + dec_digits(port as int)
    }
}

/// Renders the transport target for one candidate.
pub fn connect_address(ip: &str, port: u16) -> (r: String)
    ensures
        r@ == spec_connect_address(ip@, port),
{
    let port_text = render_u64(port as u64);
    if contains_char(ip, ':') {
        let mut s = String::from_str("[");
        s.append(ip);
        s.append("]:");
        s.append(port_text.as_str());
        proof {
            reveal_strlit("[");
            assert(s@ =~= spec_connect_address(ip@, port));
        }
        s
    } else {
        let mut s = String::from_str("");
        s.append(ip);
        s.append(":");
        s.append(port_text.as_str());
        proof {
            reveal_strlit("");
            reveal_strlit(":");
            assert(s@ =~= spec_connect_address(ip@, port));
        }
        s
    }
}

/// An empty line (carriage return, line feed, twice) begins at `i`.
pub open spec fn is_separator_at(b: Seq<u8>, i: int) -> bool {
    0 <= i && i + 4 <= b.len() && b[i] == 13 && b[i + 1] == 10 && b[i + 2] == 13 && b[i + 3] == 10
}

/// Where the response's first empty line begins, if anywhere.
pub open spec fn spec_header_end(b: Seq<u8>) -> Option<int>
    decreases b.len(),
{
    if b.len() < 4 {
        None
    } else if b[0] == 13 && b[1] == 10 && b[2] == 13 && b[3] == 10 {
        Some(0)
    } else {
        match spec_header_end(b.drop_first()) {
            Some(i) => Some(i + 1),
            None => None,
        }
    }
}

/// The first empty line is at the first position where one stands.
proof fn lemma_header_end_found(b: Seq<u8>, i: int)
    requires
        is_separator_at(b, i),
        forall|j: int| 0 <= j < i ==> !is_separator_at(b, j),
    ensures
        spec_header_end(b) == Some(i),
    decreases i,
{
    if i == 0 {
    } else {
        let t = b.drop_first();
        assert(forall|j: int| 0 <= j < i - 1 ==> !is_separator_at(t, j)) by {
            assert(forall|j: int| 0 <= j < i - 1 ==> (is_separator_at(t, j) ==> is_separator_at(
                b,
                j + 1,
            )));
        }
        assert(is_separator_at(t, i - 1));
        lemma_header_end_found(t, i - 1);
        assert(!is_separator_at(b, 0));
    }
}

/// Without an empty line there is no header end.
proof fn lemma_header_end_missing(b: Seq<u8>)
    requires
        forall|j: int| 0 <= j ==> !is_separator_at(b, j),
    ensures
        spec_header_end(b) is None,
    decreases b.len(),
{
    if b.len() >= 4 {
        let t = b.drop_first();
        assert(forall|j: int| 0 <= j ==> (is_separator_at(t, j) ==> is_separator_at(b, j + 1)));
        lemma_header_end_missing(t);
        assert(!is_separator_at(b, 0));
    }
}

/// Finds where the response's first empty line begins.
pub fn find_header_end(b: &Vec<u8>) -> (r: Option<usize>)
    ensures
        r is Some <==> spec_header_end(b@) is Some,
        r is Some ==> r.unwrap() as int == spec_header_end(b@).unwrap() && r.unwrap() + 4
            <= b@.len(),
{
    let n = b.len();
    if n < 4 {
        proof {
            lemma_header_end_missing(b@);
        }
        return None;
    }
    let mut i: usize = 0;
    while i <= n - 4
        invariant
            0 <= i <= n - 3,
            4 <= n == b@.len(),
            forall|j: int| 0 <= j < i ==> !is_separator_at(b@, j),
        decreases n - i,
    {
        if b[i] == 13 && b[i + 1] == 10 && b[i + 2] == 13 && b[i + 3] == 10 {
            proof {
                lemma_header_end_found(b@, i as int);
            }
            return Some(i);
        }
        assert(!is_separator_at(b@, i as int));
        i = i + 1;
    }
    proof {
        assert(forall|j: int| 0 <= j ==> !is_separator_at(b@, j));
        lemma_header_end_missing(b@);
    }
    None
}

/// Copies the bytes of `b` from position `from` on.
pub fn tail_bytes(b: &Vec<u8>, from: usize) -> (r: Vec<u8>)
    requires
        from <= b@.len(),
    ensures
        r@ == b@.subrange(from as int, b@.len() as int),
{
    let n = b.len();
    let mut out: Vec<u8> = Vec::new();
    let mut i = from;
    while i < n
        invariant
            from <= i <= n,
            n == b@.len(),
            out@ == b@.subrange(from as int, i as int),
        decreases n - i,
    {
        out.push(b[i]);
        proof {
            assert(b@.subrange(from as int, i + 1) =~= b@.subrange(from as int, i as int).push(
                b@[i as int],
            ));
        }
        i = i + 1;
    }
    proof {
        assert(out@ =~= b@.subrange(from as int, n as int));
    }
    out
}

/// What std's lossy UTF-8 decoding makes of some bytes: a function of
/// the bytes alone, named here.
pub uninterp spec fn lossy_of(b: Seq<u8>) -> Seq<char>;

/// Relies on std's `String::from_utf8_lossy`: decodes the bytes as
/// UTF-8, putting the replacement character for invalid sequences.
#[verifier::external_body]
fn lossy_text(b: &Vec<u8>) -> (r: String)
    ensures
        r@ == lossy_of(b@),
{
    String::from_utf8_lossy(b.as_slice()).into_owned()
}

/// What serde_json makes of reading the string field `key` from `s`:
/// the outer option is whether `s` parses as JSON at all, the inner
/// whether the parsed value carries that field as a string. A function
/// of the text alone, named here.
pub uninterp spec fn json_str_field(s: Seq<char>, key: Seq<char>) -> Option<Option<Seq<char>>>;

/// Relies on serde_json's parser and `Value::get`: reads one string
/// field of the top-level JSON value; any non-object value simply lacks
/// the field.
#[verifier::external_body]
fn json_string_field(s: &str, key: &str) -> (r: Option<Option<String>>)
    ensures
        r is Some <==> json_str_field(s@, key@) is Some,
        r is Some ==> (r.unwrap() is Some <==> json_str_field(s@, key@).unwrap() is Some),
        r is Some && r.unwrap() is Some ==> r.unwrap().unwrap()@ == json_str_field(
            s@,
            key@,
        ).unwrap().unwrap(),
{
    match serde_json::from_str::<serde_json::Value>(s) {
        Ok(v) => match v.get(key) {
            Some(serde_json::Value::String(text)) => Some(Some(text.clone())),
            _ => Some(None),
        },
        Err(_) => None,
    }
}

/// The identity a probe returned; the only field the system trusts is
/// the client address, and it may be absent.
#[derive(Debug)]
pub struct IdentityDocument {
    pub client_ip: Option<String>,
}

/// The mathematical image of an identity document.
pub ghost struct SpecIdentityDocument {
    pub client_ip: Option<Seq<char>>,
}

impl View for IdentityDocument {
    type V = SpecIdentityDocument;

    open spec fn view(&self) -> SpecIdentityDocument {
        SpecIdentityDocument {
            client_ip: match &self.client_ip {
                Some(s) => Some(s@),
                None => None,
            },
        }
    }
}

/// Everything one probe can come to.
#[derive(Debug)]
pub enum ProbeOutcome {
    /// The stream closed on a response whose body was JSON.
    Identity(IdentityDocument),
    /// The transport connection failed within the timeout.
    ConnectFailed,
    /// The TLS handshake or the stream failed within the timeout.
    TlsFailed,
    /// The whole-probe timeout expired.
    Timeout,
    /// A response arrived but its body was no JSON.
    MalformedResponse,
    /// A response arrived without an empty line ending its headers.
    NoSeparator,
}

/// The mathematical image of a probe outcome.
pub ghost enum SpecProbeOutcome {
    Identity(SpecIdentityDocument),
    ConnectFailed,
    TlsFailed,
    Timeout,
    MalformedResponse,
    NoSeparator,
}

impl View for ProbeOutcome {
    type V = SpecProbeOutcome;

    open spec fn view(&self) -> SpecProbeOutcome {
        match self {
            ProbeOutcome::Identity(doc) => SpecProbeOutcome::Identity(doc@),
            ProbeOutcome::ConnectFailed => SpecProbeOutcome::ConnectFailed,
            ProbeOutcome::TlsFailed => SpecProbeOutcome::TlsFailed,
            ProbeOutcome::Timeout => SpecProbeOutcome::Timeout,
            ProbeOutcome::MalformedResponse => SpecProbeOutcome::MalformedResponse,
            ProbeOutcome::NoSeparator => SpecProbeOutcome::NoSeparator,
        }
    }
}

/// How response bytes classify: no empty line is no separator; then the
/// body is everything after the first empty line, decoded lossily and
/// trimmed; a body that is no JSON is malformed; otherwise the outcome
/// is the identity with whatever string stood under the client-address
/// field.
pub open spec fn spec_classify(b: Seq<u8>) -> SpecProbeOutcome {
    match spec_header_end(b) {
        None => SpecProbeOutcome::NoSeparator,
        Some(i) => {
            let body = trimmed(lossy_of(b.subrange(i + 4, b.len() as int)));
            match json_str_field(body, "clientIp"@) {
                None => SpecProbeOutcome::MalformedResponse,
                Some(field) => SpecProbeOutcome::Identity(
                    SpecIdentityDocument { client_ip: field },
                ),
            }
        },
    }
}

/// Classifies one complete response.
pub fn classify_response(b: &Vec<u8>) -> (r: ProbeOutcome)
    ensures
        r@ == spec_classify(b@),
{
    let n = b.len();
    match find_header_end(b) {
        None => ProbeOutcome::NoSeparator,
        Some(i) => {
            assert(i + 4 <= n);
            let body = tail_bytes(b, i + 4);
            let text = lossy_text(&body);
            let body_trimmed = trim_text(text.as_str());
            match json_string_field(body_trimmed.as_str(), "clientIp") {
                None => ProbeOutcome::MalformedResponse,
                Some(field) => ProbeOutcome::Identity(IdentityDocument { client_ip: field }),
            }
        },
    }
}

/// Reads the baseline address out of the unproxied probe's outcome;
/// anything but an identity carrying the client-address field is a
/// fatal startup condition, signalled as no baseline.
pub fn baseline_ip(outcome: ProbeOutcome) -> (r: Option<String>)
    ensures
        match outcome@ {
            SpecProbeOutcome::Identity(doc) => match doc.client_ip {
                Some(ip) => r is Some && r.unwrap()@ == ip,
                None => r is None,
            },
            _ => r is None,
        },
{
    match outcome {
        ProbeOutcome::Identity(doc) => doc.client_ip,
        _ => None,
    }
}

} // verus!
