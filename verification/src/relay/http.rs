//! The metrics endpoint: from the bytes of a request to the text of the response.

use crate::relay::metrics::RelayMetrics;
use crate::text::{
    chars_of, contains, contains_text, decimal, last_word, last_word_of, line_at, lines,
    lower_starts_with, lowercase, push_decimal, starts_with,
};
use vstd::prelude::*;
use vstd::utf8::{decode_utf8, encode_utf8, encode_utf8_decode_utf8, valid_utf8};

verus! {

/// Most connections that may wait for authentication at one time.
pub const MAX_CONCURRENT_PRE_AUTH: usize = 100;

/// What a connection beyond that number is answered.
pub const BUSY_RESPONSE: &'static str =
    "HTTP/1.1 503 Service Unavailable\r\nContent-Length: 0\r\nConnection: close\r\n\r\n";

/// What `String::from_utf8_lossy` makes of bytes.
pub uninterp spec fn lossy_text(bytes: Seq<u8>) -> Seq<char>;

/// `String::from_utf8_lossy`: the text that the bytes encode, with replacement characters where
/// they encode none. Of bytes that are not UTF-8 the result is only named.
#[verifier::external_body]
fn from_utf8_lossy(bytes: &[u8]) -> (s: String)
    ensures
        s@ == lossy_text(bytes@),
        valid_utf8(bytes@) ==> s@ == decode_utf8(bytes@),
{
    String::from_utf8_lossy(bytes).into_owned()
}

/// Constant-time comparison: every byte is looked at whatever the first ones hold.
pub fn constant_time_eq(a: &[u8], b: &[u8]) -> (r: bool)
    ensures
        r == (a@ == b@),
{
    if a.len() != b.len() {
        return false;
    }
    let mut diff: u8 = 0;
    let mut i: usize = 0;
    while i < a.len()
        invariant
            i <= a@.len(),
            a@.len() == b@.len(),
            (diff == 0) == (forall|j: int| 0 <= j < i ==> a@[j] == b@[j]),
        decreases a@.len() - i,
    {
        let x: u8 = a[i];
        let y: u8 = b[i];
        let before: u8 = diff;
        diff = diff | (x ^ y);
        proof {
            assert((before | (x ^ y)) == 0 <==> (before == 0 && x == y)) by (bit_vector);
        }
        i += 1;
    }
    proof {
        if diff == 0 {
            assert(a@ =~= b@);
        }
    }
    diff == 0
}

/// Whether a line carries credentials.
pub open spec fn is_auth_line(line: Seq<char>) -> bool {
    ||| starts_with(lowercase(line), "authorization: bearer "@)
    ||| starts_with(lowercase(line), "authorization: token "@)
}

/// The last word of the first line that carries credentials; empty when there is none.
pub open spec fn provided_token(ls: Seq<Seq<char>>) -> Seq<char>
    decreases ls.len(),
{
    if ls.len() == 0 {
        Seq::empty()
    } else if is_auth_line(ls.first()) {
        last_word(ls.first())
    } else {
        provided_token(ls.drop_first())
    }
}

/// A response with its status line and headers.
pub open spec fn response_text(status: Seq<char>, kind: Seq<char>, body: Seq<char>) -> Seq<char> {
    "HTTP/1.1 "@ + status + "\r\nContent-Type: "@ + kind + "\r\nContent-Length: "@ + decimal(
        encode_utf8(body).len(),
    ) + "\r\nConnection: close\r\n\r\n"@ + body
}

/// The response to wrong or missing credentials.
pub open spec fn unauthorized_text() -> Seq<char> {
    "HTTP/1.1 401 Unauthorized\r\nContent-Type: text/plain\r\nContent-Length: 13\r\nWWW-Authenticate: Bearer\r\nConnection: close\r\n\r\nUnauthorized\n"@
}

/// The body of the health endpoint.
pub open spec fn health_text(m: RelayMetrics, uptime: u64) -> Seq<char> {
    "OK\nUptime: "@ + decimal(uptime as nat) + "s\nSessions: "@ + decimal(
        m.sessions_active as nat,
    ) + "\n"@
}

/// The response to a request: 401 unless the expected token, if there is one, was provided; then
/// the metrics, the health line, or 404.
pub open spec fn answer(
    request: Seq<char>,
    expected: Option<Seq<char>>,
    m: RelayMetrics,
    uptime: u64,
) -> Seq<char> {
    if expected is Some && provided_token(lines(request)) != expected->0 {
        unauthorized_text()
    } else if contains_text(request, "GET /metrics"@) {
        response_text("200 OK"@, "text/plain; version=0.0.4"@, m.prometheus_text(uptime))
    } else if contains_text(request, "GET /health"@) {
        response_text("200 OK"@, "text/plain"@, health_text(m, uptime))
    } else {
        response_text(
            "404 Not Found"@,
            "text/plain"@,
            "Not Found\n\nAvailable endpoints:\n  GET /metrics - Prometheus metrics\n  GET /health  - Health check\n"@,
        )
    }
}

/// The token that a request provides.
fn find_token(chars: &[char]) -> (t: String)
    ensures
        t@ == provided_token(lines(chars@)),
{
    let mut from: usize = 0;
    proof {
        assert(chars@.skip(0) =~= chars@);
    }
    while from < chars.len()
        invariant
            from <= chars@.len(),
            provided_token(lines(chars@.skip(from as int))) == provided_token(lines(chars@)),
        decreases chars@.len() - from,
    {
        let ghost s = chars@.skip(from as int);
        let (end, next) = line_at(chars, from);
        proof {
            let line = chars@.subrange(from as int, end as int);
            let rest = lines(chars@.skip(next as int));
            assert(lines(s) == seq![line] + rest);
            assert(lines(s).first() == line);
            assert(lines(s).drop_first() =~= rest);
        }
        if lower_starts_with(chars, from, end, "authorization: bearer ") || lower_starts_with(
            chars,
            from,
            end,
            "authorization: token ",
        ) {
            return last_word_of(chars, from, end);
        }
        from = next;
    }
    proof {
        assert(lines(chars@.skip(from as int)) =~= Seq::empty());
    }
    String::new()
}

/// A response with its status line and headers.
fn respond(status: &str, kind: &str, body: &str) -> (s: String)
    ensures
        s@ == response_text(status@, kind@, body@),
{
    let mut s = String::from_str("HTTP/1.1 ");
    s.append(status);
    s.append("\r\nContent-Type: ");
    s.append(kind);
    s.append("\r\nContent-Length: ");
    push_decimal(&mut s, body.as_bytes().len() as u64);
    s.append("\r\nConnection: close\r\n\r\n");
    s.append(body);
    s
}

/// Answers the text of a request after `uptime` seconds.
pub fn handle_request(
    request: &str,
    auth_token: &Option<String>,
    metrics: &RelayMetrics,
    uptime: u64,
) -> (s: String)
    ensures
        s@ == answer(
            request@,
            match *auth_token {
                Some(t) => Some(t@),
                None => None,
            },
            *metrics,
            uptime,
        ),
{
    let chars = chars_of(request);
    if let Some(expected) = auth_token {
        let provided = find_token(chars.as_slice());
        let same = constant_time_eq(
            provided.as_str().as_bytes(),
            expected.as_str().as_bytes(),
        );
        proof {
            encode_utf8_decode_utf8(provided@);
            encode_utf8_decode_utf8(expected@);
        }
        if !same {
            return String::from_str(
                "HTTP/1.1 401 Unauthorized\r\nContent-Type: text/plain\r\nContent-Length: 13\r\nWWW-Authenticate: Bearer\r\nConnection: close\r\n\r\nUnauthorized\n",
            );
        }
    }
    if contains(chars.as_slice(), "GET /metrics") {
        let body = metrics.export_prometheus_at(uptime);
        respond("200 OK", "text/plain; version=0.0.4", body.as_str())
    } else if contains(chars.as_slice(), "GET /health") {
        let mut body = String::from_str("OK\nUptime: ");
        push_decimal(&mut body, uptime);
        body.append("s\nSessions: ");
        push_decimal(&mut body, metrics.sessions_active);
        body.append("\n");
        respond("200 OK", "text/plain", body.as_str())
    } else {
        respond(
            "404 Not Found",
            "text/plain",
            "Not Found\n\nAvailable endpoints:\n  GET /metrics - Prometheus metrics\n  GET /health  - Health check\n",
        )
    }
}

/// The metrics endpoint.
pub struct MetricsHttpServer {
    /// Where it listens.
    pub addr: crate::net::SocketAddr,
    /// Token that requests must carry, if any.
    pub auth_token: Option<String>,
}

impl MetricsHttpServer {
    /// Whether anyone who reaches the address may read the metrics, which is worth a warning.
    pub open spec fn open_to_all(self) -> bool {
        self.auth_token is None && !self.addr.ip.loopback()
    }

    /// Create a metrics endpoint with optional bearer-token auth.
    pub fn new(addr: crate::net::SocketAddr, auth_token: Option<String>) -> (s: MetricsHttpServer)
        ensures
            s.addr == addr,
            s.auth_token == auth_token,
    {
        MetricsHttpServer { addr, auth_token }
    }

    /// Whether the endpoint is reachable from other hosts without a token.
    pub fn is_open_to_all(&self) -> (b: bool)
        ensures
            b == self.open_to_all(),
    {
        self.auth_token.is_none() && !self.addr.ip.is_loopback()
    }

    /// Answers the bytes of a request; an empty request gets no answer.
    pub fn handle(&self, request: &[u8], metrics: &RelayMetrics, uptime: u64) -> (r: Option<String>)
        ensures
            request@.len() == 0 <==> r is None,
            r matches Some(s) ==> s@ == answer(
                lossy_text(request@),
                match self.auth_token {
                    Some(t) => Some(t@),
                    None => None,
                },
                *metrics,
                uptime,
            ),
    {
        if request.len() == 0 {
            return None;
        }
        let text = from_utf8_lossy(request);
        Some(handle_request(text.as_str(), &self.auth_token, metrics, uptime))
    }
}

/// A request that does not carry the configured token learns nothing: its answer is the same
/// whatever the metrics are and whatever it asks for.
pub proof fn law_no_token_no_metrics(
    a: Seq<char>,
    b: Seq<char>,
    token: Seq<char>,
    m: RelayMetrics,
    n: RelayMetrics,
    up_m: u64,
    up_n: u64,
)
    requires
        provided_token(lines(a)) != token,
        provided_token(lines(b)) != token,
    ensures
        answer(a, Some(token), m, up_m) == answer(b, Some(token), n, up_n),
        answer(a, Some(token), m, up_m) == unauthorized_text(),
{
}

/// The right token opens the endpoint: the answer is then the same as where none is asked for.
pub proof fn law_the_token_opens_the_endpoint(request: Seq<char>, m: RelayMetrics, uptime: u64)
    ensures
        answer(request, Some(provided_token(lines(request))), m, uptime) == answer(
            request,
            None,
            m,
            uptime,
        ),
{
}

/// The first line that carries credentials decides, whatever follows it and whatever other lines
/// precede it.
pub proof fn law_the_first_credentials_count(
    before: Seq<Seq<char>>,
    line: Seq<char>,
    rest: Seq<Seq<char>>,
)
    requires
        is_auth_line(line),
        forall|i: int| 0 <= i < before.len() ==> !is_auth_line(#[trigger] before[i]),
    ensures
        provided_token(before + seq![line] + rest) == last_word(line),
        provided_token(before) == Seq::<char>::empty(),
    decreases before.len(),
{
    let all = before + seq![line] + rest;
    if before.len() > 0 {
        assert forall|i: int| 0 <= i < before.drop_first().len() implies !is_auth_line(
            #[trigger] before.drop_first()[i],
        ) by {
            assert(before.drop_first()[i] == before[i + 1]);
        }
        law_the_first_credentials_count(before.drop_first(), line, rest);
        assert(all.drop_first() =~= before.drop_first() + seq![line] + rest);
        assert(all.first() == before[0]);
        assert(before.first() == before[0]);
    } else {
        assert(all.first() == line);
    }
}

/// Where no token is missing, a request for the metrics gets all of them, one for the health gets
/// the uptime and the sessions, and any other is not found.
pub proof fn law_requests_get_what_they_ask_for(request: Seq<char>, m: RelayMetrics, uptime: u64)
    ensures
        ({
            let a = answer(request, None, m, uptime);
            let metrics = contains_text(request, "GET /metrics"@);
            let health = contains_text(request, "GET /health"@);
            &&& metrics ==> a == response_text(
                "200 OK"@,
                "text/plain; version=0.0.4"@,
                m.prometheus_text(uptime),
            )
            &&& health && !metrics ==> a == response_text(
                "200 OK"@,
                "text/plain"@,
                "OK\nUptime: "@ + decimal(uptime as nat) + "s\nSessions: "@ + decimal(
                    m.sessions_active as nat,
                ) + "\n"@,
            )
            &&& !health && !metrics ==> starts_with(a, "HTTP/1.1 404 Not Found"@)
        }),
{
    let a = answer(request, None, m, uptime);
    reveal_strlit("HTTP/1.1 ");
    reveal_strlit("404 Not Found");
    reveal_strlit("HTTP/1.1 404 Not Found");
    assert("HTTP/1.1 "@ + "404 Not Found"@ =~= "HTTP/1.1 404 Not Found"@);
    if !contains_text(request, "GET /metrics"@) && !contains_text(request, "GET /health"@) {
        assert(a.take(22) =~= "HTTP/1.1 404 Not Found"@);
    }
}

/// The answer carries its body at the end, and says how many bytes it has.
pub proof fn law_answers_carry_their_body(status: Seq<char>, kind: Seq<char>, body: Seq<char>)
    ensures
        ({
            let r = response_text(status, kind, body);
            let head = "HTTP/1.1 "@ + status + "\r\nContent-Type: "@ + kind
                + "\r\nContent-Length: "@ + decimal(encode_utf8(body).len())
                + "\r\nConnection: close\r\n\r\n"@;
            r == head + body
        }),
{
}

} // verus!
