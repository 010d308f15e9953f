//! The decisions made for one proxied request, from its arrival to the reply
//! sent back, and the connection ids that tag its log lines.
use vstd::prelude::*;
use vstd::string::{StrSliceExecFns, StringExecFns};
use vstd::utf8::encode_utf8;
use crate::config::Config;
use crate::diagnostics::{Header, describe, describes, header_models, header_summary, summarize_headers};
use crate::forward::{
    ClientResponse, Method, OutboundRequest, build_response, forwarded_headers, kept, status_valid,
};
use crate::resolver::{resolution, resolve};
use crate::text::push_char;

verus! {

/// The id that follows `n`, wrapping at the top of the range.
pub open spec fn id_after(n: usize) -> usize {
    if n == usize::MAX {
        0
    } else {
        (n + 1) as usize
    }
}

/// The id handed to the `k`-th request of a fresh counter.
pub open spec fn kth_id(k: nat) -> usize
    decreases k,
{
    if k == 0 {
        0
    } else {
        id_after(kth_id((k - 1) as nat))
    }
}

/// Hands out connection ids: 1, 2, 3, ... one per request.
#[derive(Debug)]
pub struct ConnectionCounter {
    pub last: usize,
}

impl ConnectionCounter {
    pub fn new() -> (r: ConnectionCounter)
        ensures
            r.last == 0,
    {
        ConnectionCounter { last: 0 }
    }

    /// The id of the next request.
    pub fn next_id(&mut self) -> (r: usize)
        ensures
            r == id_after(old(self).last),
            final(self).last == r,
    {
        self.last = self.last.wrapping_add(1);
        self.last
    }
}

/// From a fresh counter the `k`-th request gets id `k`, exactly one more
/// than the request before it.
pub proof fn lemma_ids_count_up(k: nat)
    requires
        1 <= k <= usize::MAX,
    ensures
        kth_id(k) == k,
        kth_id(k) == kth_id((k - 1) as nat) + 1,
    decreases k,
{
    if k > 1 {
        lemma_ids_count_up((k - 1) as nat);
    } else {
        assert(kth_id(0) == 0);
    }
}

/// Of two requests from a fresh counter, the later one has the larger id,
/// so no id is handed out twice before the counter wraps.
pub proof fn lemma_ids_distinct(i: nat, j: nat)
    requires
        1 <= i < j <= usize::MAX,
    ensures
        kth_id(i) < kth_id(j),
{
    lemma_ids_count_up(i);
    lemma_ids_count_up(j);
}

pub open spec fn digit_char(d: nat) -> char {
    ((48 + d) as u8) as char
}

/// `n` in decimal.
pub open spec fn decimal(n: nat) -> Seq<char>
    decreases n,
{
    if n < 10 {
        seq![digit_char(n)]
    } else {
        decimal(n / 10).push(digit_char(n % 10))
    }
}

fn push_decimal(out: &mut String, n: usize)
    ensures
        final(out)@ == old(out)@ + decimal(n as nat),
    decreases n,
{
    if n >= 10 {
        push_decimal(out, n / 10);
    }
    let d: u8 = (n % 10) as u8;
    push_char(out, (48 + d) as char);
    assert(final(out)@ =~= old(out)@ + decimal(n as nat));
}

/// The log entry of a request that was not proxied.
pub open spec fn failure_log(
    id: nat,
    method: Seq<char>,
    path: Seq<char>,
    headers: Seq<char>,
    data: Seq<char>,
    reason: Seq<char>,
) -> Seq<char> {
    "[N/A] Request "@ + decimal(id) + "\n\n-> "@ + method + " "@ + path
        + "\n----------------------------------------\nRequest headers: "@ + headers
        + "\n----------------------------------------\nRequest data: "@ + data
        + "\n========================================\n"@ + reason + "\n"@
}

/// What the logs say of an inbound request.
#[derive(Clone, Debug)]
pub struct RequestRecord {
    pub id: usize,
    pub method: String,
    /// The path as forwarded, with its leading `/`.
    pub path: String,
    /// The sorted header summary.
    pub headers: String,
    /// The body's description.
    pub data: String,
}

impl RequestRecord {
    pub open spec fn failure_text(&self, reason: Seq<char>) -> Seq<char> {
        failure_log(self.id as nat, self.method@, self.path@, self.headers@, self.data@, reason)
    }
}

fn failure_text_of(record: &RequestRecord, reason: &str) -> (r: String)
    ensures
        r@ == record.failure_text(reason@),
{
    let mut r = String::from_str("[N/A] Request ");
    push_decimal(&mut r, record.id);
    r.append("\n\n-> ");
    r.append(record.method.as_str());
    r.append(" ");
    r.append(record.path.as_str());
    r.append("\n----------------------------------------\nRequest headers: ");
    r.append(record.headers.as_str());
    r.append("\n----------------------------------------\nRequest data: ");
    r.append(record.data.as_str());
    r.append("\n========================================\n");
    r.append(reason);
    r.append("\n");
    r
}

/// A request as the listener hands it over.
#[derive(Clone, Debug)]
pub struct Inbound {
    pub method: Method,
    /// The request path without its leading `/`.
    pub path: String,
    pub headers: Vec<Header>,
    pub body: Vec<u8>,
}

/// A reply sent back without reaching an upstream, or after failing to, and
/// the ERROR entry logged for it.
#[derive(Clone, Debug)]
pub struct Rejection {
    pub response: ClientResponse,
    pub record: RequestRecord,
    pub log: String,
}

/// A request on its way to an upstream.
#[derive(Clone, Debug)]
pub struct Forwarding {
    pub upstream: String,
    pub request: OutboundRequest,
    pub record: RequestRecord,
}

/// What to do with an inbound request.
#[derive(Clone, Debug)]
pub enum Decision {
    Forward(Forwarding),
    Reject(Rejection),
}

/// What came back from the upstream.
#[derive(Clone, Debug)]
pub struct UpstreamReply {
    pub status: u16,
    pub url: String,
    pub headers: Vec<Header>,
    pub body: Vec<u8>,
}

/// The upstream's reply, or the transport's error text.
#[derive(Clone, Debug)]
pub enum UpstreamOutcome {
    Reply(UpstreamReply),
    Failed(String),
}

/// Everything the INFO entry of a proxied request reports.
#[derive(Clone, Debug)]
pub struct Exchange {
    pub upstream: String,
    pub record: RequestRecord,
    pub url: String,
    pub status: u16,
    pub response_url: String,
    pub response_headers: String,
    pub response_data: String,
}

/// How a forwarded request ends.
#[derive(Clone, Debug)]
pub enum Completion {
    Served { response: ClientResponse, exchange: Exchange },
    Failed(Rejection),
}

/// The base URL of the upstream a path resolves to, if one can be chosen.
pub open spec fn target_of(path: Seq<char>, c: Config) -> Option<Seq<char>> {
    match resolution(path, c).0 {
        Some(n) => c.base_url_of(n),
        None => None,
    }
}

pub open spec fn not_supported_text(method: Seq<char>) -> Seq<char> {
    "Method "@ + method + " is not supported"@
}

fn rejection(record: RequestRecord, status: u16, reason: &str) -> (r: Rejection)
    ensures
        r.record == record,
        r.response.status == status,
        r.response.headers@.len() == 0,
        r.response.body@ == encode_utf8(reason@),
        r.log@ == record.failure_text(reason@),
{
    Rejection {
        response: ClientResponse { status, headers: Vec::new(), body: reason.as_bytes_vec() },
        log: failure_text_of(&record, reason),
        record,
    }
}

/// Resolves, describes and checks an inbound request: rejects it with 404
/// when no upstream can be chosen, with 500 when its method is not proxied,
/// and otherwise says what to send to which upstream.
pub fn on_request(config: &Config, id: usize, req: Inbound) -> (r: Decision)
    requires
        config.upstreams@.len() > 0,
    ensures
        ({
            let (name, path) = resolution(req.path@, *config);
            let target = target_of(req.path@, *config);
            &&& !req.method.supported() ==> r is Reject && (target is Some
                ==> r->Reject_0.response.status == 500)
            &&& match r {
                Decision::Reject(rej) => {
                    &&& rej.response.headers@.len() == 0
                    &&& {
                            let rec = rej.record;
                            &&& rec.id == id
                            &&& rec.method@ == req.method.name_text()
                            &&& rec.path@ == path
                            &&& rec.headers@ == header_summary(header_models(req.headers@))
                            &&& describes(req.body@, rec.data@)
                            &&& if target is None {
                                &&& rej.response.status == 404
                                &&& rej.response.body@ == encode_utf8("Upstream not found"@)
                                &&& rej.log@ == rec.failure_text("Upstream not found"@)
                            } else {
                                &&& !req.method.supported()
                                &&& rej.response.status == 500
                                &&& rej.response.body@ == encode_utf8(
                                    not_supported_text(req.method.name_text()),
                                )
                                &&& rej.log@ == rec.failure_text(
                                    not_supported_text(req.method.name_text()),
                                )
                            }
                        }
                },
                Decision::Forward(f) => {
                    &&& target is Some
                    &&& req.method.supported()
                    &&& f.upstream@ == name->Some_0
                    &&& f.request.url@ == target->Some_0 + path
                    &&& f.request.method == req.method
                    &&& header_models(f.request.headers@) == kept(header_models(req.headers@), true)
                    &&& f.request.body@ == req.body@
                    &&& f.record.id == id
                    &&& f.record.method@ == req.method.name_text()
                    &&& f.record.path@ == path
                    &&& f.record.headers@ == header_summary(header_models(req.headers@))
                    &&& describes(req.body@, f.record.data@)
                },
            }
        }),
{
    let headers = summarize_headers(&req.headers);
    let data = describe(req.body.as_slice());
    let (name, path) = resolve(req.path.as_str(), config);
    let record = RequestRecord { id, method: req.method.name(), path, headers, data };
    let base = match &name {
        Some(n) => config.base_url(n),
        None => None,
    };
    match (name, base) {
        (Some(name), Some(base)) => {
            if !req.method.is_supported() {
                let mut reason = String::from_str("Method ");
                reason.append(record.method.as_str());
                reason.append(" is not supported");
                assert(reason@ == not_supported_text(req.method.name_text()));
                assert(resolution(req.path@, *config).0 == Some(name@));
                assert(target_of(req.path@, *config) == Some(base@));
                let rej = rejection(record, 500, reason.as_str());
                return Decision::Reject(rej);
            }
            let mut url = base;
            url.append(record.path.as_str());
            let request = OutboundRequest {
                method: req.method,
                url,
                headers: forwarded_headers(&req.headers),
                body: req.body,
            };
            Decision::Forward(Forwarding { upstream: name, request, record })
        },
        _ => Decision::Reject(rejection(record, 404, "Upstream not found")),
    }
}

/// Turns the upstream's outcome into the caller's reply: the reply rebuilt
/// with what the INFO entry reports, or an empty 500 and an ERROR entry with
/// the transport's error text.
pub fn on_upstream_outcome(pending: Forwarding, outcome: UpstreamOutcome) -> (r: Completion)
    ensures
        match outcome {
            UpstreamOutcome::Failed(e) => {
                &&& r is Failed
                &&& r->Failed_0.response.status == 500
                &&& r->Failed_0.response.headers@.len() == 0
                &&& r->Failed_0.response.body@.len() == 0
                &&& r->Failed_0.record == pending.record
                &&& r->Failed_0.log@ == pending.record.failure_text(
                    "Error proxying to upstream: "@ + e@,
                )
            },
            UpstreamOutcome::Reply(rep) => {
                &&& r is Served
                &&& r->response.status == if status_valid(rep.status) {
                    rep.status
                } else {
                    500
                }
                &&& header_models(r->response.headers@) == kept(header_models(rep.headers@), false)
                &&& r->response.body@ == rep.body@
                &&& r->exchange.upstream == pending.upstream
                &&& r->exchange.record == pending.record
                &&& r->exchange.url == pending.request.url
                &&& r->exchange.status == rep.status
                &&& r->exchange.response_url == rep.url
                &&& r->exchange.response_headers@ == header_summary(header_models(rep.headers@))
                &&& describes(rep.body@, r->exchange.response_data@)
            },
        },
{
    match outcome {
        UpstreamOutcome::Failed(e) => {
            let mut reason = String::from_str("Error proxying to upstream: ");
            reason.append(e.as_str());
            let log = failure_text_of(&pending.record, reason.as_str());
            Completion::Failed(
                Rejection {
                    response: ClientResponse { status: 500, headers: Vec::new(), body: Vec::new() },
                    record: pending.record,
                    log,
                },
            )
        },
        UpstreamOutcome::Reply(rep) => {
            let response_headers = summarize_headers(&rep.headers);
            let response_data = describe(rep.body.as_slice());
            let response = build_response(rep.status, &rep.headers, rep.body);
            let exchange = Exchange {
                upstream: pending.upstream,
                record: pending.record,
                url: pending.request.url,
                status: rep.status,
                response_url: rep.url,
                response_headers,
                response_data,
            };
            Completion::Served { response, exchange }
        },
    }
}

} // verus!
