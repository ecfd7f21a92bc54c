//! Per-connection decisions of the gateway: which protocol a connection
//! speaks, what a probe or a tunnel request is answered, and what is written
//! to the audit chain for it.

use crate::audit::{
    AuditChainWriter, AuditEntry, AuditError, AuditEvent, EntryView, EventView, HeadView,
};
use crate::auth::AuthMode;
use crate::masque::{
    datagram_bytes, datagram_decoded, lemma_datagram_roundtrip, HttpDatagram,
    CONNECT_UDP_CONTEXT_ID,
};
use crate::policy::{deny_reason, Decision, IpAddress, Policy, Target};
use crate::rate::{duration_nanos, TokenBucket};
use crate::text::{starts_with, strip_prefix, text_eq, trimmed, utf8_text};
use std::time::Duration;
use vstd::prelude::*;
use vstd::utf8::{decode_utf8, valid_utf8};

verus! {

/// What a connection is served as.
#[derive(Debug, Clone, Copy, PartialEq, Eq, Structural)]
pub enum ConnectionKind {
    /// The peer negotiated HTTP/3: tunnel requests are served.
    HttpTunnel,
    /// Anything else: liveness probes are served.
    RawProbe,
}

/// The protocol identifier of HTTP/3, "h3".
pub open spec fn h3_identifier() -> Seq<u8> {
    seq![0x68u8, 0x33u8]
}

/// Classifies a connection by the application protocol that the transport
/// negotiated, if any.
pub fn classify(negotiated: Option<&[u8]>) -> (kind: ConnectionKind)
    ensures
        kind == if negotiated matches Some(protocol) && protocol@ == h3_identifier() {
            ConnectionKind::HttpTunnel
        } else {
            ConnectionKind::RawProbe
        },
{
    match negotiated {
        Some(protocol) => {
            if protocol.len() == 2 && protocol[0] == 0x68 && protocol[1] == 0x33 {
                assert(protocol@ =~= h3_identifier());
                ConnectionKind::HttpTunnel
            } else {
                ConnectionKind::RawProbe
            }
        },
        None => ConnectionKind::RawProbe,
    }
}

/// The bytes of "ping".
pub open spec fn ping_word() -> Seq<u8> {
    seq![0x70u8, 0x69u8, 0x6eu8, 0x67u8]
}

/// The bytes of "ping " with the blank that precedes a token.
pub open spec fn ping_prefix() -> Seq<u8> {
    seq![0x70u8, 0x69u8, 0x6eu8, 0x67u8, 0x20u8]
}

/// What a probe message asks.
#[derive(Debug, Clone, PartialEq, Eq)]
pub enum Probe {
    /// Not a ping: the stream is closed without an answer.
    Other,
    /// A ping, with the token it presents, if any.
    Ping { token: Option<String> },
}

/// What a probe message presents as its token: the text after "ping ",
/// without the white space around it, where there is such text.
pub open spec fn probe_token(data: Seq<u8>) -> Option<Seq<char>> {
    if ping_prefix().is_prefix_of(data) && valid_utf8(data.skip(5)) {
        Some(trimmed(decode_utf8(data.skip(5))))
    } else {
        None
    }
}

/// Reads a probe message: a ping is whatever begins with "ping".
pub fn parse_probe(data: &[u8]) -> (probe: Probe)
    ensures
        match probe {
            Probe::Other => !ping_word().is_prefix_of(data@),
            Probe::Ping { token } => ping_word().is_prefix_of(data@) && crate::audit::text_of(token)
                == probe_token(data@),
        },
{
    let word: [u8; 4] = [0x70, 0x69, 0x6e, 0x67];
    let prefix: [u8; 5] = [0x70, 0x69, 0x6e, 0x67, 0x20];
    assert(word@ =~= ping_word());
    assert(prefix@ =~= ping_prefix());
    if !starts_with(data, word.as_slice()) {
        return Probe::Other;
    }
    if !starts_with(data, prefix.as_slice()) {
        return Probe::Ping { token: None };
    }
    let rest = vstd::slice::slice_subrange(data, 5, data.len());
    assert(rest@ =~= data@.skip(5));
    match utf8_text(rest) {
        Some(text) => {
            proof {
                vstd::utf8::encode_utf8_decode_utf8(text@);
            }
            Probe::Ping { token: Some(text.trim().to_owned()) }
        },
        None => Probe::Ping { token: None },
    }
}

/// What a probe is answered.
#[derive(Debug, Clone, Copy, PartialEq, Eq, Structural)]
pub enum ProbeReply {
    /// Nothing: the stream is closed.
    Silent,
    /// The token "pong".
    Pong,
    /// The token "unauthorized".
    Unauthorized,
}

impl ProbeReply {
    /// The bytes of the answer.
    pub open spec fn wire(self) -> Seq<char> {
        match self {
            ProbeReply::Silent => Seq::empty(),
            ProbeReply::Pong => "pong"@,
            ProbeReply::Unauthorized => "unauthorized"@,
        }
    }

    /// The answer as it is written to the stream.
    pub fn as_str(&self) -> (text: &'static str)
        ensures
            text@ == self.wire(),
    {
        proof {
            reveal_strlit("");
        }
        match self {
            ProbeReply::Silent => {
                assert(""@ =~= Seq::<char>::empty());
                ""
            },
            ProbeReply::Pong => "pong",
            ProbeReply::Unauthorized => "unauthorized",
        }
    }
}

/// The answer to a probe, given what the credential check said of its
/// token: a ping is answered "pong" when authorized and "unauthorized" when
/// not; anything else is not answered.
pub fn probe_reply(probe: &Probe, verdict: &Result<(), String>) -> (reply: ProbeReply)
    ensures
        reply == match probe {
            Probe::Other => ProbeReply::Silent,
            Probe::Ping { .. } => if verdict is Ok {
                ProbeReply::Pong
            } else {
                ProbeReply::Unauthorized
            },
        },
{
    match probe {
        Probe::Other => ProbeReply::Silent,
        Probe::Ping { .. } => match verdict {
            Ok(()) => ProbeReply::Pong,
            Err(_) => ProbeReply::Unauthorized,
        },
    }
}

/// The token that an authorization header presents: the value without a
/// leading "Bearer ", and without the white space around what is left.
pub open spec fn bearer_text(header: Seq<char>) -> Seq<char> {
    if "Bearer "@.is_prefix_of(header) {
        trimmed(header.skip("Bearer "@.len() as int))
    } else {
        trimmed(header)
    }
}

/// Takes the token out of the value of an authorization header.
pub fn bearer_token(header: &str) -> (token: &str)
    ensures
        token@ == bearer_text(header@),
{
    match strip_prefix(header, "Bearer ") {
        Some(rest) => {
            assert(header@.skip("Bearer "@.len() as int) =~= rest@);
            assert(header@.subrange(0, "Bearer "@.len() as int) =~= "Bearer "@);
            rest.trim()
        },
        None => header.trim(),
    }
}

/// Where the first slash stands in `text`; its length where there is none.
pub open spec fn first_slash(text: Seq<char>) -> int
    decreases text.len(),
{
    if text.len() == 0 || text[0] == '/' {
        0
    } else {
        1 + first_slash(text.drop_first())
    }
}

/// The number that decimal digits spell.
pub open spec fn decimal_value(digits: Seq<char>) -> nat
    decreases digits.len(),
{
    if digits.len() == 0 {
        0
    } else {
        decimal_value(digits.drop_last()) * 10 + (digits.last() as nat - '0' as nat) as nat
    }
}

/// Whether `text` holds decimal digits only.
pub open spec fn all_digits(text: Seq<char>) -> bool {
    forall|i: int| 0 <= i < text.len() ==> '0' <= #[trigger] text[i] <= '9'
}

/// The port that a text names: one to five decimal digits that spell a
/// number of 16 bits.
pub open spec fn port_value(text: Seq<char>) -> Option<u16> {
    if 1 <= text.len() <= 5 && all_digits(text) && decimal_value(text) <= 0xffff {
        Some(decimal_value(text) as u16)
    } else {
        None
    }
}

/// The path under which UDP tunnels are asked for.
pub open spec fn tunnel_prefix() -> Seq<char> {
    "/.well-known/masque/udp/"@
}

/// The destination that a tunnel path names. The path has the form
/// `/.well-known/masque/udp/<host>/<port>/`, where the host is an IP address
/// and the port a decimal number.
pub open spec fn tunnel_target(path: Seq<char>) -> Option<Target> {
    let rest = path.skip(tunnel_prefix().len() as int);
    let host_len = first_slash(rest);
    let tail = rest.skip(host_len + 1);
    let port_len = first_slash(tail);
    if !tunnel_prefix().is_prefix_of(path) || !vstd::utf8::is_ascii_chars(rest) {
        None
    } else if host_len >= rest.len() || port_len + 1 != tail.len() {
        None
    } else {
        match (IpAddress::parsed(rest.take(host_len)), port_value(tail.take(port_len))) {
            (Some(ip), Some(port)) => Some(Target { ip, port }),
            _ => None,
        }
    }
}

/// Finds the first slash of an ASCII text.
fn find_slash(text: &str) -> (at: usize)
    requires
        text.is_ascii(),
    ensures
        at == first_slash(text@),
        at <= text@.len(),
{
    let len = text.unicode_len();
    let mut i: usize = 0;
    assert(text@.skip(0) =~= text@);
    while i < len
        invariant
            text.is_ascii(),
            len == text@.len(),
            i <= len,
            first_slash(text@) == i + first_slash(text@.skip(i as int)),
        decreases len - i,
    {
        assert(text@.skip(i as int).drop_first() =~= text@.skip(i as int + 1));
        if text.get_ascii(i) == 0x2f {
            assert(text@[i as int] == '/');
            return i;
        }
        assert(text@.skip(i as int)[0] != '/');
        i += 1;
    }
    i
}

/// Reads a port: one to five decimal digits, at most 65535.
fn parse_port(text: &str) -> (port: Option<u16>)
    requires
        text.is_ascii(),
    ensures
        port == port_value(text@),
{
    let len = text.unicode_len();
    if len < 1 || len > 5 {
        return None;
    }
    let mut value: u32 = 0;
    let mut i: usize = 0;
    while i < len
        invariant
            text.is_ascii(),
            len == text@.len(),
            i <= len <= 5,
            all_digits(text@.take(i as int)),
            value == decimal_value(text@.take(i as int)),
            value < 100_000,
            i < 5 ==> value < 10_000,
            i < 4 ==> value < 1_000,
            i < 3 ==> value < 100,
            i < 2 ==> value < 10,
            i < 1 ==> value < 1,
        decreases len - i,
    {
        let b = text.get_ascii(i);
        if b < 0x30 || b > 0x39 {
            assert(!('0' <= text@[i as int] <= '9'));
            return None;
        }
        assert(text@.take(i as int + 1).drop_last() =~= text@.take(i as int));
        assert(text@.take(i as int + 1).last() == text@[i as int]);
        value = value * 10 + (b - 0x30) as u32;
        i += 1;
    }
    assert(text@.take(i as int) =~= text@);
    if value <= 0xffff {
        Some(value as u16)
    } else {
        None
    }
}

/// Reads the destination out of a tunnel path.
pub fn parse_tunnel_path(path: &str) -> (target: Option<Target>)
    ensures
        target == tunnel_target(path@),
{
    let rest = match strip_prefix(path, "/.well-known/masque/udp/") {
        Some(rest) => rest,
        None => {
            return None;
        },
    };
    proof {
        assert(path@.subrange(0, tunnel_prefix().len() as int) =~= tunnel_prefix());
        assert(path@.skip(tunnel_prefix().len() as int) =~= rest@);
    }
    if !rest.is_ascii() {
        return None;
    }
    let rest_len = rest.unicode_len();
    let host_len = find_slash(rest);
    if host_len >= rest_len {
        return None;
    }
    let host = rest.substring_ascii(0, host_len);
    let tail = rest.substring_ascii(host_len + 1, rest_len);
    proof {
        assert(host@ =~= rest@.take(host_len as int));
        assert(tail@ =~= rest@.skip(host_len as int + 1));
    }
    let tail_len = tail.unicode_len();
    let port_len = find_slash(tail);
    if port_len >= tail_len || port_len + 1 != tail_len {
        return None;
    }
    let port_text = tail.substring_ascii(0, port_len);
    assert(port_text@ =~= tail@.take(port_len as int));
    match (IpAddress::parse(host), parse_port(port_text)) {
        (Some(ip), Some(port)) => Some(Target { ip, port }),
        _ => None,
    }
}

/// A tunnel request as the transport hands it over.
#[derive(Debug, Clone, PartialEq, Eq)]
pub struct TunnelRequest {
    /// The request method.
    pub method: String,
    /// The protocol that an extended CONNECT names, if any.
    pub protocol: Option<String>,
    /// The value of the authorization header, if there is one.
    pub authorization: Option<String>,
    /// The request path.
    pub path: String,
    /// Who the credential stands for, where the transport knows.
    pub identity: Option<String>,
}

/// A tunnel request as plain values.
pub struct RequestView {
    pub method: Seq<char>,
    pub protocol: Option<Seq<char>>,
    pub authorization: Option<Seq<char>>,
    pub path: Seq<char>,
    pub identity: Option<Seq<char>>,
}

impl View for TunnelRequest {
    type V = RequestView;

    open spec fn view(&self) -> RequestView {
        RequestView {
            method: self.method@,
            protocol: crate::audit::text_of(self.protocol),
            authorization: crate::audit::text_of(self.authorization),
            path: self.path@,
            identity: crate::audit::text_of(self.identity),
        }
    }
}

/// What a request is answered.
#[derive(Debug, Clone, Copy, PartialEq, Eq, Structural)]
pub enum Response {
    /// Not a tunnel request.
    NotFound,
    /// The credential was refused.
    Unauthorized,
    /// The path names no destination.
    BadRequest,
    /// The rate limit of the identity is used up.
    TooManyRequests,
    /// The policy does not allow the destination.
    Forbidden,
    /// The tunnel is open.
    Accepted,
}

impl Response {
    /// The HTTP status that stands for the answer.
    pub open spec fn spec_status(self) -> u16 {
        match self {
            Response::NotFound => 404,
            Response::Unauthorized => 401,
            Response::BadRequest => 400,
            Response::TooManyRequests => 429,
            Response::Forbidden => 403,
            Response::Accepted => 200,
        }
    }

    /// The HTTP status that stands for the answer.
    pub fn status(&self) -> (code: u16)
        ensures
            code == self.spec_status(),
    {
        match self {
            Response::NotFound => 404,
            Response::Unauthorized => 401,
            Response::BadRequest => 400,
            Response::TooManyRequests => 429,
            Response::Forbidden => 403,
            Response::Accepted => 200,
        }
    }
}

/// The outcome of a request: the answer, the event to audit, and the
/// destination to relay to once the tunnel is open.
#[derive(Debug, Clone, PartialEq, Eq)]
pub struct Admission {
    pub response: Response,
    pub event: Option<AuditEvent>,
    pub relay: Option<Target>,
}

/// An outcome as plain values.
pub struct AdmissionView {
    pub response: Response,
    pub event: Option<EventView>,
    pub relay: Option<Target>,
}

impl View for Admission {
    type V = AdmissionView;

    open spec fn view(&self) -> AdmissionView {
        AdmissionView {
            response: self.response,
            event: match self.event {
                Some(event) => Some(event@),
                None => None,
            },
            relay: self.relay,
        }
    }
}

/// The rate limit of one identity: none, or a bucket of its own.
#[derive(Debug)]
pub enum RateLimit {
    Unlimited,
    Limited(TokenBucket),
}

impl RateLimit {
    /// Whether one more request is admitted at time `now`.
    pub open spec fn admits(self, now: nat) -> bool {
        match self {
            RateLimit::Unlimited => true,
            RateLimit::Limited(bucket) => bucket@.admits(1, now),
        }
    }

    /// Whether `after` is this limit once it has been asked at time `now`.
    pub open spec fn asked(self, now: nat, after: RateLimit) -> bool {
        match (self, after) {
            (RateLimit::Unlimited, RateLimit::Unlimited) => true,
            (RateLimit::Limited(before), RateLimit::Limited(bucket)) => bucket@ == before@.taken(
                1,
                now,
            ),
            _ => false,
        }
    }

    /// Whether `after` holds what this limit holds.
    pub open spec fn same(self, after: RateLimit) -> bool {
        match (self, after) {
            (RateLimit::Unlimited, RateLimit::Unlimited) => true,
            (RateLimit::Limited(before), RateLimit::Limited(bucket)) => bucket@ == before@,
            _ => false,
        }
    }

    /// Asks for one request at time `now`.
    pub fn take_slot(&mut self, now: Duration) -> (admitted: bool)
        ensures
            admitted == old(self).admits(duration_nanos(now)),
            old(self).asked(duration_nanos(now), *final(self)),
    {
        match self {
            RateLimit::Unlimited => true,
            RateLimit::Limited(bucket) => bucket.try_take(1, now),
        }
    }
}

impl RequestView {
    /// Whether the request asks for a UDP tunnel: an extended CONNECT that
    /// names the protocol "connect-udp".
    pub open spec fn is_tunnel_request(self) -> bool {
        self.method == "CONNECT"@ && self.protocol == Some("connect-udp"@)
    }

    /// The token that the request presents, if any.
    pub open spec fn token(self) -> Option<Seq<char>> {
        match self.authorization {
            Some(header) => Some(bearer_text(header)),
            None => None,
        }
    }

    /// Who is named in the audit: the identity, or "unknown".
    pub open spec fn actor(self) -> Seq<char> {
        match self.identity {
            Some(identity) => identity,
            None => "unknown"@,
        }
    }

    /// The destination as named in the audit: its text where the path names
    /// one, else the path as it came.
    pub open spec fn target_text(self) -> Seq<char> {
        match tunnel_target(self.path) {
            Some(target) => target.text(),
            None => self.path,
        }
    }

    /// The event that records the request's outcome.
    pub open spec fn event(self, allowed: bool, reason: Option<Seq<char>>) -> EventView {
        EventView {
            actor: self.actor(),
            action: "connect"@,
            target: self.target_text(),
            allowed,
            reason,
        }
    }

    /// A refusal with its answer and its reason.
    pub open spec fn refused(self, response: Response, reason: Seq<char>) -> AdmissionView {
        AdmissionView { response, event: Some(self.event(false, Some(reason))), relay: None }
    }
}

/// Whether the rate limit is reached in deciding on a request: the request
/// asks for a tunnel, its credential holds, and its path names a destination.
pub open spec fn reaches_limit(request: RequestView, verdict: Result<(), Seq<char>>) -> bool {
    request.is_tunnel_request() && verdict is Ok && tunnel_target(request.path) is Some
}

/// The outcome of a request, given the verdict on its credential and what
/// the rate limit says. In order: a request that asks for no tunnel is not
/// found and not audited; a refused credential, a path without destination,
/// a used-up rate limit and a destination outside the policy are refused and
/// audited with the reason; what is left is accepted and audited as allowed.
pub open spec fn admission(
    request: RequestView,
    verdict: Result<(), Seq<char>>,
    within_limit: bool,
    policy: Policy,
) -> AdmissionView {
    if !request.is_tunnel_request() {
        AdmissionView { response: Response::NotFound, event: None, relay: None }
    } else if verdict is Err {
        request.refused(Response::Unauthorized, verdict->Err_0)
    } else {
        match tunnel_target(request.path) {
            None => request.refused(Response::BadRequest, "invalid tunnel target"@),
            Some(target) => if !within_limit {
                request.refused(Response::TooManyRequests, "rate limit exceeded"@)
            } else if !policy.allows(target) {
                request.refused(Response::Forbidden, deny_reason(target))
            } else {
                AdmissionView {
                    response: Response::Accepted,
                    event: Some(request.event(true, None)),
                    relay: Some(target),
                }
            },
        }
    }
}

/// The text of a verdict's reason.
pub open spec fn verdict_view(verdict: Result<(), String>) -> Result<(), Seq<char>> {
    match verdict {
        Ok(()) => Ok(()),
        Err(reason) => Err(reason@),
    }
}

fn clone_text(text: &Option<String>) -> (copy: Option<String>)
    ensures
        crate::audit::text_of(copy) == crate::audit::text_of(*text),
{
    match text {
        Some(inner) => Some(inner.clone()),
        None => None,
    }
}

/// The event that records a request's outcome.
fn request_event(
    request: &TunnelRequest,
    target: &Option<Target>,
    allowed: bool,
    reason: Option<String>,
) -> (event: AuditEvent)
    requires
        *target == tunnel_target(request@.path),
    ensures
        event@ == request@.event(allowed, crate::audit::text_of(reason)),
{
    let actor = match &request.identity {
        Some(identity) => identity.clone(),
        None => "unknown".to_owned(),
    };
    let target_text = match target {
        Some(target) => target.to_text(),
        None => request.path.clone(),
    };
    AuditEvent { actor, action: "connect".to_owned(), target: target_text, allowed, reason }
}

/// What an authenticated, authorized client may reach, and how clients
/// authenticate. Read-only once built, and so shared freely.
#[derive(Debug, Clone)]
pub struct TunnelSession {
    pub auth: AuthMode,
    pub policy: Policy,
}

impl TunnelSession {
    /// Decides on a request whose credential has been checked: `verdict` is
    /// what the check said. The rate limit is asked, and debited, only when
    /// the decision gets as far as it.
    pub fn decide(
        &self,
        request: &TunnelRequest,
        verdict: Result<(), String>,
        limit: &mut RateLimit,
        now: Duration,
    ) -> (outcome: Admission)
        ensures
            outcome@ == admission(
                request@,
                verdict_view(verdict),
                old(limit).admits(duration_nanos(now)),
                self.policy,
            ),
            if reaches_limit(request@, verdict_view(verdict)) {
                old(limit).asked(duration_nanos(now), *final(limit))
            } else {
                old(limit).same(*final(limit))
            },
    {
        let is_tunnel = text_eq(request.method.as_str(), "CONNECT") && match &request.protocol {
            Some(protocol) => text_eq(protocol.as_str(), "connect-udp"),
            None => false,
        };
        if !is_tunnel {
            return Admission { response: Response::NotFound, event: None, relay: None };
        }
        let target = parse_tunnel_path(request.path.as_str());
        match verdict {
            Err(reason) => {
                return Admission {
                    response: Response::Unauthorized,
                    event: Some(request_event(request, &target, false, Some(reason))),
                    relay: None,
                };
            },
            Ok(()) => {},
        }
        let destination = match target {
            Some(destination) => destination,
            None => {
                return Admission {
                    response: Response::BadRequest,
                    event: Some(
                        request_event(
                            request,
                            &target,
                            false,
                            Some("invalid tunnel target".to_owned()),
                        ),
                    ),
                    relay: None,
                };
            },
        };
        if !limit.take_slot(now) {
            return Admission {
                response: Response::TooManyRequests,
                event: Some(
                    request_event(request, &target, false, Some("rate limit exceeded".to_owned())),
                ),
                relay: None,
            };
        }
        match self.policy.evaluate(&destination) {
            Decision::Allow => Admission {
                response: Response::Accepted,
                event: Some(request_event(request, &target, true, None)),
                relay: Some(destination),
            },
            Decision::Deny { reason } => Admission {
                response: Response::Forbidden,
                event: Some(request_event(request, &target, false, Some(reason))),
                relay: None,
            },
        }
    }

    /// Serves one request: checks the credential that it presents and
    /// decides on it. Where the mode decides on the credential by itself,
    /// the outcome is fixed; where the token library decides, the outcome is
    /// what follows from one of its verdicts.
    pub fn serve(&self, request: &TunnelRequest, limit: &mut RateLimit, now: Duration) -> (outcome:
        Admission)
        ensures
            exists|verdict: Result<(), Seq<char>>|
                {
                    &&& self.auth.decided(request@.token()) matches Some(decided) ==> verdict
                        == decided
                    &&& #[trigger] admission(
                        request@,
                        verdict,
                        old(limit).admits(duration_nanos(now)),
                        self.policy,
                    ) == outcome@
                    &&& if reaches_limit(request@, verdict) {
                        old(limit).asked(duration_nanos(now), *final(limit))
                    } else {
                        old(limit).same(*final(limit))
                    }
                },
    {
        let verdict = match &request.authorization {
            Some(header) => self.auth.validate(Some(bearer_token(header.as_str()))),
            None => self.auth.validate(None),
        };
        let ghost seen = verdict_view(verdict);
        let outcome = self.decide(request, verdict, limit, now);
        assert(admission(request@, seen, old(limit).admits(duration_nanos(now)), self.policy)
            == outcome@);
        outcome
    }
}

/// The outcome of a probe: the answer, and the event to audit.
#[derive(Debug, Clone, PartialEq, Eq)]
pub struct ProbeOutcome {
    pub reply: ProbeReply,
    pub event: Option<AuditEvent>,
}

/// The event that records a ping's outcome: the same as for a tunnel
/// request, with "probe" in the place of the destination.
pub open spec fn probe_event(
    identity: Option<Seq<char>>,
    verdict: Result<(), Seq<char>>,
) -> EventView {
    EventView {
        actor: match identity {
            Some(identity) => identity,
            None => "unknown"@,
        },
        action: "connect"@,
        target: "probe"@,
        allowed: verdict is Ok,
        reason: match verdict {
            Ok(()) => None,
            Err(reason) => Some(reason),
        },
    }
}

/// Decides on a probe whose token has been checked: `verdict` is what the
/// check said. A ping is answered and audited; anything else is neither.
pub fn decide_probe(probe: &Probe, verdict: Result<(), String>, identity: Option<&str>) -> (outcome:
    ProbeOutcome)
    ensures
        outcome.reply == match probe {
            Probe::Other => ProbeReply::Silent,
            Probe::Ping { .. } => if verdict is Ok {
                ProbeReply::Pong
            } else {
                ProbeReply::Unauthorized
            },
        },
        match probe {
            Probe::Other => outcome.event is None,
            Probe::Ping { .. } => outcome.event matches Some(event) && event@ == probe_event(
                crate::audit::text_of_str(identity),
                verdict_view(verdict),
            ),
        },
{
    let reply = probe_reply(probe, &verdict);
    match probe {
        Probe::Other => ProbeOutcome { reply, event: None },
        Probe::Ping { .. } => {
            let actor = match identity {
                Some(identity) => identity.to_owned(),
                None => "unknown".to_owned(),
            };
            let (allowed, reason) = match verdict {
                Ok(()) => (true, None),
                Err(reason) => (false, Some(reason)),
            };
            ProbeOutcome {
                reply,
                event: Some(
                    AuditEvent {
                        actor,
                        action: "connect".to_owned(),
                        target: "probe".to_owned(),
                        allowed,
                        reason,
                    },
                ),
            }
        },
    }
}

impl TunnelSession {
    /// Serves one probe message: reads it, checks the token of a ping and
    /// decides on it. Where the mode decides on the token by itself, the
    /// outcome is fixed; where the token library decides, the outcome is
    /// what follows from one of its verdicts.
    pub fn serve_probe(&self, data: &[u8], identity: Option<&str>) -> (outcome: ProbeOutcome)
        ensures
            !ping_word().is_prefix_of(data@) ==> outcome.reply == ProbeReply::Silent
                && outcome.event is None,
            ping_word().is_prefix_of(data@) ==> exists|verdict: Result<(), Seq<char>>|
                {
                    &&& self.auth.decided(probe_token(data@)) matches Some(decided) ==> verdict
                        == decided
                    &&& outcome.reply == if verdict is Ok {
                        ProbeReply::Pong
                    } else {
                        ProbeReply::Unauthorized
                    }
                    &&& outcome.event matches Some(event) && event@ == #[trigger] probe_event(
                        crate::audit::text_of_str(identity),
                        verdict,
                    )
                },
    {
        let probe = parse_probe(data);
        let verdict = match &probe {
            Probe::Other => Ok(()),
            Probe::Ping { token: Some(token) } => self.auth.validate(Some(token.as_str())),
            Probe::Ping { token: None } => self.auth.validate(None),
        };
        let ghost seen = verdict_view(verdict);
        let outcome = decide_probe(&probe, verdict, identity);
        proof {
            if ping_word().is_prefix_of(data@) {
                assert(outcome.event->Some_0@ == probe_event(
                    crate::audit::text_of_str(identity),
                    seen,
                ));
            }
        }
        outcome
    }
}

/// The UDP payload that a datagram of the tunnel carries: what follows
/// context id 0. A datagram that does not decode, or that carries another
/// context id, carries none.
pub open spec fn relayed_payload(wire: Seq<u8>) -> Option<Seq<u8>> {
    match datagram_decoded(wire) {
        Ok((context_id, payload)) => if context_id == CONNECT_UDP_CONTEXT_ID {
            Some(payload)
        } else {
            None
        },
        Err(_) => None,
    }
}

/// Takes the UDP payload out of a datagram that came through the tunnel.
/// A datagram that carries none fails alone: the relay goes on.
pub fn unframe(wire: &[u8]) -> (payload: Option<Vec<u8>>)
    ensures
        match payload {
            Some(bytes) => relayed_payload(wire@) == Some(bytes@),
            None => relayed_payload(wire@) is None,
        },
{
    match HttpDatagram::decode(wire) {
        Ok(datagram) => {
            if datagram.context_id == CONNECT_UDP_CONTEXT_ID {
                Some(datagram.payload)
            } else {
                None
            }
        },
        Err(_) => None,
    }
}

/// Frames a UDP payload for the tunnel: context id 0, then the payload.
pub fn frame(payload: Vec<u8>) -> (wire: Vec<u8>)
    ensures
        wire@ == datagram_bytes(CONNECT_UDP_CONTEXT_ID, payload@),
        relayed_payload(wire@) == Some(payload@),
{
    proof {
        lemma_datagram_roundtrip(CONNECT_UDP_CONTEXT_ID, payload@);
    }
    let datagram = HttpDatagram::new(CONNECT_UDP_CONTEXT_ID, payload);
    match datagram.encode() {
        Ok(wire) => wire,
        Err(_) => Vec::new(),
    }
}

/// What the audit chain gains from an outcome at time `unix_ms`: one entry
/// for an audited outcome, nothing otherwise.
pub open spec fn audit_trail(head: HeadView, unix_ms: u64, event: Option<EventView>) -> Seq<
    EntryView,
> {
    match event {
        Some(event) => seq![head.sealed(unix_ms, event)],
        None => Seq::empty(),
    }
}

/// Writes the event of an outcome, if it has one, to the audit chain:
/// exactly one entry for an audited outcome, none otherwise. Always
/// succeeds.
pub fn record(writer: &mut AuditChainWriter, unix_ms: u64, event: Option<AuditEvent>) -> (result:
    Result<Option<AuditEntry>, AuditError>)
    ensures
        match result {
            Ok(Some(entry)) => event matches Some(audited) && audit_trail(
                old(writer)@,
                unix_ms,
                Some(audited@),
            ) == seq![entry@] && final(writer)@ == old(writer)@.after(entry@),
            Ok(None) => event is None && final(writer)@ == old(writer)@,
            Err(_) => false,
        },
{
    match event {
        Some(audited) => {
            let entry = writer.append(unix_ms, audited)?;
            Ok(Some(entry))
        },
        None => Ok(None),
    }
}

/// Whether `needle` occurs in `text`.
pub open spec fn contains_text(text: Seq<char>, needle: Seq<char>) -> bool {
    exists|at: int|
        0 <= at && at + needle.len() <= text.len() && #[trigger] text.subrange(
            at,
            at + needle.len(),
        ) == needle
}

/// A tunnel request for a destination outside the policy is denied, and
/// leaves exactly one audit entry, which says `allowed = false` and gives a
/// reason that contains "not allowed". This holds for a request that gets
/// as far as the policy: it asks for a tunnel, its credential holds, its
/// path names the destination, and its rate limit is not used up.
pub proof fn lemma_policy_denial_is_audited_once(
    request: RequestView,
    policy: Policy,
    head: HeadView,
    unix_ms: u64,
)
    requires
        request.is_tunnel_request(),
        tunnel_target(request.path) matches Some(target) && !policy.allows(target),
    ensures
        ({
            let outcome = admission(request, Ok(()), true, policy);
            let trail = audit_trail(head, unix_ms, outcome.event);
            &&& outcome.response == Response::Forbidden
            &&& outcome.relay is None
            &&& trail.len() == 1
            &&& trail[0].event.allowed == false
            &&& trail[0].event.reason matches Some(reason) && contains_text(reason, "not allowed"@)
            &&& HeadView::genesis() == head ==> crate::audit::chain_valid(trail)
        }),
{
    let target = tunnel_target(request.path)->Some_0;
    let reason = deny_reason(target);
    crate::policy::lemma_deny_reason_says_not_allowed(target);
    reveal_strlit(" not allowed");
    reveal_strlit("not allowed");
    let at = reason.len() - "not allowed"@.len();
    let tail = reason.subrange(reason.len() - " not allowed"@.len(), reason.len() as int);
    assert(tail == " not allowed"@);
    assert(reason.subrange(at, at + "not allowed"@.len()) =~= tail.subrange(1, 12));
    assert(tail.subrange(1, 12) =~= "not allowed"@);
    assert(contains_text(reason, "not allowed"@));
    let outcome = admission(request, Ok(()), true, policy);
    assert(outcome == request.refused(Response::Forbidden, reason));
    let trail = audit_trail(head, unix_ms, outcome.event);
    assert(trail.len() == 1);
    assert(trail[0].event.reason == Some(reason));
    assert(trail.drop_last() =~= Seq::<EntryView>::empty());
    assert(head.accepts(trail.last()));
    assert(crate::audit::head_after(head, trail.drop_last()) == head);
    assert(crate::audit::chain_from(head, trail.drop_last()));
    assert(crate::audit::chain_from(head, trail));
    assert(outcome.relay is None);
    assert(trail[0].event.allowed == false);
}

} // verus!
