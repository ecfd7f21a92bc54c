use std::time::Duration;
use toppy::audit::{verify_chain, AuditChainWriter, AuditEntry, AuditEvent};
use toppy::auth::AuthMode;
use toppy::policy::{IpAddress, Policy, PolicyRule, Target};
use toppy::rate::TokenBucket;
use toppy::session::{
    bearer_token, classify, decide_probe, frame, parse_probe, parse_tunnel_path, probe_reply,
    record, unframe,
    Admission, ConnectionKind, Probe, ProbeOutcome, ProbeReply, RateLimit, Response,
    TunnelRequest, TunnelSession,
};

fn session(auth: AuthMode) -> TunnelSession {
    TunnelSession {
        auth,
        policy: Policy {
            allow: vec![PolicyRule::parse("10.0.0.0/24", vec![22, 443]).unwrap()],
        },
    }
}

fn request(path: &str, authorization: Option<&str>) -> TunnelRequest {
    TunnelRequest {
        method: "CONNECT".to_string(),
        protocol: Some("connect-udp".to_string()),
        authorization: authorization.map(|a| a.to_string()),
        path: path.to_string(),
        identity: Some("alice".to_string()),
    }
}

fn denied(actor: &str, target: &str, reason: &str) -> Option<AuditEvent> {
    Some(AuditEvent {
        actor: actor.to_string(),
        action: "connect".to_string(),
        target: target.to_string(),
        allowed: false,
        reason: Some(reason.to_string()),
    })
}

#[test]
fn classify_by_negotiated_protocol() {
    assert_eq!(classify(Some(b"h3")), ConnectionKind::HttpTunnel);
    assert_eq!(classify(None), ConnectionKind::RawProbe);
    assert_eq!(classify(Some(b"")), ConnectionKind::RawProbe);
    assert_eq!(classify(Some(b"h2")), ConnectionKind::RawProbe);
    assert_eq!(classify(Some(b"h3-29")), ConnectionKind::RawProbe);
    assert_eq!(classify(Some(b"H3")), ConnectionKind::RawProbe);
}

#[test]
fn probe_messages_are_read() {
    assert_eq!(parse_probe(b""), Probe::Other);
    assert_eq!(parse_probe(b"pin"), Probe::Other);
    assert_eq!(parse_probe(b"pong"), Probe::Other);
    assert_eq!(parse_probe(b" ping"), Probe::Other);
    assert_eq!(parse_probe(b"ping"), Probe::Ping { token: None });
    assert_eq!(parse_probe(b"pingtoken"), Probe::Ping { token: None });
    assert_eq!(
        parse_probe(b"ping token"),
        Probe::Ping { token: Some("token".to_string()) }
    );
    assert_eq!(
        parse_probe(b"ping   a b \n"),
        Probe::Ping { token: Some("a b".to_string()) }
    );
    assert_eq!(parse_probe(b"ping "), Probe::Ping { token: Some(String::new()) });
    assert_eq!(parse_probe(b"ping \xff\xfe"), Probe::Ping { token: None });
    assert_eq!(
        parse_probe("ping cl\u{e9}".as_bytes()),
        Probe::Ping { token: Some("cl\u{e9}".to_string()) }
    );
}

#[test]
fn probe_replies() {
    let ping = Probe::Ping { token: None };
    assert_eq!(probe_reply(&ping, &Ok(())), ProbeReply::Pong);
    assert_eq!(probe_reply(&ping, &Err("no".to_string())), ProbeReply::Unauthorized);
    assert_eq!(probe_reply(&Probe::Other, &Ok(())), ProbeReply::Silent);
    assert_eq!(probe_reply(&Probe::Other, &Err("no".to_string())), ProbeReply::Silent);
    assert_eq!(ProbeReply::Pong.as_str(), "pong");
    assert_eq!(ProbeReply::Unauthorized.as_str(), "unauthorized");
    assert_eq!(ProbeReply::Silent.as_str(), "");
}

#[test]
fn probes_are_served_and_audited() {
    let gate = session(AuthMode::SharedToken("s3cret".to_string()));
    assert_eq!(
        gate.serve_probe(b"hello", Some("peer")),
        ProbeOutcome { reply: ProbeReply::Silent, event: None }
    );
    assert_eq!(
        gate.serve_probe(b"ping s3cret", Some("peer")),
        ProbeOutcome {
            reply: ProbeReply::Pong,
            event: Some(AuditEvent {
                actor: "peer".to_string(),
                action: "connect".to_string(),
                target: "probe".to_string(),
                allowed: true,
                reason: None,
            }),
        }
    );
    assert_eq!(
        gate.serve_probe(b"ping", None),
        ProbeOutcome {
            reply: ProbeReply::Unauthorized,
            event: denied("unknown", "probe", "missing or invalid token"),
        }
    );
    assert_eq!(
        gate.serve_probe(b"ping wrong", None).reply,
        ProbeReply::Unauthorized
    );
    let open = session(AuthMode::Open);
    assert_eq!(open.serve_probe(b"ping", None).reply, ProbeReply::Pong);
    assert_eq!(
        decide_probe(&Probe::Ping { token: None }, Err("why".to_string()), None),
        ProbeOutcome { reply: ProbeReply::Unauthorized, event: denied("unknown", "probe", "why") }
    );
}

#[test]
fn bearer_token_is_taken_out_of_the_header() {
    assert_eq!(bearer_token("Bearer abc"), "abc");
    assert_eq!(bearer_token("Bearer   abc  "), "abc");
    assert_eq!(bearer_token("abc"), "abc");
    assert_eq!(bearer_token("  abc "), "abc");
    assert_eq!(bearer_token("bearer abc"), "bearer abc");
    assert_eq!(bearer_token("Bearer "), "");
    assert_eq!(bearer_token("Bearer"), "Bearer");
    assert_eq!(bearer_token(""), "");
}

#[test]
fn tunnel_paths_name_a_destination() {
    assert_eq!(
        parse_tunnel_path("/.well-known/masque/udp/10.0.0.5/443/"),
        Some(Target { ip: IpAddress::V4(0x0a00_0005), port: 443 })
    );
    assert_eq!(
        parse_tunnel_path("/.well-known/masque/udp/::1/65535/"),
        Some(Target { ip: IpAddress::V6(1), port: 65535 })
    );
    assert_eq!(
        parse_tunnel_path("/.well-known/masque/udp/127.0.0.1/9/"),
        Some(Target { ip: IpAddress::V4(0x7f00_0001), port: 9 })
    );
    assert_eq!(
        parse_tunnel_path("/.well-known/masque/udp/127.0.0.1/00080/"),
        Some(Target { ip: IpAddress::V4(0x7f00_0001), port: 80 })
    );
    let bad = [
        "",
        "/",
        "/.well-known/masque/udp/",
        "/.well-known/masque/udp/10.0.0.5",
        "/.well-known/masque/udp/10.0.0.5/",
        "/.well-known/masque/udp/10.0.0.5/443",
        "/.well-known/masque/udp/10.0.0.5/443/x",
        "/.well-known/masque/udp/10.0.0.5/443//",
        "/.well-known/masque/udp/10.0.0.5//",
        "/.well-known/masque/udp//443/",
        "/.well-known/masque/udp/10.0.0.5/65536/",
        "/.well-known/masque/udp/10.0.0.5/123456/",
        "/.well-known/masque/udp/10.0.0.5/44a/",
        "/.well-known/masque/udp/10.0.0.5/+44/",
        "/.well-known/masque/udp/example.org/443/",
        "/.well-known/masque/udp/10.0.0.0/24/443/",
        "/.well-known/masque/udp/10.0.0.\u{e9}/443/",
        "/.well-known/masque/tcp/10.0.0.5/443/",
        "/well-known/masque/udp/10.0.0.5/443/",
    ];
    for path in bad {
        assert_eq!(parse_tunnel_path(path), None, "{}", path);
    }
}

#[test]
fn responses_have_their_status() {
    assert_eq!(Response::NotFound.status(), 404);
    assert_eq!(Response::Unauthorized.status(), 401);
    assert_eq!(Response::BadRequest.status(), 400);
    assert_eq!(Response::TooManyRequests.status(), 429);
    assert_eq!(Response::Forbidden.status(), 403);
    assert_eq!(Response::Accepted.status(), 200);
}

#[test]
fn what_is_no_tunnel_request_is_not_found_and_not_audited() {
    let gate = session(AuthMode::Open);
    let mut limit = RateLimit::Unlimited;
    let mut get = request("/.well-known/masque/udp/10.0.0.5/443/", None);
    get.method = "GET".to_string();
    let mut ip = request("/.well-known/masque/udp/10.0.0.5/443/", None);
    ip.protocol = Some("connect-ip".to_string());
    let mut plain = request("/.well-known/masque/udp/10.0.0.5/443/", None);
    plain.protocol = None;
    for r in [get, ip, plain] {
        assert_eq!(
            gate.serve(&r, &mut limit, Duration::ZERO),
            Admission { response: Response::NotFound, event: None, relay: None }
        );
    }
}

#[test]
fn a_refused_credential_is_unauthorized_and_audited() {
    let gate = session(AuthMode::SharedToken("s3cret".to_string()));
    let mut limit = RateLimit::Limited(TokenBucket::new(1, 0));
    for authorization in [None, Some("Bearer nope"), Some("s3cret2")] {
        assert_eq!(
            gate.serve(
                &request("/.well-known/masque/udp/10.0.0.5/443/", authorization),
                &mut limit,
                Duration::ZERO
            ),
            Admission {
                response: Response::Unauthorized,
                event: denied("alice", "10.0.0.5:443", "missing or invalid token"),
                relay: None,
            }
        );
    }
    // A refused credential costs no token of the rate limit.
    match &limit {
        RateLimit::Limited(bucket) => assert_eq!(bucket.available(), 1),
        RateLimit::Unlimited => panic!("limit changed kind"),
    }
    // The path is named as it came where it names no destination.
    let mut anonymous = request("/elsewhere", None);
    anonymous.identity = None;
    assert_eq!(
        gate.serve(&anonymous, &mut limit, Duration::ZERO),
        Admission {
            response: Response::Unauthorized,
            event: denied("unknown", "/elsewhere", "missing or invalid token"),
            relay: None,
        }
    );
}

#[test]
fn an_allowed_target_is_accepted_and_audited() {
    let gate = session(AuthMode::SharedToken("s3cret".to_string()));
    let mut limit = RateLimit::Unlimited;
    for authorization in ["Bearer s3cret", "s3cret", "Bearer  s3cret "] {
        assert_eq!(
            gate.serve(
                &request("/.well-known/masque/udp/10.0.0.5/443/", Some(authorization)),
                &mut limit,
                Duration::ZERO
            ),
            Admission {
                response: Response::Accepted,
                event: Some(AuditEvent {
                    actor: "alice".to_string(),
                    action: "connect".to_string(),
                    target: "10.0.0.5:443".to_string(),
                    allowed: true,
                    reason: None,
                }),
                relay: Some(Target { ip: IpAddress::V4(0x0a00_0005), port: 443 }),
            }
        );
    }
}

#[test]
fn a_path_without_destination_is_a_bad_request() {
    let gate = session(AuthMode::Open);
    let mut limit = RateLimit::Limited(TokenBucket::new(1, 0));
    assert_eq!(
        gate.serve(
            &request("/.well-known/masque/udp/example.org/443/", None),
            &mut limit,
            Duration::ZERO
        ),
        Admission {
            response: Response::BadRequest,
            event: denied("alice", "/.well-known/masque/udp/example.org/443/", "invalid tunnel target"),
            relay: None,
        }
    );
    match &limit {
        RateLimit::Limited(bucket) => assert_eq!(bucket.available(), 1),
        RateLimit::Unlimited => panic!("limit changed kind"),
    }
}

#[test]
fn the_rate_limit_comes_before_the_policy() {
    let gate = session(AuthMode::Open);
    let mut limit = RateLimit::Limited(TokenBucket::new(2, 1));
    let inside = request("/.well-known/masque/udp/10.0.0.5/22/", None);
    let outside = request("/.well-known/masque/udp/10.0.1.5/22/", None);
    assert_eq!(gate.serve(&inside, &mut limit, Duration::ZERO).response, Response::Accepted);
    // A denied destination costs a token too: the limit is asked first.
    assert_eq!(gate.serve(&outside, &mut limit, Duration::ZERO).response, Response::Forbidden);
    let refused = Admission {
        response: Response::TooManyRequests,
        event: denied("alice", "10.0.0.5:22", "rate limit exceeded"),
        relay: None,
    };
    assert_eq!(gate.serve(&inside, &mut limit, Duration::ZERO), refused);
    assert_eq!(gate.serve(&inside, &mut limit, Duration::from_millis(999)), refused);
    assert_eq!(
        gate.serve(&inside, &mut limit, Duration::from_millis(1000)).response,
        Response::Accepted
    );
    assert_eq!(
        gate.serve(&outside, &mut limit, Duration::from_millis(1000)).response,
        Response::TooManyRequests
    );
}

#[test]
fn a_target_outside_the_policy_is_denied_and_audited_once() {
    let gate = session(AuthMode::Open);
    let mut limit = RateLimit::Unlimited;
    let outcome = gate.serve(
        &request("/.well-known/masque/udp/127.0.0.1/2223/", None),
        &mut limit,
        Duration::ZERO,
    );
    assert_eq!(
        outcome,
        Admission {
            response: Response::Forbidden,
            event: denied("alice", "127.0.0.1:2223", "target 127.0.0.1:2223 not allowed"),
            relay: None,
        }
    );

    let mut log: Vec<AuditEntry> = Vec::new();
    let mut writer = AuditChainWriter::open(None).unwrap();
    if let Some(entry) = record(&mut writer, 1_700_000_000_000, outcome.event).unwrap() {
        log.push(entry);
    }
    assert_eq!(log.len(), 1);
    assert_eq!(log[0].seq, 1);
    assert!(!log[0].event.allowed);
    assert!(log[0].event.reason.as_deref().unwrap().contains("not allowed"));
    assert!(verify_chain(&log).is_ok());

    // What is not audited leaves the chain alone.
    assert_eq!(record(&mut writer, 1_700_000_000_001, None).unwrap(), None);
    let next = writer
        .append(
            1_700_000_000_002,
            AuditEvent {
                actor: "a".to_string(),
                action: "connect".to_string(),
                target: "t".to_string(),
                allowed: true,
                reason: None,
            },
        )
        .unwrap();
    assert_eq!(next.seq, 2);
}

#[test]
fn decide_takes_the_verdict_as_given() {
    let gate = session(AuthMode::Open);
    let mut limit = RateLimit::Unlimited;
    let r = request("/.well-known/masque/udp/10.0.0.5/443/", None);
    assert_eq!(
        gate.decide(&r, Err("jwt validation failed: ExpiredSignature".to_string()), &mut limit, Duration::ZERO),
        Admission {
            response: Response::Unauthorized,
            event: denied("alice", "10.0.0.5:443", "jwt validation failed: ExpiredSignature"),
            relay: None,
        }
    );
    assert_eq!(
        gate.decide(&r, Ok(()), &mut limit, Duration::ZERO).response,
        Response::Accepted
    );
}

#[test]
fn datagrams_of_the_tunnel_are_framed_with_context_id_zero() {
    assert_eq!(frame(vec![1, 2, 3]), vec![0, 1, 2, 3]);
    assert_eq!(frame(Vec::new()), vec![0]);
    assert_eq!(unframe(&[0, 1, 2, 3]), Some(vec![1, 2, 3]));
    assert_eq!(unframe(&[0]), Some(Vec::new()));
    assert_eq!(unframe(&frame(vec![0xff; 1200])), Some(vec![0xff; 1200]));
    // Another context id, and what does not decode, carries no payload.
    assert_eq!(unframe(&[1, 2, 3]), None);
    assert_eq!(unframe(&[0x40, 0x00, 9]), Some(vec![9]));
    assert_eq!(unframe(&[0x40, 0x01, 9]), None);
    assert_eq!(unframe(&[]), None);
    assert_eq!(unframe(&[0x80, 0]), None);
}
