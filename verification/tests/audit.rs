use toppy::audit::{
    compute_hash, entry_line, hex_char, sha256_hex, verify_chain, AuditChainWriter, AuditEntry,
    AuditError, AuditEvent,
};

const HASH_1: &str = "930cfe30d7ae556b189404b83100887d6a22addedb7f2e93c4a9ee2e6e813ca6";
const HASH_2: &str = "1dbe9db5fe01479131002a72f18a4dacf981945449a423524c368a75e2d600d8";
const HASH_3: &str = "dd2d2e690d2308f92b2b659285081ee4a1fd1fab2f58b742de0ca59d0ea3bd83";

fn event(actor: &str, action: &str, target: &str, allowed: bool, reason: Option<&str>) -> AuditEvent {
    AuditEvent {
        actor: actor.to_string(),
        action: action.to_string(),
        target: target.to_string(),
        allowed,
        reason: reason.map(|r| r.to_string()),
    }
}

fn invalid_reason(result: Result<(), AuditError>) -> String {
    match result {
        Err(AuditError::Invalid(reason)) => reason,
        other => panic!("expected invalid error, got: {:?}", other),
    }
}

#[test]
fn audit_chain_roundtrip_and_verify() {
    let mut log: Vec<AuditEntry> = Vec::new();

    let mut w = AuditChainWriter::open(None).unwrap();
    log.push(w.append(1, event("alice", "connect", "127.0.0.1:22", true, None)).unwrap());
    log.push(
        w.append(2, event("alice", "connect", "127.0.0.1:23", false, Some("not allowed")))
            .unwrap(),
    );

    verify_chain(&log).unwrap();

    // Re-open and append more.
    let mut w2 = AuditChainWriter::open(log.last().cloned()).unwrap();
    log.push(w2.append(3, event("bob", "doctor", "cfg", true, None)).unwrap());

    verify_chain(&log).unwrap();

    assert_eq!(log[2].seq, 3);
    assert_eq!(log[2].prev_hash.as_deref(), Some(log[1].hash.as_str()));
}

#[test]
fn audit_chain_detects_tamper() {
    let mut log: Vec<AuditEntry> = Vec::new();
    {
        let mut w = AuditChainWriter::open(None).unwrap();
        log.push(w.append(1, event("alice", "connect", "127.0.0.1:22", true, None)).unwrap());
    }
    assert_eq!(log.len(), 1);

    // Tamper by flipping a field. This should break hash verification.
    log[0].event.allowed = false;

    let err = verify_chain(&log).unwrap_err();
    match err {
        AuditError::Invalid(_) => {}
        other => panic!("expected invalid error, got: {:?}", other),
    }
}

#[test]
fn hashes_are_those_of_the_canonical_json() {
    let mut w = AuditChainWriter::open(None).unwrap();
    let first = w.append(1, event("alice", "connect", "127.0.0.1:22", true, None)).unwrap();
    assert_eq!(
        first,
        AuditEntry {
            version: 1,
            seq: 1,
            unix_ms: 1,
            event: event("alice", "connect", "127.0.0.1:22", true, None),
            prev_hash: None,
            hash: HASH_1.to_string(),
        }
    );
    let second = w
        .append(2, event("alice", "connect", "127.0.0.1:23", false, Some("not allowed")))
        .unwrap();
    assert_eq!(second.seq, 2);
    assert_eq!(second.prev_hash.as_deref(), Some(HASH_1));
    assert_eq!(second.hash, HASH_2);
    let third = w.append(3, event("bob", "doctor", "cfg", true, None)).unwrap();
    assert_eq!(third.seq, 3);
    assert_eq!(third.prev_hash.as_deref(), Some(HASH_2));
    assert_eq!(third.hash, HASH_3);

    assert_eq!(
        compute_hash(1, 2, 2, &second.event, Some(HASH_1)).unwrap(),
        HASH_2
    );
}

#[test]
fn entry_line_is_one_json_object() {
    let mut w = AuditChainWriter::open(None).unwrap();
    let first = w.append(1, event("alice", "connect", "127.0.0.1:22", true, None)).unwrap();
    assert_eq!(
        entry_line(&first).unwrap(),
        "{\"version\":1,\"seq\":1,\"unix_ms\":1,\"event\":{\"actor\":\"alice\",\"action\":\"connect\",\"target\":\"127.0.0.1:22\",\"allowed\":true},\"hash\":\"930cfe30d7ae556b189404b83100887d6a22addedb7f2e93c4a9ee2e6e813ca6\"}"
    );
    let second = w
        .append(2, event("alice", "connect", "127.0.0.1:23", false, Some("not allowed")))
        .unwrap();
    let line = entry_line(&second).unwrap();
    assert_eq!(
        line,
        "{\"version\":1,\"seq\":2,\"unix_ms\":2,\"event\":{\"actor\":\"alice\",\"action\":\"connect\",\"target\":\"127.0.0.1:23\",\"allowed\":false,\"reason\":\"not allowed\"},\"prev_hash\":\"930cfe30d7ae556b189404b83100887d6a22addedb7f2e93c4a9ee2e6e813ca6\",\"hash\":\"1dbe9db5fe01479131002a72f18a4dacf981945449a423524c368a75e2d600d8\"}"
    );
    // The line reads back as the same JSON object.
    let value: serde_json::Value = serde_json::from_str(&line).unwrap();
    assert_eq!(value.get("seq").and_then(|v| v.as_u64()), Some(2));
    assert_eq!(
        value.get("event").and_then(|e| e.get("reason")).and_then(|v| v.as_str()),
        Some("not allowed")
    );
    assert_eq!(value.get("hash").and_then(|v| v.as_str()), Some(HASH_2));
}

#[test]
fn strings_are_escaped_as_json() {
    let odd = event("a\"b\\c\n\u{e9}\u{1}", "connect", "t", false, Some("r"));
    assert_eq!(
        compute_hash(1, 1, 5, &odd, None).unwrap(),
        "5e32516c34798a1c726f14c157ec4263bf6343ea27c095eddd63038ded193bf0"
    );
    let mut w = AuditChainWriter::open(None).unwrap();
    let entry = w.append(5, odd).unwrap();
    let line = entry_line(&entry).unwrap();
    assert!(line.contains("\"actor\":\"a\\\"b\\\\c\\n\u{e9}\\u0001\""));
    let value: serde_json::Value = serde_json::from_str(&line).unwrap();
    assert_eq!(
        value.get("event").and_then(|e| e.get("actor")).and_then(|v| v.as_str()),
        Some("a\"b\\c\n\u{e9}\u{1}")
    );
}

#[test]
fn sha256_hex_known_vectors() {
    assert_eq!(
        sha256_hex(b"abc"),
        "ba7816bf8f01cfea414140de5dae2223b00361a396177a9cb410ff61f20015ad"
    );
    assert_eq!(
        sha256_hex(b""),
        "e3b0c44298fc1c149afbf4c8996fb92427ae41e4649b934ca495991b7852b855"
    );
}

#[test]
fn hex_char_covers_every_nibble() {
    let digits: Vec<char> = (0u8..16).map(hex_char).collect();
    assert_eq!(digits.iter().collect::<String>(), "0123456789abcdef");
    assert_eq!(hex_char(16), '0');
    assert_eq!(hex_char(255), '0');
}

#[test]
fn open_refuses_a_last_entry_with_a_wrong_hash() {
    let mut w = AuditChainWriter::open(None).unwrap();
    let mut last = w.append(7, event("alice", "connect", "10.0.0.1:22", true, None)).unwrap();
    last.unix_ms = 8;
    match AuditChainWriter::open(Some(last)) {
        Err(AuditError::Invalid(reason)) => assert_eq!(reason, "last entry hash mismatch"),
        other => panic!("expected invalid error, got: {:?}", other),
    }
}

#[test]
fn open_continues_after_the_last_entry() {
    let mut w = AuditChainWriter::open(None).unwrap();
    let mut last = w.append(1, event("a", "connect", "t", true, None)).unwrap();
    for ms in 2..=5 {
        last = w.append(ms, event("a", "connect", "t", true, None)).unwrap();
    }
    assert_eq!(last.seq, 5);
    let mut resumed = AuditChainWriter::open(Some(last.clone())).unwrap();
    let next = resumed.append(6, event("b", "connect", "t", false, Some("no"))).unwrap();
    assert_eq!(next.seq, 6);
    assert_eq!(next.prev_hash, Some(last.hash));
    assert_eq!(next.version, 1);
    assert_eq!(next.unix_ms, 6);
}

#[test]
fn prepare_leaves_the_chain_until_commit() {
    let mut w = AuditChainWriter::open(None).unwrap();
    let a = w.prepare(1, event("a", "connect", "t", true, None)).unwrap();
    let b = w.prepare(1, event("a", "connect", "t", true, None)).unwrap();
    assert_eq!(a, b);
    assert_eq!(a.seq, 1);
    w.commit(&a);
    let c = w.prepare(2, event("a", "connect", "t", true, None)).unwrap();
    assert_eq!(c.seq, 2);
    assert_eq!(c.prev_hash, Some(a.hash));
}

fn sample_log() -> Vec<AuditEntry> {
    let mut w = AuditChainWriter::open(None).unwrap();
    vec![
        w.append(1, event("alice", "connect", "127.0.0.1:22", true, None)).unwrap(),
        w.append(2, event("alice", "connect", "127.0.0.1:23", false, Some("not allowed")))
            .unwrap(),
        w.append(3, event("bob", "doctor", "cfg", true, None)).unwrap(),
    ]
}

#[test]
fn verify_chain_accepts_what_was_appended() {
    assert!(verify_chain(&Vec::new()).is_ok());
    let log = sample_log();
    assert!(verify_chain(&log).is_ok());
    assert!(verify_chain(&log[..2].to_vec()).is_ok());
}

#[test]
fn verify_chain_reports_the_line_of_a_wrong_seq() {
    let mut log = sample_log();
    log[1].seq = 5;
    assert_eq!(
        invalid_reason(verify_chain(&log)),
        "seq mismatch at line 2: expected 2, got 5"
    );
    // A log that does not start at 1.
    let log = sample_log()[1..].to_vec();
    assert_eq!(
        invalid_reason(verify_chain(&log)),
        "seq mismatch at line 1: expected 1, got 2"
    );
}

#[test]
fn verify_chain_reports_the_line_of_a_wrong_prev_hash() {
    let mut log = sample_log();
    log[2].prev_hash = Some(HASH_1.to_string());
    assert_eq!(invalid_reason(verify_chain(&log)), "prev_hash mismatch at line 3");
    let mut log = sample_log();
    log[1].prev_hash = None;
    assert_eq!(invalid_reason(verify_chain(&log)), "prev_hash mismatch at line 2");
    let mut log = sample_log();
    log[0].prev_hash = Some(HASH_1.to_string());
    assert_eq!(invalid_reason(verify_chain(&log)), "prev_hash mismatch at line 1");
}

#[test]
fn verify_chain_reports_the_line_of_a_wrong_hash() {
    let mut log = sample_log();
    log[1].event.target = "127.0.0.1:24".to_string();
    assert_eq!(invalid_reason(verify_chain(&log)), "hash mismatch at line 2");
    let mut log = sample_log();
    log[0].unix_ms = 9;
    assert_eq!(invalid_reason(verify_chain(&log)), "hash mismatch at line 1");
    let mut log = sample_log();
    log[2].version = 2;
    assert_eq!(invalid_reason(verify_chain(&log)), "hash mismatch at line 3");
    // A changed stored hash is found at its own line, before the next line's link.
    let mut log = sample_log();
    log[1].hash = HASH_1.to_string();
    assert_eq!(invalid_reason(verify_chain(&log)), "hash mismatch at line 2");
}

#[test]
fn every_single_field_change_is_found_and_earlier_lines_stay_sound() {
    let log = sample_log();
    for i in 0..log.len() {
        let mut forged: Vec<AuditEntry> = Vec::new();
        let mut e = log[i].clone();
        e.version += 1;
        forged.push(e);
        let mut e = log[i].clone();
        e.seq += 1;
        forged.push(e);
        let mut e = log[i].clone();
        e.unix_ms ^= 1;
        forged.push(e);
        let mut e = log[i].clone();
        e.event.actor.push('x');
        forged.push(e);
        let mut e = log[i].clone();
        e.event.action = "c".to_string();
        forged.push(e);
        let mut e = log[i].clone();
        e.event.allowed = !e.event.allowed;
        forged.push(e);
        let mut e = log[i].clone();
        e.event.reason = Some("other".to_string());
        forged.push(e);
        let mut e = log[i].clone();
        e.prev_hash = Some(HASH_3.to_string());
        forged.push(e);
        let mut e = log[i].clone();
        e.hash = HASH_3.replace('d', "e");
        forged.push(e);
        for entry in forged {
            let mut changed = log.clone();
            changed[i] = entry;
            let reason = invalid_reason(verify_chain(&changed));
            assert!(reason.contains(&format!("at line {}", i + 1)), "{}", reason);
            assert!(verify_chain(&changed[..i].to_vec()).is_ok());
        }
    }
}

#[test]
fn accept_counts_lines_as_given() {
    let log = sample_log();
    let mut cursor = AuditChainWriter::open(None).unwrap();
    assert!(cursor.accept(1, &log[0]).is_ok());
    // Line 2 was blank: the second entry stands on line 3.
    assert!(cursor.accept(3, &log[1]).is_ok());
    match cursor.accept(7, &log[1]) {
        Err(AuditError::Invalid(reason)) => {
            assert_eq!(reason, "seq mismatch at line 7: expected 3, got 2")
        }
        other => panic!("expected invalid error, got: {:?}", other),
    }
    // The refusal left the cursor where it was.
    assert!(cursor.accept(8, &log[2]).is_ok());
}

#[test]
fn audit_error_in_words() {
    assert_eq!(
        AuditError::Invalid("hash mismatch at line 2".to_string()).to_text(),
        "invalid audit log: hash mismatch at line 2"
    );
    let json = serde_json::from_str::<serde_json::Value>("{").unwrap_err();
    let words = json.to_string();
    assert_eq!(AuditError::from(json).to_text(), format!("json error: {}", words));
    let io = std::io::Error::new(std::io::ErrorKind::Other, "disk gone");
    assert_eq!(AuditError::from(io).to_text(), "io error: disk gone");
    assert!(matches!(
        AuditError::from(std::io::Error::new(std::io::ErrorKind::Other, "x")),
        AuditError::Io(_)
    ));
}
