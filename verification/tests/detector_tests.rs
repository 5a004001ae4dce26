use middleguard::catalog::{
    contains_attack_pattern, contains_suspicious_agent, has_sql_quote_heuristic,
};
use middleguard::detector::{
    banned_payload, contains_attack_patterns, decoy_payload, inspect_request, AbuseDecision,
    BANNED_DELAY_SECS,
};
use middleguard::percent::percent_decode_bytes;
use middleguard::registry::AttackRegistry;

fn flagged_query() -> Vec<u8> {
    b"search=' OR 1=1--".to_vec()
}

#[test]
fn catalog_matches_classic_injections() {
    assert!(contains_attack_pattern(b"id=1' OR 1=1--"));
    assert!(contains_attack_pattern(b"q=' UNION SELECT password"));
    assert!(contains_attack_pattern(b"/files/../../etc/passwd"));
    assert!(contains_attack_pattern(b"<script>alert(1)</script>"));
    assert!(contains_attack_pattern(b"cmd=; cat /etc/passwd"));
    assert!(contains_attack_pattern(b"page=/wp-admin"));
    assert!(!contains_attack_pattern(b"/api/beatmap/count"));
    assert!(!contains_attack_pattern(b"title=summer+mix"));
}

#[test]
fn catalog_matching_is_case_insensitive() {
    assert!(contains_attack_pattern(b"x=' oR 1=1"));
    assert!(contains_attack_pattern(b"<ScRiPt>"));
    assert!(contains_suspicious_agent(b"SQLMap/1.7"));
}

#[test]
fn suspicious_agents_are_flagged() {
    assert!(contains_suspicious_agent(b"sqlmap/1.7.2#stable"));
    assert!(contains_suspicious_agent(b"Mozilla/5.0 zgrab nikto"));
    assert!(contains_suspicious_agent(b"curl/7.88.1"));
    assert!(contains_suspicious_agent(b"python-requests/2.31"));
    assert!(!contains_suspicious_agent(
        b"Mozilla/5.0 (X11; Linux x86_64) Gecko/20100101 Firefox/117.0"
    ));
}

#[test]
fn quote_heuristic_needs_quote_and_keyword() {
    assert!(has_sql_quote_heuristic(b"name=' drop"));
    assert!(has_sql_quote_heuristic(b"a='--"));
    assert!(!has_sql_quote_heuristic(b"name=droptable"));
    assert!(!has_sql_quote_heuristic(b"quote='"));
}

/// The percent-decoding really runs: the encoded injection only matches
/// after decoding, and an undecoded query would pass clean.
#[test]
fn encoded_query_is_decoded_before_matching() {
    let encoded: &[u8] = b"q=%27%20OR%201%3D1--";
    // the raw bytes match nothing
    assert!(!contains_attack_pattern(encoded));
    assert!(!has_sql_quote_heuristic(encoded));
    // through the detector, the decoded query is matched
    assert!(contains_attack_patterns(b"/api/beatmap", Some(encoded), None, None));
}

#[test]
fn malformed_escapes_pass_through_unchanged() {
    // "%4" is too short and "%zz" has no hex digits: both stay verbatim
    assert!(!contains_attack_patterns(b"/api/beatmap", Some(b"a=%4"), None, None));
    assert!(!contains_attack_patterns(b"/api/beatmap", Some(b"a=%zz"), None, None));
    // a malformed escape before a well-formed one does not eat it
    assert!(contains_attack_patterns(
        b"/api/beatmap",
        Some(b"a=%zz%3Cscript%3E"),
        None,
        None
    ));
}

#[test]
fn referer_and_uri_are_checked_too() {
    assert!(contains_attack_patterns(b"/api/x?q=' OR 1=1", None, None, None));
    assert!(contains_attack_patterns(
        b"/api/beatmap",
        None,
        None,
        Some(b"http://evil/<script>")
    ));
    assert!(!contains_attack_patterns(
        b"/api/beatmap",
        Some(b"page=2"),
        Some(b"Mozilla/5.0 Firefox"),
        Some(b"http://example.org/")
    ));
}

/// Escalation determinism: four flagged requests from one address give
/// delays of exactly 5, 15, 30 and 60 seconds, with the ban set at the
/// third.
#[test]
fn four_flagged_requests_escalate_5_15_30_60() {
    let mut reg = AttackRegistry::new();
    let ip = "198.51.100.7".to_string();
    let expected = [(5u64, 1u32), (15, 2), (30, 3), (60, 4)];
    for (i, (delay, count)) in expected.iter().enumerate() {
        let now = 1000 + i as u64;
        let (d, c) = reg.record_attack_attempt(&ip, now);
        assert_eq!(d, *delay);
        assert_eq!(c, *count);
        let rec = reg.lookup(&ip).unwrap();
        if *count < 3 {
            assert!(rec.banned_until.is_none());
        } else {
            // the ban was set at the third attempt, at now = 1002
            assert_eq!(rec.banned_until, Some(1002 + 3600));
        }
    }
    let rec = reg.lookup(&ip).unwrap();
    assert_eq!(rec.count, 4);
    assert_eq!(rec.first_attempt, 1000);
    assert_eq!(rec.last_attempt, 1003);
}

/// Ban persistence: while banned every request, flagged or not, takes the
/// forbidden path with the flat delay and the counter does not advance;
/// after the expiry a flagged request escalates from the old count.
#[test]
fn banned_client_waits_out_the_ban() {
    let mut reg = AttackRegistry::new();
    let ip = "198.51.100.8".to_string();
    for i in 0..3u64 {
        reg.record_attack_attempt(&ip, 100 + i);
    }
    // banned until 102 + 3600 = 3702
    assert!(reg.is_ip_banned(&ip, 103));
    assert!(reg.is_ip_banned(&ip, 3701));
    assert!(!reg.is_ip_banned(&ip, 3702));

    // while banned, even a clean request is turned away, untouched counter
    let d = inspect_request(&mut reg, &ip, b"/api/beatmap/count", None, None, None, 200);
    match d {
        AbuseDecision::Banned { delay_secs } => assert_eq!(delay_secs, BANNED_DELAY_SECS),
        _ => panic!("a banned client must get the forbidden path"),
    }
    assert_eq!(reg.lookup(&ip).unwrap().count, 3);

    // and a flagged one too
    let q = flagged_query();
    let d = inspect_request(&mut reg, &ip, b"/api/x", Some(&q), None, None, 300);
    assert!(matches!(d, AbuseDecision::Banned { .. }));
    assert_eq!(reg.lookup(&ip).unwrap().count, 3);

    // once the ban has expired, escalation continues from the old count
    let d = inspect_request(&mut reg, &ip, b"/api/x", Some(&q), None, None, 3702);
    match d {
        AbuseDecision::Penalized { delay_secs, attempt_count, payload_index } => {
            assert_eq!(attempt_count, 4);
            assert_eq!(delay_secs, 60);
            assert_eq!(payload_index, 3);
        }
        _ => panic!("after expiry a flagged request escalates again"),
    }
}

/// The concrete scenario: three flagged requests from 203.0.113.5 with an
/// injection in the query.
#[test]
fn three_requests_from_one_scanner() {
    let mut reg = AttackRegistry::new();
    let ip = "203.0.113.5".to_string();
    let q = flagged_query();
    let now = 5000u64;

    let expected = [(5u64, 1u32, 0usize), (15, 2, 1), (30, 3, 2)];
    for (delay, count, index) in expected {
        let d = inspect_request(&mut reg, &ip, b"/api/beatmap", Some(&q), None, None, now);
        match d {
            AbuseDecision::Penalized { delay_secs, attempt_count, payload_index } => {
                assert_eq!(delay_secs, delay);
                assert_eq!(attempt_count, count);
                assert_eq!(payload_index, index);
            }
            _ => panic!("the injection must be flagged"),
        }
    }
    let rec = reg.lookup(&ip).unwrap();
    assert_eq!(rec.banned_until, Some(now + 3600));
}

#[test]
fn clean_requests_leave_no_trace() {
    let mut reg = AttackRegistry::new();
    let ip = "192.0.2.1".to_string();
    let d = inspect_request(
        &mut reg,
        &ip,
        b"/api/beatmap/count",
        Some(b"page=1"),
        Some(b"Mozilla/5.0 Firefox"),
        None,
        10,
    );
    assert!(matches!(d, AbuseDecision::Clean));
    assert!(reg.lookup(&ip).is_none());
    assert_eq!(reg.get_attack_stats().len(), 0);
}

#[test]
fn decoy_payloads_rotate_and_are_fixed() {
    assert_eq!(
        decoy_payload(0),
        r#"{"error":"Invalid parameter","hint":"Try adding ?debug=true"}"#
    );
    assert_eq!(
        decoy_payload(1),
        r#"{"error":"Access denied","message":"Authentication required","login_url":"/admin/login"}"#
    );
    assert_eq!(decoy_payload(2), r#"{"error":"Database connection failed","retry_after":300}"#);
    assert_eq!(decoy_payload(3), r#"{"error":"Rate limit exceeded","message":"Too many requests"}"#);
    assert_eq!(
        decoy_payload(4),
        r#"{"status":"processing","message":"Please wait...","eta":"5 minutes"}"#
    );

    // the rotation wraps: attempt 6 reuses index 0
    let mut reg = AttackRegistry::new();
    let ip = "203.0.113.9".to_string();
    let q = flagged_query();
    let mut last_index = 99;
    for i in 0..6u64 {
        // the attempts are spaced beyond any ban window
        let d = inspect_request(&mut reg, &ip, b"/api/x", Some(&q), None, None, 1_000_000 * (i + 1));
        if let AbuseDecision::Penalized { payload_index, attempt_count, .. } = d {
            last_index = payload_index;
            assert_eq!(payload_index, ((attempt_count as usize) - 1) % 5);
        } else {
            panic!("expected a penalty at step {}", i);
        }
    }
    assert_eq!(last_index, 0);
}

/// The banned payload carries the address and the rendered timestamp; the
/// epoch renders as the well-known RFC 3339 string.
#[test]
fn banned_payload_embeds_address_and_timestamp() {
    let ip = "203.0.113.5".to_string();
    let body = banned_payload(&ip, 0);
    assert_eq!(
        body,
        r#"{"error":"Access denied","message":"Your IP 203.0.113.5 has been banned for suspicious activity","code":"BANNED","timestamp":"1970-01-01T00:00:00+00:00"}"#
    );
    let later = banned_payload(&ip, 1700000000);
    assert!(later.contains("2023-11-14T22:13:20+00:00"));
}

#[test]
fn percent_decoding_follows_the_escape_rules() {
    assert_eq!(percent_decode_bytes(b"%41%42c"), b"ABc".to_vec());
    assert_eq!(percent_decode_bytes(b"a+b"), b"a+b".to_vec());
    assert_eq!(percent_decode_bytes(b"%4"), b"%4".to_vec());
    assert_eq!(percent_decode_bytes(b"%"), b"%".to_vec());
    assert_eq!(percent_decode_bytes(b"%zz"), b"%zz".to_vec());
    assert_eq!(percent_decode_bytes(b"%4%41"), b"%4A".to_vec());
    assert_eq!(percent_decode_bytes(b"%%41"), b"%A".to_vec());
    assert_eq!(percent_decode_bytes(b""), b"".to_vec());
}
