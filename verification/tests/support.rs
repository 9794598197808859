//! JSON values, texts, their order, and the audit record.

use sftp_backend::audit::audit_action_for_outcome;
use sftp_backend::audit::audit_event_now;
use sftp_backend::audit::build_audit_event;
use sftp_backend::audit::synthetic_system_identity;
use sftp_backend::audit::AuditOutcome;
use sftp_backend::audit::PluginIdentity;
use sftp_backend::json::Json;
use sftp_backend::json::ParsedJson;
use sftp_backend::order::sort_texts;
use sftp_backend::order::text_at_most;
use sftp_backend::text::ascii_lower_char;
use sftp_backend::text::contains_text;
use sftp_backend::text::decimal_text;
use sftp_backend::text::has_segment;
use sftp_backend::text::is_blank;
use sftp_backend::text::is_white_space_char;
use sftp_backend::text::join_text;
use sftp_backend::text::lower_text;
use sftp_backend::text::replace_text;
use sftp_backend::text::starts_with;
use sftp_backend::text::trim_end;
use sftp_backend::text::trim_start;

#[test]
fn white_space_is_unicode_white_space() {
    for code in 0..=0x10ffffu32 {
        if let Some(c) = char::from_u32(code) {
            assert_eq!(is_white_space_char(c), c.is_whitespace(), "{code:x}");
            assert_eq!(ascii_lower_char(c), c.to_ascii_lowercase(), "{code:x}");
        }
    }
}

#[test]
fn texts_behave_as_strings_do() {
    for s in ["", " ", "a", "aa", "aXa", "/a//b/", "ü/Ü", "\u{3000}\t", "..", "a/..", "timeout"] {
        assert_eq!(is_blank(s), s.trim().is_empty());
        assert_eq!(lower_text(s), s.to_ascii_lowercase());
        assert_eq!(trim_start(s, '/'), s.trim_start_matches('/'));
        assert_eq!(trim_end(s, '/'), s.trim_end_matches('/'));
        assert_eq!(has_segment(s, '/', ".."), s.split('/').any(|part| part == ".."));
        for needle in ["a", "aa", "/", "X", "ü", "out", "time"] {
            assert_eq!(contains_text(s, needle), s.contains(needle));
            assert_eq!(starts_with(s, needle), s.starts_with(needle));
            assert_eq!(replace_text(s, needle, "<>"), s.replace(needle, "<>"));
        }
    }
    for n in [0u128, 9, 10, 1234567890, u64::MAX as u128, u128::MAX] {
        assert_eq!(decimal_text(n), n.to_string());
    }
    let parts = vec!["a".to_owned(), String::new(), "c".to_owned()];
    assert_eq!(join_text(&parts, "--"), parts.join("--"));
    assert_eq!(join_text(&vec![], "--"), "");
}

#[test]
fn texts_sort_as_strings_do() {
    let texts: Vec<String> = ["b", "", "a", "é", "z", "\u{ffff}", "\u{10000}", "aa", "a", "B"]
        .iter()
        .map(|s| s.to_string())
        .collect();
    let mut expected = texts.clone();
    expected.sort();
    assert_eq!(sort_texts(&texts), expected);
    for a in &texts {
        for b in &texts {
            assert_eq!(text_at_most(a, b), a <= b, "{a:?} {b:?}");
        }
    }
}

#[test]
fn later_members_count() {
    let object = Json::Object(vec![
        ("a".to_owned(), Json::Number(1)),
        ("b".to_owned(), Json::Null),
        ("a".to_owned(), Json::Number(2)),
    ]);
    assert_eq!(object.get_u64("a"), Some(2));
    assert_eq!(object.get("b"), Some(&Json::Null));
    assert_eq!(object.get("c"), None);
    assert_eq!(Json::Null.get("a"), None);
    assert_eq!(object.to_text(), "{\"a\":2,\"b\":null}");
}

#[test]
fn json_is_written_and_read() {
    let object = Json::Object(vec![
        ("t".to_owned(), Json::Text("a\\b\u{1}ü".to_owned())),
        ("n".to_owned(), Json::Number(u64::MAX)),
        ("l".to_owned(), Json::Array(vec![Json::Bool(false), Json::Object(vec![])])),
    ]);
    let bytes = object.encode().unwrap();
    assert_eq!(bytes, object.to_text().into_bytes());
    let parsed = ParsedJson::parse(&bytes);
    assert_eq!(parsed.text_member("t").as_deref(), Some("a\\b\u{1}ü"));
    assert_eq!(parsed.text_member("n"), None);
    assert_eq!(parsed.text_member("x"), None);
    assert_eq!(ParsedJson::parse(b"{} {}").text_member("t"), None);
}

#[test]
fn audited_outcomes() {
    assert_eq!(
        audit_action_for_outcome("timeout"),
        Some("dev.mcpg.backend.sftp.request_timeout")
    );
    assert_eq!(
        audit_action_for_outcome("transport_error"),
        Some("dev.mcpg.backend.sftp.request_failed")
    );
    assert_eq!(
        audit_action_for_outcome("sftp_error"),
        Some("dev.mcpg.backend.sftp.operation_rejected")
    );
    assert_eq!(
        audit_action_for_outcome("invalid_spec"),
        Some("dev.mcpg.backend.sftp.request_failed")
    );
    assert_eq!(audit_action_for_outcome("ok"), None);
    assert_eq!(audit_action_for_outcome("profile_not_found"), None);
}

fn caller() -> PluginIdentity {
    PluginIdentity {
        kind: "user".to_owned(),
        subject_id: Some("me".to_owned()),
        ..synthetic_system_identity()
    }
}

#[test]
fn audit_event_records_the_call() {
    let event = build_audit_event(
        "files",
        "timeout",
        Some("late"),
        Some(caller()),
        "rq-1",
        1_234_567_890,
        "main",
        "then".to_owned(),
    )
    .expect("audited");
    assert_eq!(event.event_id, "sftp-rq-1-1234567890");
    assert_eq!(event.occurred_at, "then");
    assert_eq!(event.actor, caller());
    assert_eq!(event.action, "dev.mcpg.backend.sftp.request_timeout");
    assert_eq!(event.resource.as_deref(), Some("sftp-binding://files"));
    assert_eq!(event.outcome, AuditOutcome::Failure);
    assert_eq!(event.request_id.as_deref(), Some("rq-1"));
    assert_eq!(event.node_id, None);
    assert_eq!(event.prev_event_hash, None);
    assert_eq!(event.details.get_str("backend"), Some("files"));
    assert_eq!(event.details.get_u64("duration_ms"), Some(1234));
    assert_eq!(event.details.get_str("outcome"), Some("timeout"));
    assert_eq!(event.details.get_str("alias"), Some("main"));
    assert_eq!(event.details.get_str("reason"), Some("late"));
}

#[test]
fn system_identity_stands_in() {
    let event = build_audit_event("b", "sftp_error", None, None, "r", 0, "", String::new())
        .expect("audited");
    assert_eq!(event.actor, synthetic_system_identity());
    assert_eq!(event.actor.kind, "system");
    assert_eq!(event.actor.trust_level, "verified");
    assert_eq!(event.actor.subject_id.as_deref(), Some("dev.mcpg.backend.sftp"));
    assert_eq!(event.details.get("reason"), None);
    assert!(build_audit_event("b", "ok", None, None, "r", 0, "", String::new()).is_none());
}

#[test]
fn audit_time_is_utc_in_milliseconds() {
    let event = audit_event_now("b", "timeout", None, None, "r", 5, "a").expect("audited");
    let at = event.occurred_at;
    assert!(at.ends_with('Z'));
    assert_eq!(at.len(), "2024-01-01T00:00:00.000Z".len());
    assert_eq!(&at[10..11], "T");
    assert_eq!(&at[19..20], ".");
    assert!(audit_event_now("b", "ok", None, None, "r", 5, "a").is_none());
}
