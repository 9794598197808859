//! Failures and envelopes.

use sftp_backend::envelope::build_result_envelope;
use sftp_backend::envelope::classify_error;
use sftp_backend::envelope::label_for_failure;
use sftp_backend::envelope::retryable_message;
use sftp_backend::envelope::sftp_downstream_error;
use sftp_backend::envelope::SftpOutcome;
use sftp_backend::json::Json;
use sftp_backend::sftp::auth_outcome;
use sftp_backend::sftp::cap_exceeded;
use sftp_backend::sftp::file_failure;
use sftp_backend::sftp::resolve_path;
use sftp_backend::sftp::session_failure;
use sftp_backend::sftp::FileStep;
use sftp_backend::sftp::SessionStep;

fn object(members: Vec<(&str, Json)>) -> Json {
    Json::Object(members.into_iter().map(|(name, value)| (name.to_owned(), value)).collect())
}

fn text(s: &str) -> Json {
    Json::Text(s.to_owned())
}

#[test]
fn connect_failure_is_retryable_transport_error() {
    let e = classify_error("SSH connect failed: connection refused");
    assert_eq!(e.get("kind"), Some(&text("transport_error")));
    assert_eq!(e.get("retryable"), Some(&Json::Bool(true)));
}

#[test]
fn auth_failure_is_not_retryable() {
    let e = classify_error("SSH authentication rejected (bad username/password or host key)");
    assert_eq!(e.get("kind"), Some(&text("sftp_error")));
    assert_eq!(e.get("retryable"), Some(&Json::Bool(false)));
}

#[test]
fn list_envelope_has_entries_and_count() {
    let outcome = SftpOutcome {
        entries: Some(vec![object(vec![("name", text("a.txt"))])]),
        ..Default::default()
    };
    let env = build_result_envelope(
        "fs.list",
        "fs.list",
        "list",
        "sftp.x",
        "/up",
        Some(&outcome),
        8,
        None,
        None,
    );
    let response = env.get("response").unwrap();
    assert_eq!(response.get("count"), Some(&Json::Number(1)));
    match response.get("entries") {
        Some(Json::Array(entries)) => assert_eq!(entries[0].get_str("name"), Some("a.txt")),
        other => panic!("no entries: {other:?}"),
    }
}

#[test]
fn put_envelope_has_written() {
    let outcome = SftpOutcome { written: Some(42), ..Default::default() };
    let env = build_result_envelope(
        "fs.put",
        "fs.put",
        "put",
        "sftp.x",
        "/up/a.txt",
        Some(&outcome),
        5,
        None,
        None,
    );
    assert_eq!(env.get("response").unwrap().get("written"), Some(&Json::Number(42)));
}

#[test]
fn envelope_has_every_slot() {
    let outcome = SftpOutcome {
        content: Some(object(vec![("text", text("hi"))])),
        size: Some(2),
        ..Default::default()
    };
    let env = build_result_envelope(
        "fs.get",
        "drop",
        "get",
        "sftp.x",
        "a.txt",
        Some(&outcome),
        7,
        None,
        None,
    );
    assert_eq!(
        env,
        object(vec![
            ("toolName", text("fs.get")),
            ("profile", text("drop")),
            (
                "request",
                object(vec![
                    ("op", text("get")),
                    ("host", text("sftp.x")),
                    ("path", text("a.txt")),
                ])
            ),
            (
                "response",
                object(vec![
                    ("entries", Json::Null),
                    ("count", Json::Null),
                    ("content", object(vec![("text", text("hi"))])),
                    ("size", Json::Number(2)),
                    ("written", Json::Null),
                    ("durationMs", Json::Number(7)),
                ])
            ),
            ("downstreamError", Json::Null),
            ("downstreamErrors", Json::Array(vec![])),
            ("error", Json::Null),
        ])
    );
}

#[test]
fn failed_envelope_has_its_error_once_and_in_the_list() {
    let error = classify_error("boom");
    let env = build_result_envelope(
        "t",
        "p",
        "list",
        "h",
        "",
        None,
        u128::MAX,
        Some(&error),
        Some("boom"),
    );
    assert_eq!(env.get("response"), Some(&Json::Null));
    assert_eq!(env.get("downstreamError"), Some(&error));
    assert_eq!(env.get("downstreamErrors"), Some(&Json::Array(vec![error.clone()])));
    assert_eq!(env.get_str("error"), Some("boom"));
}

#[test]
fn downstream_error_has_every_slot() {
    assert_eq!(
        sftp_downstream_error("transport_error", "m", true),
        object(vec![
            ("kind", text("transport_error")),
            ("code", text("mcpg.downstream_sftp.transport_error")),
            ("message", text("m")),
            ("retryable", Json::Bool(true)),
            ("retryClass", text("with_backoff")),
            ("suggestedAction", text("check_ssh_connectivity_and_retry")),
        ])
    );
    assert_eq!(
        sftp_downstream_error("sftp_error", "m", false),
        object(vec![
            ("kind", text("sftp_error")),
            ("code", text("mcpg.downstream_sftp.sftp_error")),
            ("message", text("m")),
            ("retryable", Json::Bool(false)),
            ("retryClass", text("do_not_retry")),
            ("suggestedAction", text("inspect_sftp_error")),
        ])
    );
}

#[test]
fn every_marker_is_retryable_in_any_case() {
    for marker in [
        "Connect FAILED",
        "Timed Out",
        "TIMEOUT",
        "channel open failed",
        "Broken pipe",
        "Connection reset by peer",
        "session init failed",
    ] {
        assert!(retryable_message(marker), "{marker}");
        assert!(retryable_message(&format!("before {marker} after")), "{marker}");
    }
    assert!(!retryable_message(""));
    assert!(!retryable_message("connect  failed"));
    assert!(!retryable_message("No such file"));
}

#[test]
fn labels_follow_the_classification() {
    assert_eq!(label_for_failure("SFTP operation timed out"), "timeout");
    assert_eq!(label_for_failure("request Timeout"), "timeout");
    assert_eq!(label_for_failure("SSH connect failed: refused"), "transport_error");
    assert_eq!(label_for_failure("SFTP open 'a' failed: No such file"), "sftp_error");
}

#[test]
fn connection_steps_are_retryable_and_refusals_are_not() {
    for step in [SessionStep::Connect, SessionStep::ChannelOpen, SessionStep::SessionInit] {
        assert!(retryable_message(&session_failure(step, "x")));
    }
    for step in [SessionStep::Auth, SessionStep::Subsystem] {
        assert!(!retryable_message(&session_failure(step, "x")));
    }
    assert!(!retryable_message(&auth_outcome(false).unwrap_err()));
    assert!(!retryable_message(&resolve_path("", "..").unwrap_err()));
    assert!(!retryable_message(&cap_exceeded("file", 0)));
    assert!(!retryable_message(&cap_exceeded("content", usize::MAX)));
}

#[test]
fn file_failures_go_by_their_detail() {
    for step in [
        FileStep::List,
        FileStep::Open,
        FileStep::Read,
        FileStep::Create,
        FileStep::Write,
        FileStep::Flush,
        FileStep::Close,
    ] {
        assert!(!retryable_message(&file_failure(step, "a/b.txt", "No such file")));
        assert!(!retryable_message(&file_failure(step, "connect", "Permission denied")));
        assert!(retryable_message(&file_failure(step, "a/b.txt", "Timeout")));
        for path in ["timeout.csv", "/up/timeout.log", "x' failed: timed out", "' failed: ", ""] {
            let missing = file_failure(step, path, "No such file");
            assert!(!retryable_message(&missing), "{missing}");
            assert_eq!(label_for_failure(&missing), "sftp_error");
            let late = file_failure(step, path, "Timeout");
            assert!(retryable_message(&late), "{late}");
            assert_eq!(label_for_failure(&late), "timeout");
        }
    }
    assert_eq!(file_failure(FileStep::Open, "a b", "x"), "SFTP open 'a b' failed: x");
    assert_eq!(file_failure(FileStep::List, "/", ""), "SFTP list '/' failed: ");
}

#[test]
fn missing_file_with_a_marker_in_its_name_is_not_retryable() {
    let e = classify_error("SFTP open '/up/timeout.log' failed: No such file");
    assert_eq!(e.get("kind"), Some(&text("sftp_error")));
    assert_eq!(e.get("retryable"), Some(&Json::Bool(false)));
}

#[test]
fn other_messages_are_judged_whole() {
    assert!(retryable_message("SFTP session init failed: 'timeout' failed: x"));
    assert!(retryable_message("SFTP stat 'timeout' failed: x"));
    assert!(retryable_message("SFTP open 'timeout"));
    assert!(retryable_message("SFTP open ' failed: timeout"));
    assert!(retryable_message("x SFTP open 'timeout' failed: y"));
    assert!(retryable_message("SSH connect failed: 'a' failed: b"));
}

#[test]
fn session_failures_name_their_step() {
    assert_eq!(session_failure(SessionStep::Connect, "e"), "SSH connect failed: e");
    assert_eq!(session_failure(SessionStep::Auth, "e"), "SSH auth failed: e");
    assert_eq!(session_failure(SessionStep::ChannelOpen, "e"), "SSH channel open failed: e");
    assert_eq!(session_failure(SessionStep::Subsystem, "e"), "SFTP subsystem request failed: e");
    assert_eq!(session_failure(SessionStep::SessionInit, "e"), "SFTP session init failed: e");
}
