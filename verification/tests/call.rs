//! One call, from its arguments to its answer.

use sftp_backend::arguments::CallArguments;
use sftp_backend::call::finalize_payload;
use sftp_backend::call::plan_call;
use sftp_backend::call::tool_name;
use sftp_backend::call::CallEvent;
use sftp_backend::call::PendingCall;
use sftp_backend::call::SftpAction;
use sftp_backend::call::SftpReply;
use sftp_backend::envelope::classify_error;
use sftp_backend::json::Json;
use sftp_backend::profile::build_profile;
use sftp_backend::profile::SftpProfile;
use sftp_backend::sftp::entry_to_json;
use sftp_backend::surface::Surface;
use sftp_backend::SftpBackendSpec;
use sftp_backend::SftpOp;

fn profile(op: SftpOp, surface: Surface, uri: Option<&str>) -> SftpProfile {
    build_profile(SftpBackendSpec {
        op,
        host: "sftp.example.com".to_owned(),
        port: 22,
        username: "svc".to_owned(),
        password: "pw".to_owned(),
        root: "/up".to_owned(),
        host_key_sha256: None,
        accept_unknown_host_key: true,
        max_bytes: 4,
        timeout_ms: 1,
        surface,
        uri: uri.map(str::to_owned),
    })
    .expect("profile")
}

fn pending(profile: SftpProfile, args: &CallArguments) -> PendingCall {
    PendingCall {
        tool_name: "tool".to_owned(),
        backend_name: "files".to_owned(),
        plan: plan_call(&profile, args),
        profile,
    }
}

fn with_path(path: &str) -> CallArguments {
    CallArguments { path: Some(path.to_owned()), ..CallArguments::none() }
}

fn refusal(profile: SftpProfile, args: &CallArguments) -> String {
    plan_call(&profile, args).action.expect_err("refused")
}

#[test]
fn list_needs_no_path() {
    let plan = plan_call(&profile(SftpOp::List, Surface::Tool, None), &CallArguments::none());
    assert_eq!(plan.resource_path, None);
    assert_eq!(plan.path_arg, "");
    assert!(matches!(plan.action, Ok(SftpAction::List { path }) if path == "/up"));
}

#[test]
fn get_and_put_need_a_path() {
    for (op, name) in [(SftpOp::Get, "get"), (SftpOp::Put, "put")] {
        for args in [CallArguments::none(), with_path(""), with_path(" \n")] {
            assert_eq!(
                refusal(profile(op, Surface::Tool, None), &args),
                format!("op '{name}' requires a 'path' argument")
            );
        }
    }
}

#[test]
fn no_operation_climbs() {
    for op in [SftpOp::List, SftpOp::Get, SftpOp::Put] {
        assert_eq!(
            refusal(profile(op, Surface::Tool, None), &with_path("a/../..")),
            "path must not contain '..' segments"
        );
    }
    let resource = profile(SftpOp::Get, Surface::Resource, None);
    let args = CallArguments { uri: Some("sftp://../x".to_owned()), ..CallArguments::none() };
    assert_eq!(refusal(resource, &args), "path must not contain '..' segments");
}

#[test]
fn every_accepted_path_is_under_the_root() {
    for path in ["a", "/a", "//a/./b", "..a", "a..", "a/...", "/"] {
        match plan_call(&profile(SftpOp::List, Surface::Tool, None), &with_path(path)).action {
            Ok(SftpAction::List { path }) => {
                assert!(path == "/up" || path.starts_with("/up/"), "{path}")
            }
            other => panic!("planned {other:?}"),
        }
    }
}

#[test]
fn put_is_checked_and_capped() {
    let put = || profile(SftpOp::Put, Surface::Tool, None);
    let args = with_path("a");
    assert_eq!(
        refusal(put(), &args),
        "put requires a 'content' (base64) or 'text' argument"
    );
    let args = CallArguments { text: Some("12345".to_owned()), ..with_path("a") };
    assert_eq!(refusal(put(), &args), "content exceeds max_bytes (4)");
    let args = CallArguments { text: Some("1234".to_owned()), ..with_path("a") };
    match plan_call(&put(), &args).action {
        Ok(SftpAction::Put { path, content }) => {
            assert_eq!(path, "/up/a");
            assert_eq!(content, b"1234");
        }
        other => panic!("planned {other:?}"),
    }
    let args = CallArguments { content: Some("!".to_owned()), ..with_path("a") };
    assert!(refusal(put(), &args).starts_with("'content' is not valid base64: "));
}

#[test]
fn get_names_what_put_wrote() {
    let args = CallArguments { text: Some("hi".to_owned()), ..with_path("//d/a.txt") };
    let written = match plan_call(&profile(SftpOp::Put, Surface::Tool, None), &args).action {
        Ok(SftpAction::Put { path, .. }) => path,
        other => panic!("planned {other:?}"),
    };
    match plan_call(&profile(SftpOp::Get, Surface::Tool, None), &args).action {
        Ok(SftpAction::Get { path }) => assert_eq!(path, written),
        other => panic!("planned {other:?}"),
    }
}

#[test]
fn resource_surface_always_reads() {
    for op in [SftpOp::List, SftpOp::Get, SftpOp::Put] {
        let args = CallArguments {
            uri: Some("sftp://d/a.txt".to_owned()),
            text: Some("x".to_owned()),
            ..CallArguments::none()
        };
        let plan = plan_call(&profile(op, Surface::Resource, None), &args);
        assert_eq!(plan.resource_path.as_deref(), Some("d/a.txt"));
        assert_eq!(plan.path_arg, "d/a.txt");
        assert!(matches!(plan.action, Ok(SftpAction::Get { path }) if path == "/up/d/a.txt"));
    }
}

#[test]
fn resource_surface_needs_a_resource() {
    assert_eq!(
        refusal(profile(SftpOp::Get, Surface::Resource, None), &CallArguments::none()),
        "resource surface requires a `uri` (set a static `uri` on the binding or invoke via a resources/read request)"
    );
}

#[test]
fn pinned_resource_is_read_whatever_is_asked() {
    let pinned = profile(SftpOp::Get, Surface::Resource, Some("notes/today.md"));
    let args = CallArguments { uri: Some("other".to_owned()), ..with_path("else") };
    let plan = plan_call(&pinned, &args);
    assert!(matches!(plan.action, Ok(SftpAction::Get { path }) if path == "/up/notes/today.md"));
}

#[test]
fn tool_calls_answer_with_the_envelope() {
    let call = pending(profile(SftpOp::Get, Surface::Tool, None), &with_path("a"));
    let done = call.conclude(CallEvent::Replied(SftpReply::Data(b"hi".to_vec())), 9);
    assert_eq!(done.outcome, "ok");
    assert_eq!(done.reason, None);
    assert_eq!(done.envelope.get_str("toolName"), Some("tool"));
    assert_eq!(done.envelope.get_str("profile"), Some("files"));
    assert_eq!(done.envelope.get("error"), Some(&Json::Null));
    assert_eq!(done.envelope.get("downstreamError"), Some(&Json::Null));
    let request = done.envelope.get("request").unwrap();
    assert_eq!(request.get_str("op"), Some("get"));
    assert_eq!(request.get_str("host"), Some("sftp.example.com"));
    assert_eq!(request.get_str("path"), Some("a"));
    let response = done.envelope.get("response").unwrap();
    assert_eq!(response.get("content").unwrap().get_str("text"), Some("hi"));
    assert_eq!(response.get_u64("size"), Some(2));
    assert_eq!(response.get_u64("durationMs"), Some(9));
}

#[test]
fn every_reply_has_its_outcome() {
    let call = pending(profile(SftpOp::List, Surface::Tool, None), &CallArguments::none());
    let entries = vec![entry_to_json("a", None, None, None), entry_to_json("b", None, None, None)];
    let listed = call.conclude(CallEvent::Replied(SftpReply::Entries(entries)), 0);
    assert_eq!(listed.envelope.get("response").unwrap().get_u64("count"), Some(2));
    let written = call.conclude(CallEvent::Replied(SftpReply::Written(7)), 0);
    assert_eq!(written.envelope.get("response").unwrap().get_u64("written"), Some(7));
    let binary = call.conclude(CallEvent::Replied(SftpReply::Data(vec![0xff])), 0);
    let content = binary.envelope.get("response").unwrap().get("content").unwrap();
    assert_eq!(content.get_str("base64"), Some("/w=="));
}

#[test]
fn resource_reads_answer_with_contents() {
    let args = CallArguments { uri: Some("sftp://d/a.csv".to_owned()), ..CallArguments::none() };
    let call = pending(profile(SftpOp::Get, Surface::Resource, None), &args);
    let done = call.conclude(CallEvent::Replied(SftpReply::Data(b"x,y".to_vec())), u128::MAX);
    let Some(Json::Array(contents)) = done.envelope.get("contents") else { panic!("contents") };
    assert_eq!(contents.len(), 1);
    assert_eq!(contents[0].get_str("uri"), Some("sftp://d/a.csv"));
    assert_eq!(contents[0].get_str("mimeType"), Some("text/csv"));
    assert_eq!(contents[0].get_str("text"), Some("x,y"));
    let odd = call.conclude(CallEvent::Replied(SftpReply::Written(1)), 0);
    let Some(Json::Array(contents)) = odd.envelope.get("contents") else { panic!("contents") };
    assert_eq!(contents[0].get_str("text"), Some(""));
}

#[test]
fn failed_calls_answer_with_the_error() {
    for surface in [Surface::Tool, Surface::Resource] {
        let call = pending(profile(SftpOp::Get, surface, None), &with_path("a"));
        let done = call.conclude(CallEvent::TimedOut, u128::MAX);
        assert_eq!(done.outcome, "timeout");
        assert_eq!(done.reason.as_deref(), Some("SFTP operation timed out"));
        assert_eq!(done.envelope.get("response"), Some(&Json::Null));
        assert_eq!(done.envelope.get_str("error"), Some("SFTP operation timed out"));
        assert_eq!(
            done.envelope.get("downstreamError"),
            Some(&classify_error("SFTP operation timed out"))
        );
        let done = call.conclude(CallEvent::Failed("SSH connect failed: no route".to_owned()), 0);
        assert_eq!(done.outcome, "transport_error");
        let done = call.conclude(CallEvent::Failed("SFTP open 'a' failed: No such file".to_owned()), 0);
        assert_eq!(done.outcome, "sftp_error");
    }
}

#[test]
fn refused_calls_answer_with_their_refusal() {
    let refused = "path must not contain '..' segments";
    let events = [
        CallEvent::Replied(SftpReply::Written(1)),
        CallEvent::Failed("other".to_owned()),
        CallEvent::TimedOut,
    ];
    for event in events {
        let call = pending(profile(SftpOp::Get, Surface::Tool, None), &with_path(".."));
        let done = call.conclude(event, 1);
        assert_eq!(done.outcome, "sftp_error");
        assert_eq!(done.reason.as_deref(), Some(refused));
        assert_eq!(done.envelope.get_str("error"), Some(refused));
        assert_eq!(done.envelope.get("response"), Some(&Json::Null));
        assert_eq!(done.envelope.get("downstreamError"), Some(&classify_error(refused)));
    }
}

#[test]
fn payload_arguments_are_read_as_json() {
    let none = CallArguments::parse(b"");
    assert_eq!((none.path, none.uri, none.content, none.text), (None, None, None, None));
    let bad = CallArguments::parse(b"{\"path\":");
    assert_eq!(bad.path, None);
    let listed = CallArguments::parse(br#"["path"]"#);
    assert_eq!(listed.path, None);
    let args = CallArguments::parse(
        br#" { "path": "a\u00fc", "uri": 3, "content": null, "text": "x", "path": "b" } "#,
    );
    assert_eq!(args.path.as_deref(), Some("b"));
    assert_eq!(args.uri, None);
    assert_eq!(args.content, None);
    assert_eq!(args.text.as_deref(), Some("x"));
    assert_eq!(CallArguments::parse(br#"{"path":"a\u00fc"}"#).path.as_deref(), Some("aü"));
}

#[test]
fn tool_name_comes_from_the_first_header() {
    let header = |k: &str, v: &str| (k.to_owned(), v.to_owned());
    assert_eq!(tool_name(&vec![], "b"), "b");
    assert_eq!(tool_name(&vec![header("mcpg-tool", "x")], "b"), "b");
    assert_eq!(
        tool_name(&vec![header("Mcpg-TOOL-Name", ""), header("mcpg-tool-name", "y")], "b"),
        ""
    );
}

#[test]
fn payload_is_compact_json() {
    let envelope = Json::Object(vec![
        ("b".to_owned(), Json::Array(vec![Json::Null, Json::Bool(true), Json::Number(7)])),
        ("a".to_owned(), Json::Text("q\"\n€".to_owned())),
    ]);
    let response = finalize_payload(&envelope).expect("payload");
    assert!(!response.truncated);
    assert_eq!(
        String::from_utf8(response.payload).unwrap(),
        "{\"a\":\"q\\\"\\n€\",\"b\":[null,true,7]}"
    );
}
