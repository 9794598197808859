//! The plugin: its profiles and its requests.

use sftp_backend::backend::ListingReply;
use sftp_backend::backend::PluginClass;
use sftp_backend::call::SftpAction;
use sftp_backend::json::Json;
use sftp_backend::profile::find_spec_problem;
use sftp_backend::profile::BackendError;
use sftp_backend::sftp::entry_to_json;
use sftp_backend::sftp::resolve_path;
use sftp_backend::surface::Surface;
use sftp_backend::types::default_max_bytes;
use sftp_backend::types::default_port;
use sftp_backend::types::default_timeout_ms;
use sftp_backend::SftpBackendPlugin;
use sftp_backend::SftpBackendSpec;
use sftp_backend::SftpOp;

fn minimal_spec() -> SftpBackendSpec {
    SftpBackendSpec {
        op: SftpOp::List,
        host: "sftp.example.com".to_owned(),
        port: default_port(),
        username: "svc".to_owned(),
        password: "${env.SFTP_PW}".to_owned(),
        root: String::new(),
        host_key_sha256: None,
        accept_unknown_host_key: true,
        max_bytes: default_max_bytes(),
        timeout_ms: default_timeout_ms(),
        surface: Surface::default(),
        uri: None,
    }
}

fn resource_spec(uri: Option<&str>) -> SftpBackendSpec {
    SftpBackendSpec {
        op: SftpOp::Get,
        surface: Surface::Resource,
        uri: uri.map(str::to_owned),
        ..minimal_spec()
    }
}

fn problem(spec: SftpBackendSpec) -> String {
    let mut plugin = SftpBackendPlugin::new();
    let found = find_spec_problem(&spec).expect("a problem");
    match plugin.register_profile("x", spec) {
        Err(BackendError::InvalidSpec { message }) => {
            assert_eq!(message, found);
            assert!(plugin.profile("x").is_none());
            message
        }
        other => panic!("registered: {other:?}"),
    }
}

#[test]
fn op_defaults_to_list() {
    assert_eq!(SftpOp::default(), SftpOp::List);
}

#[test]
fn op_names() {
    assert_eq!(SftpOp::List.as_str(), "list");
    assert_eq!(SftpOp::Get.as_str(), "get");
    assert_eq!(SftpOp::Put.as_str(), "put");
}

#[test]
fn spec_defaults() {
    assert_eq!(default_port(), 22);
    assert_eq!(default_max_bytes(), 10 * 1024 * 1024);
    assert_eq!(default_timeout_ms(), 15_000);
}

#[test]
fn kind_is_sftp() {
    assert_eq!(SftpBackendPlugin::new().kind(), "sftp");
}

#[test]
fn backend_manifest() {
    let plugin = SftpBackendPlugin::default();
    assert_eq!(plugin.manifest().id, "dev.mcpg.backend.sftp");
    assert_eq!(plugin.manifest().name, "SFTP Binding");
    assert_eq!(plugin.manifest().plugin_class, PluginClass::Backend);
    assert_eq!(
        plugin.audit_metadata(),
        Json::Object(vec![("sftp.transport".to_owned(), Json::Text("plugin".to_owned()))])
    );
}

#[test]
fn register_accepts_minimal_spec() {
    let mut plugin = SftpBackendPlugin::new();
    plugin.register_profile("files", minimal_spec()).expect("register");
    assert_eq!(plugin.profile("files").unwrap().op, SftpOp::List);
}

#[test]
fn register_rejects_unconfigured_host_key() {
    let mut plugin = SftpBackendPlugin::new();
    let spec = SftpBackendSpec { accept_unknown_host_key: false, ..minimal_spec() };
    let err = plugin.register_profile("x", spec).expect_err("no host key policy");
    assert!(matches!(err, BackendError::InvalidSpec { .. }));
}

#[test]
fn register_rejects_cred_password() {
    let mut plugin = SftpBackendPlugin::new();
    let spec = SftpBackendSpec { password: "cred://vault/sftp".to_owned(), ..minimal_spec() };
    let err = plugin.register_profile("x", spec).expect_err("cred password");
    assert!(matches!(err, BackendError::InvalidSpec { .. }));
}

#[test]
fn register_accepts_resource_surface() {
    let mut plugin = SftpBackendPlugin::new();
    plugin
        .register_profile("inbox", resource_spec(Some("sftp://inbox/{path}")))
        .expect("register resource surface");
    let p = plugin.profile("inbox").unwrap();
    assert_eq!(p.surface, Surface::Resource);
    assert_eq!(p.uri_template, "sftp://inbox/{path}");
    assert!(p.static_uri.is_none());
}

#[test]
fn register_rejects_uri_on_tool_surface() {
    let mut plugin = SftpBackendPlugin::new();
    let spec = SftpBackendSpec { uri: Some("sftp://{path}".to_owned()), ..minimal_spec() };
    let err = plugin.register_profile("x", spec).expect_err("uri on tool surface");
    assert!(matches!(err, BackendError::InvalidSpec { .. }));
}

#[test]
fn every_spec_problem_is_told() {
    let blank = || " \u{3000}".to_owned();
    assert_eq!(
        problem(SftpBackendSpec { host: blank(), ..minimal_spec() }),
        "host must not be empty"
    );
    assert_eq!(
        problem(SftpBackendSpec { username: blank(), ..minimal_spec() }),
        "username must not be empty"
    );
    assert_eq!(
        problem(SftpBackendSpec { password: String::new(), ..minimal_spec() }),
        "password must not be empty (v1 is password auth)"
    );
    assert_eq!(
        problem(SftpBackendSpec { password: "cred://".to_owned(), ..minimal_spec() }),
        "password must not be a cred:// URI — per-caller credentials are unsupported; use ${env.X} / vault:// (resolved at config load)"
    );
    assert_eq!(
        problem(SftpBackendSpec { timeout_ms: 0, ..minimal_spec() }),
        "timeout_ms must be greater than 0"
    );
    assert_eq!(
        problem(SftpBackendSpec { max_bytes: 0, ..minimal_spec() }),
        "max_bytes must be greater than 0"
    );
    assert_eq!(
        problem(SftpBackendSpec { uri: Some(String::new()), ..minimal_spec() }),
        "`uri` is only valid with `surface: resource` (this binding is `surface: tool`)"
    );
    assert_eq!(problem(resource_spec(Some("  "))), "`uri` must not be empty");
    assert_eq!(
        problem(SftpBackendSpec { accept_unknown_host_key: false, ..minimal_spec() }),
        "host key verification not configured — set host_key_sha256 (SHA256:…) or, for dev only, accept_unknown_host_key: true"
    );
}

#[test]
fn the_first_problem_counts() {
    let all_wrong = SftpBackendSpec {
        host: String::new(),
        username: String::new(),
        password: String::new(),
        timeout_ms: 0,
        ..minimal_spec()
    };
    assert_eq!(problem(all_wrong), "host must not be empty");
}

#[test]
fn blank_password_is_a_password() {
    let mut plugin = SftpBackendPlugin::new();
    let spec = SftpBackendSpec {
        password: " ".to_owned(),
        accept_unknown_host_key: false,
        host_key_sha256: Some("SHA256:abc".to_owned()),
        ..minimal_spec()
    };
    plugin.register_profile("x", spec).expect("register");
    assert_eq!(plugin.profile("x").unwrap().conn.host_key_sha256.as_deref(), Some("SHA256:abc"));
}

#[test]
fn uri_without_placeholder_pins_a_resource() {
    let mut plugin = SftpBackendPlugin::new();
    plugin.register_profile("pin", resource_spec(Some("sftp://a.txt"))).expect("register");
    plugin.register_profile("all", resource_spec(None)).expect("register");
    let pinned = plugin.profile("pin").unwrap();
    assert_eq!(pinned.static_uri.as_deref(), Some("sftp://a.txt"));
    assert_eq!(pinned.uri_template, "sftp://a.txt");
    let all = plugin.profile("all").unwrap();
    assert_eq!(all.static_uri, None);
    assert_eq!(all.uri_template, "sftp://{path}");
}

#[test]
fn registering_again_replaces_and_leaves_others() {
    let mut plugin = SftpBackendPlugin::new();
    plugin.register_profile("a", minimal_spec()).expect("register");
    plugin.register_profile("b", minimal_spec()).expect("register");
    plugin
        .register_profile("a", SftpBackendSpec { op: SftpOp::Put, ..minimal_spec() })
        .expect("register");
    assert_eq!(plugin.profile("a").unwrap().op, SftpOp::Put);
    assert_eq!(plugin.profile("b").unwrap().op, SftpOp::List);
    assert!(plugin.profile("c").is_none());
    assert!(plugin.profile("").is_none());
    let refused = plugin.register_profile("a", SftpBackendSpec { max_bytes: 0, ..minimal_spec() });
    assert!(refused.is_err());
    assert_eq!(plugin.profile("a").unwrap().op, SftpOp::Put);
}

#[test]
fn list_resources_empty_for_tool_surface() {
    let mut plugin = SftpBackendPlugin::new();
    plugin.register_profile("files", minimal_spec()).expect("register");
    let plan = plugin.begin_listing("files").expect("plan");
    assert_eq!(plan.dir, None);
    let entries = vec![entry_to_json("a.txt", Some(1), None, None)];
    let page = plan.list_resources(ListingReply::Entries(entries)).expect("list_resources");
    assert!(page.resources.is_empty());
    assert!(page.next_cursor.is_none());
}

#[test]
fn complete_template_variable_empty_for_tool_surface() {
    let mut plugin = SftpBackendPlugin::new();
    plugin.register_profile("files", minimal_spec()).expect("register");
    let plan = plugin.begin_listing("files").expect("plan");
    let entries = vec![entry_to_json("re.txt", Some(1), None, None)];
    let got =
        plan.complete_template_variable("re", ListingReply::Entries(entries)).expect("complete");
    assert!(got.is_empty());
    assert!(plan.complete_template_variable("re", ListingReply::TimedOut).expect("none").is_empty());
}

#[test]
fn resource_surface_lists_its_root() {
    let mut plugin = SftpBackendPlugin::new();
    let spec = SftpBackendSpec { root: "/inbox/".to_owned(), ..resource_spec(None) };
    plugin.register_profile("inbox", spec).expect("register");
    let plan = plugin.begin_listing("inbox").expect("plan");
    assert_eq!(plan.dir.as_deref(), Some("/inbox"));
    let entries =
        vec![entry_to_json("a.txt", Some(3), None, None), entry_to_json("d", None, Some(0o040755), None)];
    let page = plan.list_resources(ListingReply::Entries(entries)).expect("page");
    assert_eq!(page.resources.len(), 1);
    assert_eq!(page.resources[0].uri, "sftp://a.txt");
    assert_eq!(page.resources[0].description.as_deref(), Some("3 bytes"));

    plugin.register_profile("home", resource_spec(None)).expect("register");
    assert_eq!(plugin.begin_listing("home").expect("plan").dir.as_deref(), Some("."));
}

#[test]
fn listed_uris_hold_the_path_under_the_root() {
    let mut plugin = SftpBackendPlugin::new();
    let spec = SftpBackendSpec {
        root: "/inbound/inbox".to_owned(),
        ..resource_spec(Some("sftp://inbox/{path}"))
    };
    plugin.register_profile("inbox", spec).expect("register");
    let plan = plugin.begin_listing("inbox").expect("plan");
    assert_eq!(plan.dir.as_deref(), Some("/inbound/inbox"));
    let entries = vec![entry_to_json("report.csv", Some(4096), None, None)];
    let page = plan.list_resources(ListingReply::Entries(entries)).expect("page");
    assert_eq!(page.resources.len(), 1);
    assert_eq!(page.resources[0].uri, "sftp://inbox/report.csv");
    assert_eq!(page.next_cursor, None);
}

#[test]
fn reading_a_listed_uri_opens_the_listed_file() {
    for (root, opened) in [
        ("/in", "/in/a b.txt"),
        ("/in/", "/in/a b.txt"),
        ("/", "/a b.txt"),
        ("in", "in/a b.txt"),
        (".", "./a b.txt"),
        ("", "a b.txt"),
        (" ", "a b.txt"),
    ] {
        let mut plugin = SftpBackendPlugin::new();
        let spec = SftpBackendSpec { root: root.to_owned(), ..resource_spec(None) };
        plugin.register_profile("b", spec).expect("register");
        let plan = plugin.begin_listing("b").expect("plan");
        let entries = vec![entry_to_json("a b.txt", Some(1), None, None)];
        let page = plan.list_resources(ListingReply::Entries(entries)).expect("page");
        let payload = format!("{{\"uri\":\"{}\"}}", page.resources[0].uri);
        let call = plugin.begin_execute("b", &vec![], payload.as_bytes()).expect("call");
        match call.plan.action {
            Ok(SftpAction::Get { path }) => {
                assert_eq!(path, opened);
                assert_eq!(path, resolve_path(root, "a b.txt").unwrap());
            }
            other => panic!("planned {other:?}"),
        }
    }
}

#[test]
fn the_root_of_the_server_is_listed_as_such() {
    let mut plugin = SftpBackendPlugin::new();
    let spec = SftpBackendSpec { root: "/".to_owned(), ..resource_spec(None) };
    plugin.register_profile("b", spec).expect("register");
    assert_eq!(plugin.begin_listing("b").expect("plan").dir.as_deref(), Some("/"));
}

#[test]
fn completions_are_capped_at_a_hundred() {
    let mut plugin = SftpBackendPlugin::new();
    plugin.register_profile("inbox", resource_spec(None)).expect("register");
    let plan = plugin.begin_listing("inbox").expect("plan");
    let entries: Vec<Json> =
        (0..150).map(|i| entry_to_json(&format!("f{i}"), None, None, None)).collect();
    let got = plan.complete_template_variable("f", ListingReply::Entries(entries)).expect("names");
    assert_eq!(got.len(), 100);
    assert_eq!(got[99], "f99");
}

#[test]
fn failed_listings_are_transport_errors() {
    let mut plugin = SftpBackendPlugin::new();
    plugin.register_profile("inbox", resource_spec(None)).expect("register");
    let plan = plugin.begin_listing("inbox").expect("plan");
    let transport = |m: &str| BackendError::Transport { message: m.to_owned() };
    assert_eq!(
        plan.list_resources(ListingReply::Failed("x".to_owned())).unwrap_err(),
        transport("x")
    );
    assert_eq!(
        plan.list_resources(ListingReply::TimedOut).unwrap_err(),
        transport("SFTP list_resources timed out")
    );
    assert_eq!(
        plan.complete_template_variable("", ListingReply::Failed("y".to_owned())).unwrap_err(),
        transport("y")
    );
    assert_eq!(
        plan.complete_template_variable("", ListingReply::TimedOut).unwrap_err(),
        transport("SFTP complete_template_variable timed out")
    );
}

#[test]
fn listing_unknown_profile_is_profile_not_found() {
    let plugin = SftpBackendPlugin::new();
    match plugin.begin_listing("missing") {
        Err(BackendError::ProfileNotFound { backend_name }) => assert_eq!(backend_name, "missing"),
        other => panic!("planned: {other:?}"),
    }
}

#[test]
fn execute_unknown_profile_is_profile_not_found() {
    let plugin = SftpBackendPlugin::new();
    let err = plugin.begin_execute("missing", &vec![], &[]).expect_err("missing");
    assert!(matches!(err, BackendError::ProfileNotFound { .. }));
}

#[test]
fn execute_takes_profile_headers_and_payload() {
    let mut plugin = SftpBackendPlugin::new();
    let spec = SftpBackendSpec { op: SftpOp::Get, root: "/up".to_owned(), ..minimal_spec() };
    plugin.register_profile("files", spec).expect("register");
    let headers = vec![
        ("Other".to_owned(), "x".to_owned()),
        ("MCPG-Tool-Name".to_owned(), "fs.get".to_owned()),
        ("mcpg-tool-name".to_owned(), "later".to_owned()),
    ];
    let call = plugin.begin_execute("files", &headers, br#"{"path":"a.txt"}"#).expect("call");
    assert_eq!(call.tool_name, "fs.get");
    assert_eq!(call.backend_name, "files");
    assert_eq!(call.plan.path_arg, "a.txt");
    match call.plan.action {
        Ok(SftpAction::Get { path }) => assert_eq!(path, "/up/a.txt"),
        other => panic!("planned {other:?}"),
    }
    let bare = plugin.begin_execute("files", &vec![], b"").expect("call");
    assert_eq!(bare.tool_name, "files");
    assert_eq!(bare.plan.action.unwrap_err(), "op 'get' requires a 'path' argument");
}
