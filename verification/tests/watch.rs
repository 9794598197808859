//! The directory watch.

use sftp_backend::audit::PLUGIN_ID;
use sftp_backend::backend::ListingReply;
use sftp_backend::backend::PluginClass;
use sftp_backend::json::Json;
use sftp_backend::sftp::entry_to_json;
use sftp_backend::watch::default_interval_ms;
use sftp_backend::watch::default_port;
use sftp_backend::watch::default_timeout_ms;
use sftp_backend::watch::fingerprint_listing;
use sftp_backend::watch::initial_probe;
use sftp_backend::watch::poll_result;
use sftp_backend::watch::runtime_failure;
use sftp_backend::watch::value_scalar;
use sftp_backend::watch::SftpWatchCdylib;
use sftp_backend::watch::WatchCursor;
use sftp_backend::watch::WatchError;
use sftp_backend::watch::WatchSpec;
use sftp_backend::watch::WATCH_KIND;

fn plugin() -> SftpWatchCdylib {
    SftpWatchCdylib::from_host_config("")
}

fn spec() -> WatchSpec {
    WatchSpec {
        host: "h".to_owned(),
        port: default_port(),
        username: "u".to_owned(),
        password: "p".to_owned(),
        root: String::new(),
        path: String::new(),
        host_key_sha256: None,
        accept_unknown_host_key: true,
        interval_ms: default_interval_ms(),
        timeout_ms: default_timeout_ms(),
    }
}

fn entry(name: &str, size: u64, mtime: u64) -> Json {
    Json::Object(vec![
        ("name".to_owned(), Json::Text(name.to_owned())),
        ("size".to_owned(), Json::Number(size)),
        ("mtime".to_owned(), Json::Number(mtime)),
    ])
}

fn problem(spec: WatchSpec) -> String {
    match plugin().plan_watch(spec) {
        Err(WatchError::InvalidSpec { message }) => message,
        other => panic!("planned: {other:?}"),
    }
}

#[test]
fn manifest_and_kind_are_correct() {
    let p = plugin();
    let m = p.manifest();
    assert_eq!(m.id, PLUGIN_ID);
    assert_eq!(m.plugin_class, PluginClass::WatchStrategy);
    assert_eq!(p.kind(), WATCH_KIND);
}

#[test]
fn watch_manifest_and_defaults() {
    assert_eq!(plugin().manifest().name, "SFTP Directory Poll Watch Strategy");
    assert_eq!(plugin().manifest().id, "dev.mcpg.backend.sftp");
    assert_eq!(plugin().kind(), "sftp_dir_poll");
    assert_eq!(default_port(), 22);
    assert_eq!(default_interval_ms(), 60_000);
    assert_eq!(default_timeout_ms(), 10_000);
}

#[test]
fn traversal_path_is_invalid_spec() {
    assert!(matches!(
        plugin().plan_watch(WatchSpec { path: "../etc".to_owned(), ..spec() }),
        Err(WatchError::InvalidSpec { .. })
    ));
}

#[test]
fn cred_password_is_invalid_spec() {
    assert!(matches!(
        plugin().plan_watch(WatchSpec { password: "cred://vault/sftp".to_owned(), ..spec() }),
        Err(WatchError::InvalidSpec { .. })
    ));
}

#[test]
fn unconfigured_host_key_is_invalid_spec() {
    assert!(matches!(
        plugin().plan_watch(WatchSpec { accept_unknown_host_key: false, ..spec() }),
        Err(WatchError::InvalidSpec { .. })
    ));
}

#[test]
fn every_watch_problem_is_told() {
    assert_eq!(problem(WatchSpec { host: " ".to_owned(), ..spec() }), "host must not be empty");
    assert_eq!(
        problem(WatchSpec { username: String::new(), ..spec() }),
        "username must not be empty"
    );
    assert_eq!(
        problem(WatchSpec { password: String::new(), ..spec() }),
        "password must not be empty"
    );
    assert!(problem(WatchSpec { password: "cred://x".to_owned(), ..spec() })
        .starts_with("password must not be a cred:// URI"));
    assert_eq!(
        problem(WatchSpec { timeout_ms: 0, ..spec() }),
        "timeout_ms must be greater than 0"
    );
    assert!(problem(WatchSpec { accept_unknown_host_key: false, ..spec() })
        .starts_with("host key verification not configured"));
    assert_eq!(
        problem(WatchSpec { path: "a/..".to_owned(), ..spec() }),
        "path must not contain '..' segments"
    );
}

#[test]
fn plan_takes_everything_from_the_spec() {
    let plan = plugin()
        .plan_watch(WatchSpec {
            port: 2222,
            root: "/data/".to_owned(),
            path: "incoming".to_owned(),
            host_key_sha256: Some("SHA256:abc".to_owned()),
            accept_unknown_host_key: false,
            interval_ms: 30_000,
            timeout_ms: 5_000,
            ..spec()
        })
        .expect("plan");
    assert_eq!(plan.path, "/data/incoming");
    assert_eq!(plan.conn.host, "h");
    assert_eq!(plan.conn.port, 2222);
    assert_eq!(plan.conn.username, "u");
    assert_eq!(plan.conn.password, "p");
    assert_eq!(plan.conn.host_key_sha256.as_deref(), Some("SHA256:abc"));
    assert!(!plan.conn.accept_unknown_host_key);
    assert_eq!(plan.timeout_ms, 5_000);
    assert_eq!(plan.poll_interval_ms(), 30_000);
}

#[test]
fn empty_path_watches_the_root_itself() {
    let watched =
        |root: &str| plugin().plan_watch(WatchSpec { root: root.to_owned(), ..spec() }).unwrap().path;
    assert_eq!(watched("/data"), "/data");
    assert_eq!(watched("/data/"), "/data");
    assert_eq!(watched("/"), "/");
    assert_eq!(watched(""), ".");
}

#[test]
fn cadence_has_a_floor() {
    let cadence =
        |ms| plugin().plan_watch(WatchSpec { interval_ms: ms, ..spec() }).unwrap().poll_interval_ms();
    assert_eq!(cadence(0), 250);
    assert_eq!(cadence(249), 250);
    assert_eq!(cadence(250), 250);
    assert_eq!(cadence(251), 251);
}

#[test]
fn fingerprint_is_stable_and_order_independent() {
    let a = vec![entry("a.txt", 10, 100), entry("b.txt", 20, 200)];
    // Same entries, reversed listing order: identical fingerprint.
    let b = vec![entry("b.txt", 20, 200), entry("a.txt", 10, 100)];
    assert_eq!(fingerprint_listing(&a), fingerprint_listing(&b));
}

#[test]
fn fingerprint_changes_on_add_remove_modify() {
    let base = vec![entry("a.txt", 10, 100), entry("b.txt", 20, 200)];
    let base_fp = fingerprint_listing(&base);

    // A file added.
    let added = vec![entry("a.txt", 10, 100), entry("b.txt", 20, 200), entry("c.txt", 30, 300)];
    assert_ne!(base_fp, fingerprint_listing(&added));

    // A file removed.
    let removed = vec![entry("a.txt", 10, 100)];
    assert_ne!(base_fp, fingerprint_listing(&removed));

    // A file modified (size and mtime moved).
    let modified = vec![entry("a.txt", 11, 101), entry("b.txt", 20, 200)];
    assert_ne!(base_fp, fingerprint_listing(&modified));
}

#[test]
fn fingerprint_lines_are_sorted_by_bytes() {
    let entries = vec![
        entry("b", 2, 20),
        entry("é", 3, 30),
        entry("Z", 1, 10),
        entry("b", 1, 20),
        entry("", 0, 0),
        entry("b|1", 0, 0),
    ];
    assert_eq!(
        fingerprint_listing(&entries),
        "Z|1|10\nb|1|0|0\nb|1|20\nb|2|20\n|0|0\né|3|30"
    );
    let mut lines: Vec<String> =
        fingerprint_listing(&entries).split('\n').map(str::to_owned).collect();
    let before = lines.clone();
    lines.sort();
    assert_eq!(lines, before);
    assert_eq!(fingerprint_listing(&[]), "");
}

#[test]
fn fingerprint_of_incomplete_entries() {
    assert_eq!(fingerprint_listing(&[Json::Null]), "||");
    let bare = entry_to_json("x", None, None, None);
    assert_eq!(fingerprint_listing(&[bare]), "x||");
    assert_ne!(fingerprint_listing(&[Json::Null]), fingerprint_listing(&[]));
}

#[test]
fn fingerprint_ignores_permissions() {
    let a = entry_to_json("x", Some(1), Some(0o100644), Some(2));
    let b = entry_to_json("x", Some(1), Some(0o100600), Some(2));
    assert_eq!(fingerprint_listing(&[a]), fingerprint_listing(&[b]));
}

#[test]
fn scalars_in_a_fingerprint() {
    assert_eq!(value_scalar(&Json::Text("a\"b".to_owned())), "a\"b");
    assert_eq!(value_scalar(&Json::Null), "");
    assert_eq!(value_scalar(&Json::Number(0)), "0");
    assert_eq!(value_scalar(&Json::Number(u64::MAX)), "18446744073709551615");
    assert_eq!(value_scalar(&Json::Bool(true)), "true");
    assert_eq!(
        value_scalar(&Json::Array(vec![Json::Text("x".to_owned()), Json::Null])),
        "[\"x\",null]"
    );
}

#[test]
fn first_listing_decides_the_subscription() {
    assert!(initial_probe(ListingReply::Entries(vec![])).is_ok());
    let subscribe = |m: &str| WatchError::Subscribe { message: m.to_owned() };
    assert_eq!(
        initial_probe(ListingReply::Failed("SSH connect failed: x".to_owned())).unwrap_err(),
        subscribe("sftp_dir_poll: initial connect/list failed: SSH connect failed: x")
    );
    assert_eq!(
        initial_probe(ListingReply::TimedOut).unwrap_err(),
        subscribe("sftp_dir_poll: initial connect/list failed: initial sftp list timed out")
    );
    assert_eq!(
        runtime_failure("no threads"),
        subscribe("sftp_dir_poll: tokio runtime init failed: no threads")
    );
}

#[test]
fn polls_give_fingerprints_or_reasons() {
    let polled = poll_result(ListingReply::Entries(vec![entry("a", 1, 2)]));
    assert_eq!(polled, Ok(Some("a|1|2".to_owned())));
    assert_eq!(poll_result(ListingReply::Failed("x".to_owned())), Err("x".to_owned()));
    assert_eq!(poll_result(ListingReply::TimedOut), Err("sftp list timed out".to_owned()));
}

#[test]
fn cursor_fires_on_changes_alone() {
    let mut cursor = WatchCursor::new();
    assert!(!cursor.observe(Err("down".to_owned())));
    assert!(!cursor.observe(Ok(Some("a".to_owned()))));
    assert!(!cursor.observe(Ok(Some("a".to_owned()))));
    assert!(cursor.observe(Ok(Some("b".to_owned()))));
    assert!(!cursor.observe(Err("down".to_owned())));
    assert!(!cursor.observe(Ok(None)));
    assert!(!cursor.observe(Ok(Some("b".to_owned()))));
    assert!(cursor.observe(Ok(Some(String::new()))));
    assert_eq!(cursor.last.as_deref(), Some(""));
}
