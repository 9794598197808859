//! Files as resources.

use sftp_backend::arguments::CallArguments;
use sftp_backend::json::Json;
use sftp_backend::sftp::entry_to_json;
use sftp_backend::surface::entries_to_completion_values;
use sftp_backend::surface::entries_to_resource_page;
use sftp_backend::surface::join_under;
use sftp_backend::surface::mime_for_path;
use sftp_backend::surface::path_from_uri;
use sftp_backend::surface::resolve_resource_path;
use sftp_backend::surface::resource_contents_body;
use sftp_backend::surface::uri_for_path;
use sftp_backend::surface::Surface;
use sftp_backend::surface::DEFAULT_URI_TEMPLATE;

fn object(members: Vec<(&str, Json)>) -> Json {
    Json::Object(members.into_iter().map(|(name, value)| (name.to_owned(), value)).collect())
}

fn text(s: &str) -> Json {
    Json::Text(s.to_owned())
}

fn arguments(uri: Option<&str>, path: Option<&str>) -> CallArguments {
    CallArguments {
        uri: uri.map(str::to_owned),
        path: path.map(str::to_owned),
        content: None,
        text: None,
    }
}

#[test]
fn surface_default_is_tool() {
    assert_eq!(Surface::default(), Surface::Tool);
}

#[test]
fn surface_names() {
    assert_eq!(Surface::Tool.as_str(), "tool");
    assert_eq!(Surface::Resource.as_str(), "resource");
}

#[test]
fn uri_template_fills_path() {
    assert_eq!(uri_for_path("sftp://{path}", "inbox/a.txt"), "sftp://inbox/a.txt");
    assert_eq!(uri_for_path("files://drop/{path}", "a.csv"), "files://drop/a.csv");
}

#[test]
fn uri_template_fills_every_placeholder() {
    assert_eq!(uri_for_path("{path}?p={path}", "x"), "x?p=x");
    assert_eq!(uri_for_path("sftp://{path}", "{path}"), "sftp://{path}");
    assert_eq!(uri_for_path("no placeholder", "x"), "no placeholder");
    assert_eq!(uri_for_path("{pa{path}th}", "-"), "{pa-th}");
    assert_eq!(uri_for_path("", "x"), "");
}

#[test]
fn path_recovers_from_uri() {
    assert_eq!(path_from_uri("sftp://{path}", "sftp://inbox/a.txt"), "inbox/a.txt");
    assert_eq!(path_from_uri("files://drop/{path}", "files://drop/a.csv"), "a.csv");
    // A URI without the template prefix is treated as the whole path.
    assert_eq!(path_from_uri("sftp://{path}", "other://x"), "other://x");
}

#[test]
fn path_recovery_edges() {
    assert_eq!(path_from_uri("sftp://static.txt", "sftp://static.txt"), "sftp://static.txt");
    assert_eq!(path_from_uri("{path}", "x"), "x");
    assert_eq!(path_from_uri("a/{path}/b/{path}", "a/x"), "x");
    assert_eq!(path_from_uri("sftp://{path}", "sftp://"), "");
}

#[test]
fn path_survives_uri_and_back() {
    for template in [DEFAULT_URI_TEMPLATE, "files://drop/{path}", "{path}", "ü/{path}"] {
        for path in ["a", "a/b.txt", "", "{path}", "sftp://x", "ß €"] {
            assert_eq!(path_from_uri(template, &uri_for_path(template, path)), path);
        }
    }
}

#[test]
fn reads_answer_the_uri_that_was_asked() {
    for template in [DEFAULT_URI_TEMPLATE, "sftp://inbox/{path}"] {
        let uri = uri_for_path(template, "d/report.csv");
        assert_eq!(uri_for_path(template, &path_from_uri(template, &uri)), uri);
    }
    // Not where text follows the placeholder.
    let uri = uri_for_path("x/{path}/raw", "a");
    assert_eq!(path_from_uri("x/{path}/raw", &uri), "a/raw");
}

#[test]
fn mime_guessed_from_extension() {
    assert_eq!(mime_for_path("report.csv"), Some("text/csv"));
    assert_eq!(mime_for_path("a/b/data.json"), Some("application/json"));
    assert_eq!(mime_for_path("noext"), None);
    assert_eq!(mime_for_path("archive.unknownext"), None);
}

#[test]
fn every_known_extension_in_any_case() {
    for (ext, mime) in [
        ("txt", "text/plain"),
        ("LOG", "text/plain"),
        ("json", "application/json"),
        ("Csv", "text/csv"),
        ("xml", "application/xml"),
        ("yaml", "application/yaml"),
        ("yml", "application/yaml"),
        ("html", "text/html"),
        ("htm", "text/html"),
        ("md", "text/markdown"),
        ("pdf", "application/pdf"),
        ("PNG", "image/png"),
        ("jpg", "image/jpeg"),
        ("jpeg", "image/jpeg"),
        ("gif", "image/gif"),
        ("zip", "application/zip"),
        ("gz", "application/gzip"),
        ("tar", "application/x-tar"),
    ] {
        assert_eq!(mime_for_path(&format!("d.ir/a.b.{ext}")), Some(mime), "{ext}");
    }
    assert_eq!(mime_for_path("a.txt/b"), None);
    assert_eq!(mime_for_path(".txt"), Some("text/plain"));
    assert_eq!(mime_for_path("a."), None);
    assert_eq!(mime_for_path(""), None);
    assert_eq!(mime_for_path("a.txt/"), None);
}

fn listing() -> Vec<Json> {
    vec![
        object(vec![
            ("name", text("report.csv")),
            ("type", text("file")),
            ("size", Json::Number(4096)),
            ("mtime", Json::Number(1)),
        ]),
        object(vec![
            ("name", text("notes.txt")),
            ("type", text("file")),
            ("size", Json::Number(12)),
            ("mtime", Json::Number(2)),
        ]),
        object(vec![
            ("name", text("subdir")),
            ("type", text("dir")),
            ("size", Json::Number(0)),
            ("mtime", Json::Number(3)),
        ]),
        object(vec![
            ("name", text("link")),
            ("type", text("symlink")),
            ("size", Json::Number(0)),
            ("mtime", Json::Number(4)),
        ]),
        // Without a name: skipped.
        object(vec![("type", text("file")), ("size", Json::Number(9))]),
    ]
}

#[test]
fn list_resources_shapes_files_only() {
    let page = entries_to_resource_page(&listing(), "/inbox", "sftp://{path}");
    assert_eq!(page.resources.len(), 2);
    let r0 = &page.resources[0];
    assert_eq!(r0.uri, "sftp:///inbox/report.csv");
    assert_eq!(r0.name.as_deref(), Some("report.csv"));
    assert_eq!(r0.mime_type.as_deref(), Some("text/csv"));
    assert_eq!(r0.description.as_deref(), Some("4096 bytes"));
    assert_eq!(page.resources[1].uri, "sftp:///inbox/notes.txt");
    assert!(page.next_cursor.is_none());
}

#[test]
fn list_resources_empty_root_uses_bare_name() {
    let page = entries_to_resource_page(&listing(), "", "sftp://{path}");
    assert_eq!(page.resources[0].uri, "sftp://report.csv");
}

#[test]
fn malformed_entries_are_skipped() {
    let entries = vec![
        Json::Null,
        text("file"),
        object(vec![("name", Json::Number(3)), ("type", text("file"))]),
        object(vec![("name", text("a"))]),
        object(vec![("name", text("b")), ("type", text("file")), ("size", text("3"))]),
    ];
    let page = entries_to_resource_page(&entries, ".", "x:{path}");
    assert_eq!(page.resources.len(), 1);
    assert_eq!(page.resources[0].uri, "x:b");
    assert_eq!(page.resources[0].description, None);
    assert_eq!(page.resources[0].mime_type, None);
}

#[test]
fn server_entries_are_listed_by_kind() {
    let entries = vec![
        entry_to_json("f.md", Some(1), Some(0o100644), None),
        entry_to_json("d", None, Some(0o040755), None),
        entry_to_json("l", None, Some(0o120777), None),
        entry_to_json("u", None, None, None),
    ];
    let page = entries_to_resource_page(&entries, "/r/", DEFAULT_URI_TEMPLATE);
    let uris: Vec<&str> = page.resources.iter().map(|r| r.uri.as_str()).collect();
    assert_eq!(uris, vec!["sftp:///r/f.md", "sftp:///r/u"]);
}

#[test]
fn listed_files_read_back_by_name() {
    for root in ["", "/", ".", "./"] {
        let page = entries_to_resource_page(&listing(), root, DEFAULT_URI_TEMPLATE);
        for resource in &page.resources {
            let args = arguments(Some(&resource.uri), None);
            assert_eq!(resolve_resource_path(DEFAULT_URI_TEMPLATE, None, &args), resource.name);
        }
    }
    let page = entries_to_resource_page(&listing(), "/inbox", DEFAULT_URI_TEMPLATE);
    let args = arguments(Some(&page.resources[0].uri), None);
    assert_eq!(
        resolve_resource_path(DEFAULT_URI_TEMPLATE, None, &args).as_deref(),
        Some("/inbox/report.csv")
    );
}

#[test]
fn names_join_under_a_directory() {
    assert_eq!(join_under("", "a"), "a");
    assert_eq!(join_under(".", "a"), "a");
    assert_eq!(join_under("///", "a"), "a");
    assert_eq!(join_under("/in//", "a"), "/in/a");
    assert_eq!(join_under("in", ""), "in/");
}

#[test]
fn completion_filters_by_prefix_and_caps() {
    let entries = vec![
        object(vec![("name", text("report.csv")), ("type", text("file"))]),
        object(vec![("name", text("readme.md")), ("type", text("file"))]),
        object(vec![("name", text("notes.txt")), ("type", text("file"))]),
        object(vec![("name", text("reports")), ("type", text("dir"))]),
    ];
    let got = entries_to_completion_values(&entries, "re", 10);
    assert_eq!(got, vec!["report.csv", "readme.md", "reports"]);
    let capped = entries_to_completion_values(&entries, "re", 1);
    assert_eq!(capped, vec!["report.csv"]);
}

#[test]
fn completion_edges() {
    assert_eq!(entries_to_completion_values(&listing(), "", 0), Vec::<String>::new());
    assert_eq!(
        entries_to_completion_values(&listing(), "", 100),
        vec!["report.csv", "notes.txt", "subdir", "link"]
    );
    assert_eq!(entries_to_completion_values(&[Json::Null], "", 5), Vec::<String>::new());
}

#[test]
fn resolve_path_static_uri_wins() {
    let args = arguments(Some("sftp://from-arg.txt"), None);
    assert_eq!(
        resolve_resource_path("sftp://{path}", Some("sftp://static.txt"), &args).as_deref(),
        Some("static.txt")
    );
}

#[test]
fn resolve_path_falls_back_to_arg_uri_then_path() {
    let args = arguments(Some("sftp://inbox/a.txt"), None);
    assert_eq!(
        resolve_resource_path("sftp://{path}", None, &args).as_deref(),
        Some("inbox/a.txt")
    );
    let args = arguments(None, Some("inbox/b.txt"));
    assert_eq!(
        resolve_resource_path("sftp://{path}", None, &args).as_deref(),
        Some("inbox/b.txt")
    );
    assert_eq!(resolve_resource_path("sftp://{path}", None, &CallArguments::none()), None);
    assert_eq!(resolve_resource_path("sftp://{path}", Some("  "), &CallArguments::none()), None);
}

#[test]
fn blank_arguments_are_passed_over() {
    let args = arguments(Some(" "), Some("p"));
    assert_eq!(resolve_resource_path("sftp://{path}", Some(""), &args).as_deref(), Some("p"));
    let args = arguments(Some(" "), Some("\t"));
    assert_eq!(resolve_resource_path("sftp://{path}", None, &args), None);
}

#[test]
fn resource_body_text_shape() {
    let body =
        resource_contents_body("sftp://a.txt", "a.txt", &object(vec![("text", text("hi"))]));
    let Some(Json::Array(contents)) = body.get("contents") else { panic!("contents array") };
    assert_eq!(contents.len(), 1);
    assert_eq!(contents[0].get("uri"), Some(&text("sftp://a.txt")));
    assert_eq!(contents[0].get("text"), Some(&text("hi")));
    assert_eq!(contents[0].get("mimeType"), Some(&text("text/plain")));
    assert!(contents[0].get("blob").is_none());
}

#[test]
fn resource_body_blob_shape() {
    let body =
        resource_contents_body("sftp://a.png", "a.png", &object(vec![("base64", text("//4="))]));
    let Some(Json::Array(contents)) = body.get("contents") else { panic!("contents array") };
    assert_eq!(contents[0].get("blob"), Some(&text("//4=")));
    assert_eq!(contents[0].get("mimeType"), Some(&text("image/png")));
    assert!(contents[0].get("text").is_none());
}

#[test]
fn resource_body_of_unknown_content_is_empty_text() {
    assert_eq!(
        resource_contents_body("u", "p", &object(vec![("text", Json::Number(1))])),
        object(vec![(
            "contents",
            Json::Array(vec![object(vec![("uri", text("u")), ("text", text(""))])])
        )])
    );
}
