//! Paths, server keys, entries and contents.

use sftp_backend::arguments::extract_put_content;
use sftp_backend::arguments::CallArguments;
use sftp_backend::json::Json;
use sftp_backend::sftp::accept_read;
use sftp_backend::sftp::auth_outcome;
use sftp_backend::sftp::decode_content;
use sftp_backend::sftp::entry_to_json;
use sftp_backend::sftp::read_limit;
use sftp_backend::sftp::resolve_path;
use sftp_backend::sftp::ClientHandler;
use sftp_backend::sftp::SftpConn;

const KEY: &str = "ssh-ed25519 AAAAC3NzaC1lZDI1NTE5AAAAILM+rvN+ot98qgEN796jTiQfZfG1KaT0PtFDJ/XFSqti user@example.com";
const FINGERPRINT: &str = "SHA256:UCUiLr7Pjs9wFFJMDByLgc3NrtdU344OgUM45wZPcIQ";

fn key() -> russh::keys::ssh_key::PublicKey {
    russh::keys::ssh_key::PublicKey::from_openssh(KEY).unwrap()
}

fn conn(pinned: Option<&str>, any: bool) -> SftpConn {
    SftpConn {
        host: "h".to_owned(),
        port: 22,
        username: "u".to_owned(),
        password: "p".to_owned(),
        host_key_sha256: pinned.map(str::to_owned),
        accept_unknown_host_key: any,
    }
}

#[test]
fn resolve_rejects_traversal() {
    assert!(resolve_path("", "../etc/passwd").is_err());
    assert!(resolve_path("/home/svc", "a/../../b").is_err());
}

#[test]
fn resolve_joins_under_root() {
    assert_eq!(resolve_path("/upload", "report.csv").unwrap(), "/upload/report.csv");
    assert_eq!(resolve_path("/upload/", "/report.csv").unwrap(), "/upload/report.csv");
    assert_eq!(resolve_path("", "sub/file").unwrap(), "sub/file");
    assert_eq!(resolve_path("", "").unwrap(), ".");
    assert_eq!(resolve_path("/data", "").unwrap(), "/data");
}

#[test]
fn resolve_edges() {
    assert_eq!(resolve_path("", "..").unwrap_err(), "path must not contain '..' segments");
    assert!(resolve_path("/a", "b/..").is_err());
    assert!(resolve_path("/a", "/../b").is_err());
    assert_eq!(resolve_path("/a", "..b/c..").unwrap(), "/a/..b/c..");
    assert_eq!(resolve_path("/a", "...").unwrap(), "/a/...");
    assert_eq!(resolve_path("  ", "///x").unwrap(), "x");
    assert_eq!(resolve_path("/", "x").unwrap(), "/x");
    assert_eq!(resolve_path("/", "").unwrap(), "/");
    assert_eq!(resolve_path("//", "/").unwrap(), "/");
    assert_eq!(resolve_path("/a//", "//x//y/").unwrap(), "/a/x//y/");
    assert_eq!(resolve_path("../up", "x").unwrap(), "../up/x");
    assert_eq!(resolve_path("/ü", "ß").unwrap(), "/ü/ß");
}

#[test]
fn seam_slashes_do_not_matter() {
    for root in ["/up", "/up/", "/up//"] {
        for caller in ["a/b", "/a/b", "//a/b"] {
            assert_eq!(resolve_path(root, caller).unwrap(), "/up/a/b");
        }
    }
}

#[test]
fn decode_text_vs_base64() {
    assert_eq!(decode_content(b"hello").get_str("text"), Some("hello"));
    assert_eq!(decode_content(&[0xff, 0xfe]).get_str("base64"), Some("//4="));
}

#[test]
fn content_is_either_text_or_base64() {
    let text = decode_content("grüße\n".as_bytes());
    assert_eq!(text, Json::Object(vec![("text".to_owned(), Json::Text("grüße\n".to_owned()))]));
    let binary = decode_content(&[0x61, 0x80]);
    assert_eq!(binary, Json::Object(vec![("base64".to_owned(), Json::Text("YYA=".to_owned()))]));
    assert_eq!(decode_content(b"").get_str("text"), Some(""));
}

#[test]
fn content_that_is_read_can_be_written_back() {
    for data in [&b"plain"[..], &[0xff, 0x00, 0x80][..], &b""[..], "ü€😀".as_bytes()] {
        let content = decode_content(data);
        let args = CallArguments {
            path: None,
            uri: None,
            content: content.get_str("base64").map(str::to_owned),
            text: content.get_str("text").map(str::to_owned),
        };
        assert_eq!(extract_put_content(&args).unwrap(), data);
    }
}

#[test]
fn put_takes_base64_before_text() {
    let mut args = CallArguments::none();
    assert_eq!(
        extract_put_content(&args).unwrap_err(),
        "put requires a 'content' (base64) or 'text' argument"
    );
    args.text = Some("hé".to_owned());
    assert_eq!(extract_put_content(&args).unwrap(), "hé".as_bytes());
    args.content = Some("aGk=".to_owned());
    assert_eq!(extract_put_content(&args).unwrap(), b"hi");
    args.content = Some("a GK=".to_owned());
    let message = extract_put_content(&args).unwrap_err();
    assert!(message.starts_with("'content' is not valid base64: "));
    assert_eq!(message, "'content' is not valid base64: Invalid symbol 32, offset 1.");
    args.content = Some("aGk".to_owned());
    assert!(extract_put_content(&args).is_err());
}

#[test]
fn pinned_fingerprint_decides() {
    assert!(ClientHandler::new(&conn(Some(FINGERPRINT), false)).check_server_key(&key()));
    assert!(!ClientHandler::new(&conn(Some("SHA256:abc"), false)).check_server_key(&key()));
    assert!(!ClientHandler::new(&conn(Some(""), false)).check_server_key(&key()));
}

#[test]
fn host_key_check_fails_closed() {
    assert!(!ClientHandler::new(&conn(None, false)).check_server_key(&key()));
    assert!(!ClientHandler::new(&conn(None, false)).accepts_fingerprint(FINGERPRINT));
    assert!(ClientHandler::new(&conn(None, true)).check_server_key(&key()));
    assert!(!ClientHandler::new(&conn(Some("SHA256:abc"), true)).check_server_key(&key()));
    assert!(!ClientHandler::new(&conn(Some("SHA256:abc"), true)).accepts_fingerprint(FINGERPRINT));
    assert!(ClientHandler::new(&conn(Some(FINGERPRINT), true)).check_server_key(&key()));
    assert!(ClientHandler::new(&conn(None, true)).accepts_fingerprint("anything"));
    assert!(ClientHandler::new(&conn(Some(FINGERPRINT), false)).accepts_fingerprint(FINGERPRINT));
    assert!(!ClientHandler::new(&conn(Some(FINGERPRINT), false)).accepts_fingerprint("SHA256:x"));
}

#[test]
fn entries_show_what_the_server_tells() {
    let file = entry_to_json("report.csv", Some(4096), Some(33188), Some(1717977600));
    assert_eq!(
        file,
        Json::Object(vec![
            ("name".to_owned(), Json::Text("report.csv".to_owned())),
            ("type".to_owned(), Json::Text("file".to_owned())),
            ("size".to_owned(), Json::Number(4096)),
            ("permissions".to_owned(), Json::Number(33188)),
            ("mtime".to_owned(), Json::Number(1717977600)),
        ])
    );
    let bare = entry_to_json("x", None, None, None);
    assert_eq!(bare.get_str("type"), Some("file"));
    assert_eq!(bare.get("size"), Some(&Json::Null));
    assert_eq!(bare.get("permissions"), Some(&Json::Null));
    assert_eq!(bare.get("mtime"), Some(&Json::Null));
}

#[test]
fn entry_kind_goes_by_mode_bits() {
    let kind = |mode: u32| {
        entry_to_json("x", None, Some(mode), None).get_str("type").unwrap().to_owned()
    };
    assert_eq!(kind(0o040755), "dir");
    assert_eq!(kind(0o120777), "symlink");
    assert_eq!(kind(0o100644), "file");
    assert_eq!(kind(0), "file");
    assert_eq!(kind(0o060644), "dir");
    assert_eq!(kind(0o020644), "file");
    for mode in [0o040755u32, 0o120777, 0o100644, 0o060644, 0o140777, 0] {
        let attributes =
            russh_sftp::protocol::FileAttributes { permissions: Some(mode), ..Default::default() };
        let expected = if attributes.is_dir() {
            "dir"
        } else if attributes.is_symlink() {
            "symlink"
        } else {
            "file"
        };
        assert_eq!(kind(mode), expected);
    }
}

#[test]
fn reads_are_capped() {
    assert_eq!(read_limit(0), 1);
    assert_eq!(read_limit(10), 11);
    assert_eq!(read_limit(usize::MAX - 1), usize::MAX as u64);
    assert_eq!(read_limit(usize::MAX), u64::MAX);
    assert_eq!(accept_read(vec![1, 2, 3], 3).unwrap(), vec![1, 2, 3]);
    assert_eq!(accept_read(vec![1, 2, 3], 2).unwrap_err(), "file exceeds max_bytes (2)");
    assert_eq!(accept_read(vec![], 0).unwrap(), Vec::<u8>::new());
}

#[test]
fn one_byte_more_tells_a_large_file() {
    let file: Vec<u8> = (0..20).collect();
    for cap in 0..25usize {
        let limit = read_limit(cap) as usize;
        let read: Vec<u8> = file.iter().copied().take(limit).collect();
        match accept_read(read, cap) {
            Ok(data) => assert!(file.len() <= cap && data == file),
            Err(_) => assert!(file.len() > cap),
        }
    }
}

#[test]
fn rejected_password_is_told() {
    assert!(auth_outcome(true).is_ok());
    assert_eq!(
        auth_outcome(false).unwrap_err(),
        "SSH authentication rejected (bad username/password or host key)"
    );
}
