//! The decisions around an SFTP session: where a caller's path leads, whether a
//! server key is accepted, what a directory entry and a file's bytes look like
//! as JSON, and what is said when a step fails.

use vstd::prelude::*;
use vstd::string::*;
use vstd::utf8::*;

use crate::arguments::put_content;
use crate::arguments::ArgumentsView;
use crate::json::Json;
use crate::json::JsonView;
use crate::json::number_or_null;
use crate::json::opt_number_json;
use crate::json::opt_text;
use crate::json::put;
use crate::json::text;
use crate::text::after_last;
use crate::text::chars_of;
use crate::text::decimal;
use crate::text::decimal_text;
use crate::text::has_segment;
use crate::text::is_blank;
use crate::text::is_white_space;
use crate::text::last_at;
use crate::text::lemma_last_at;
use crate::text::lemma_segments_concat;
use crate::text::blank;
use crate::text::occurs;
use crate::text::occurs_at;
use crate::text::same_text;
use crate::text::segments;
use crate::text::starts_with;
use crate::text::string_of;
use crate::text::text_after_last;
use crate::text::trim_end;
use crate::text::trim_start;
use crate::text::trimmed_end;
use crate::text::trimmed_start;

verus! {

/// Per-connection settings.
#[derive(Debug)]
pub struct SftpConn {
    pub host: String,
    pub port: u16,
    pub username: String,
    pub password: String,
    pub host_key_sha256: Option<String>,
    pub accept_unknown_host_key: bool,
}

/// Copies an optional string.
pub fn clone_opt(s: &Option<String>) -> (r: Option<String>)
    ensures
        r == *s,
{
    match s {
        Some(s) => Some(s.clone()),
        None => None,
    }
}

impl Clone for SftpConn {
    fn clone(&self) -> (r: SftpConn)
        ensures
            r == *self,
    {
        SftpConn {
            host: self.host.clone(),
            port: self.port,
            username: self.username.clone(),
            password: self.password.clone(),
            host_key_sha256: clone_opt(&self.host_key_sha256),
            accept_unknown_host_key: self.accept_unknown_host_key,
        }
    }
}

impl SftpConn {
    /// The connection says how server keys are judged: by a pinned fingerprint
    /// or by accepting any.
    pub open spec fn verifies_host_key(self) -> bool {
        self.host_key_sha256 is Some || self.accept_unknown_host_key
    }
}

// ------------------------------------------------------------------- paths

/// A `/`-separated path has a `..` segment.
pub open spec fn climbs(path: Seq<char>) -> bool {
    segments(path, '/').contains(".."@)
}

/// Said of a path with a `..` segment.
pub const PATH_CLIMBS: &'static str = "path must not contain '..' segments";

/// The path of a root itself: without the slashes at its end, but for the root of
/// the server, which is one slash.
pub open spec fn root_itself(root: Seq<char>) -> Seq<char> {
    let base = trimmed_end(root, '/');
    if base.len() == 0 {
        "/"@
    } else {
        base
    }
}

/// The path that `caller` names under `root`; the empty path names the root itself.
pub open spec fn resolved(root: Seq<char>, caller: Seq<char>) -> Seq<char> {
    let rest = trimmed_start(caller, '/');
    if blank(root) {
        if rest.len() == 0 {
            "."@
        } else {
            rest
        }
    } else if rest.len() == 0 {
        root_itself(root)
    } else {
        trimmed_end(root, '/') + "/"@ + rest
    }
}

/// Resolves the caller path under `root`, rejecting `..` segments.
pub fn resolve_path(root: &str, caller: &str) -> (r: Result<String, String>)
    ensures
        match r {
            Ok(path) => !climbs(caller@) && path@ == resolved(root@, caller@),
            Err(message) => climbs(caller@) && message@ == PATH_CLIMBS@,
        },
{
    if has_segment(caller, '/', "..") {
        return Err(PATH_CLIMBS.to_owned());
    }
    let rest = trim_start(caller, '/');
    if is_blank(root) {
        if rest.as_str().is_empty() {
            Ok(".".to_owned())
        } else {
            Ok(rest)
        }
    } else {
        let base = trim_end(root, '/');
        if rest.as_str().is_empty() {
            if base.as_str().is_empty() {
                Ok("/".to_owned())
            } else {
                Ok(base)
            }
        } else {
            let mut path = base;
            path.append("/");
            path.append(rest.as_str());
            Ok(path)
        }
    }
}

/// How far one segment moves from a directory: `..` up, an empty segment and
/// `.` nowhere, any other down.
pub open spec fn segment_step(segment: Seq<char>) -> int {
    if segment == ".."@ {
        -1
    } else if segment.len() == 0 || segment == "."@ {
        0
    } else {
        1
    }
}

/// How far below its start a walk along the segments ends.
pub open spec fn walk_depth(path: Seq<Seq<char>>) -> int
    decreases path.len(),
{
    if path.len() == 0 {
        0
    } else {
        walk_depth(path.drop_last()) + segment_step(path.last())
    }
}

/// A walk along the segments is at no point above its start.
pub open spec fn never_leaves(path: Seq<Seq<char>>) -> bool {
    forall|k: int| 0 <= k <= path.len() ==> walk_depth(#[trigger] path.take(k)) >= 0
}

/// `path` is the root itself, or the root, a slash, and a relative path that at no
/// point leaves the root.
pub open spec fn lies_under(root: Seq<char>, path: Seq<char>) -> bool {
    let base = trimmed_end(root, '/');
    ||| path == root_itself(root)
    ||| {
        &&& (base + "/"@).is_prefix_of(path)
        &&& path.len() > base.len() + 1
        &&& path[base.len() as int + 1] != '/'
        &&& never_leaves(segments(path.skip(base.len() as int + 1), '/'))
    }
}

proof fn lemma_no_parent_never_leaves(path: Seq<Seq<char>>)
    requires
        !path.contains(".."@),
    ensures
        never_leaves(path),
        walk_depth(path) >= 0,
    decreases path.len(),
{
    if path.len() > 0 {
        let init = path.drop_last();
        assert(!init.contains(".."@)) by {
            if init.contains(".."@) {
                let k = choose|k: int| 0 <= k < init.len() && init[k] == ".."@;
                assert(path[k] == ".."@);
            }
        }
        lemma_no_parent_never_leaves(init);
        assert(path[path.len() - 1] != ".."@);
        assert forall|k: int| 0 <= k <= path.len() implies walk_depth(#[trigger] path.take(k))
            >= 0 by {
            if k == path.len() {
                assert(path.take(k) =~= path);
            } else {
                assert(path.take(k) =~= init.take(k));
            }
        }
    } else {
        assert forall|k: int| 0 <= k <= path.len() implies walk_depth(#[trigger] path.take(k))
            >= 0 by {
            assert(path.take(k) =~= path);
        }
    }
}

/// Dropping leading slashes drops segments and adds none.
proof fn lemma_trimmed_start_segments(s: Seq<char>, wanted: Seq<char>)
    requires
        !segments(s, '/').contains(wanted),
    ensures
        !segments(trimmed_start(s, '/'), '/').contains(wanted),
        trimmed_start(s, '/').len() > 0 ==> trimmed_start(s, '/')[0] != '/',
    decreases s.len(),
{
    if s.len() > 0 && s[0] == '/' {
        let rest = s.skip(1);
        assert(s =~= Seq::<char>::empty() + seq!['/'] + rest);
        lemma_segments_concat(Seq::empty(), rest, '/');
        assert(!segments(rest, '/').contains(wanted)) by {
            if segments(rest, '/').contains(wanted) {
                let k = choose|k: int|
                    0 <= k < segments(rest, '/').len() && segments(rest, '/')[k] == wanted;
                assert(segments(s, '/')[k + 1] == wanted);
            }
        }
        lemma_trimmed_start_segments(rest, wanted);
    }
}

/// A caller cannot escape `root`: whatever path is accepted, what it resolves
/// to is the root itself or lies under it, and without a root it is a relative
/// path that never leaves the login's directory.
pub proof fn law_resolved_path_stays_under_root(root: Seq<char>, caller: Seq<char>)
    requires
        !climbs(caller),
    ensures
        blank(root) ==> {
            let path = resolved(root, caller);
            path.len() > 0 && path[0] != '/' && never_leaves(segments(path, '/'))
        },
        !blank(root) ==> lies_under(root, resolved(root, caller)),
{
    reveal_strlit("..");
    reveal_strlit(".");
    reveal_strlit("/");
    lemma_trimmed_start_segments(caller, ".."@);
    let rest = trimmed_start(caller, '/');
    lemma_no_parent_never_leaves(segments(rest, '/'));
    if blank(root) {
        if rest.len() == 0 {
            let dot = "."@;
            assert(dot =~= seq!['.']);
            assert(dot.drop_last() =~= Seq::<char>::empty());
            assert(segments(dot.drop_last(), '/') =~= seq![Seq::<char>::empty()]);
            assert(segments(dot, '/') =~= seq![dot]);
            assert(dot != ".."@) by {
                assert(dot.len() != ".."@.len());
            }
            assert(!segments(dot, '/').contains(".."@));
            lemma_no_parent_never_leaves(segments(dot, '/'));
        }
    } else if rest.len() > 0 {
        let base = trimmed_end(root, '/');
        let path = resolved(root, caller);
        assert(path.skip(base.len() as int + 1) =~= rest);
        assert((base + "/"@).is_prefix_of(path));
        assert(path[base.len() as int + 1] == rest[0]);
    }
}

/// Slashes at the seam do not matter: not at the start of the caller's path,
/// and not at the end of a root.
pub proof fn law_seam_slashes_do_not_matter(root: Seq<char>, caller: Seq<char>)
    ensures
        resolved(root, seq!['/'] + caller) == resolved(root, caller),
        climbs(seq!['/'] + caller) == climbs(caller),
        !blank(root) ==> resolved(root.push('/'), caller) == resolved(root, caller),
{
    let slashed = seq!['/'] + caller;
    assert(slashed.skip(1) =~= caller);
    assert(slashed =~= Seq::<char>::empty() + seq!['/'] + caller);
    lemma_segments_concat(Seq::empty(), caller, '/');
    reveal_strlit("..");
    let inner = segments(caller, '/');
    let outer = segments(slashed, '/');
    assert(outer =~= seq![Seq::<char>::empty()] + inner);
    if inner.contains(".."@) {
        let k = choose|k: int| 0 <= k < inner.len() && inner[k] == ".."@;
        assert(outer[k + 1] == ".."@);
    }
    if outer.contains(".."@) {
        let k = choose|k: int| 0 <= k < outer.len() && outer[k] == ".."@;
        assert(k > 0) by {
            assert(outer[0].len() == 0);
        }
        assert(inner[k - 1] == ".."@);
    }
    if !blank(root) {
        let longer = root.push('/');
        assert(longer.drop_last() =~= root);
        assert(!blank(longer)) by {
            let i = choose|i: int| 0 <= i < root.len() && !is_white_space(#[trigger] root[i]);
            assert(longer[i] == root[i]);
        }
    }
}

// --------------------------------------------------------------- host keys

/// An SSH public key, as the server presents it.
#[verifier::external_type_specification]
#[verifier::external_body]
pub struct ExPublicKey(russh::keys::ssh_key::PublicKey);

/// A public key's SHA-256 fingerprint, written `SHA256:` and base64.
pub uninterp spec fn sha256_fingerprint(key: russh::keys::ssh_key::PublicKey) -> Seq<char>;

/// `PublicKey::fingerprint` with SHA-256, written out by its `Display`, is the
/// key's fingerprint, which [`sha256_fingerprint`] names.
#[verifier::external_body]
fn fingerprint_text(key: &russh::keys::ssh_key::PublicKey) -> (r: String)
    ensures
        r@ == sha256_fingerprint(*key),
{
    key.fingerprint(russh::keys::ssh_key::HashAlg::Sha256).to_string()
}

/// How a connection judges the key that the server presents.
#[derive(Debug)]
pub struct ClientHandler {
    pub expected_fingerprint: Option<String>,
    pub accept_any: bool,
}

impl ClientHandler {
    /// The judge that a connection's settings ask for.
    pub fn new(conn: &SftpConn) -> (r: ClientHandler)
        ensures
            r.expected_fingerprint == conn.host_key_sha256,
            r.accept_any == conn.accept_unknown_host_key,
    {
        ClientHandler {
            expected_fingerprint: clone_opt(&conn.host_key_sha256),
            accept_any: conn.accept_unknown_host_key,
        }
    }

    /// A key of this fingerprint is accepted: where a fingerprint is pinned, the key
    /// has to match it; where none is, any key is accepted or none.
    pub open spec fn trusts(self, fingerprint: Seq<char>) -> bool {
        match self.expected_fingerprint {
            Some(expected) => expected@ == fingerprint,
            None => self.accept_any,
        }
    }

    /// Whether a key of this fingerprint is accepted.
    pub fn accepts_fingerprint(&self, fingerprint: &str) -> (r: bool)
        ensures
            r == self.trusts(fingerprint@),
    {
        match &self.expected_fingerprint {
            Some(expected) => same_text(fingerprint, expected.as_str()),
            None => self.accept_any,
        }
    }

    /// Whether the key that the server presents is accepted.
    pub fn check_server_key(&self, key: &russh::keys::ssh_key::PublicKey) -> (r: bool)
        ensures
            r == self.trusts(sha256_fingerprint(*key)),
    {
        if self.expected_fingerprint.is_none() {
            return self.accept_any;
        }
        let actual = fingerprint_text(key);
        self.accepts_fingerprint(actual.as_str())
    }
}

/// Host-key verification fails closed: with a pinned fingerprint only the key of that
/// fingerprint is accepted, whatever the opt-in says, and without one no key is,
/// unless the opt-in is explicit.
pub proof fn law_host_key_fails_closed(handler: ClientHandler, fingerprint: Seq<char>)
    ensures
        handler.expected_fingerprint matches Some(expected) ==> (handler.trusts(fingerprint)
            <==> expected@ == fingerprint),
        handler.expected_fingerprint is None ==> (handler.trusts(fingerprint)
            <==> handler.accept_any),
{
}

// ----------------------------------------------------- entries and contents

/// The mode bits mark a directory.
pub open spec fn mode_is_dir(permissions: Option<u32>) -> bool {
    permissions matches Some(mode) && mode & 0x4000 == 0x4000
}

/// The mode bits mark a symbolic link.
pub open spec fn mode_is_symlink(permissions: Option<u32>) -> bool {
    permissions matches Some(mode) && mode & 0xa000 == 0xa000
}

/// `FileAttributes::is_dir` holds of attributes whose permissions have the
/// directory bit.
#[verifier::external_body]
fn attributes_is_dir(permissions: Option<u32>) -> (r: bool)
    ensures
        r == mode_is_dir(permissions),
{
    russh_sftp::protocol::FileAttributes { permissions, ..Default::default() }.is_dir()
}

/// `FileAttributes::is_symlink` holds of attributes whose permissions have both
/// bits of a symbolic link.
#[verifier::external_body]
fn attributes_is_symlink(permissions: Option<u32>) -> (r: bool)
    ensures
        r == mode_is_symlink(permissions),
{
    russh_sftp::protocol::FileAttributes { permissions, ..Default::default() }.is_symlink()
}

/// The kind of a directory entry, by its mode bits.
pub open spec fn entry_kind(permissions: Option<u32>) -> Seq<char> {
    if mode_is_dir(permissions) {
        "dir"@
    } else if mode_is_symlink(permissions) {
        "symlink"@
    } else {
        "file"@
    }
}

/// A directory entry as JSON; what the server does not tell is `null`.
pub open spec fn entry_view(
    name: Seq<char>,
    size: Option<u64>,
    permissions: Option<u32>,
    mtime: Option<u32>,
) -> JsonView {
    JsonView::Object(
        map![
            "name"@ => JsonView::Text(name),
            "type"@ => JsonView::Text(entry_kind(permissions)),
            "size"@ => number_or_null(match size { Some(n) => Some(n as nat), None => None }),
            "permissions"@ => number_or_null(
                match permissions { Some(n) => Some(n as nat), None => None },
            ),
            "mtime"@ => number_or_null(match mtime { Some(n) => Some(n as nat), None => None }),
        ],
    )
}

/// What a directory entry holds under each of its names.
pub proof fn lemma_entry_members(
    name: Seq<char>,
    size: Option<u64>,
    permissions: Option<u32>,
    mtime: Option<u32>,
)
    ensures
        ({
            let entry = entry_view(name, size, permissions, mtime);
            &&& entry.member("name"@) == Some(JsonView::Text(name))
            &&& entry.member("type"@) == Some(JsonView::Text(entry_kind(permissions)))
            &&& entry.member("size"@) == Some(
                number_or_null(match size { Some(n) => Some(n as nat), None => None }),
            )
            &&& entry.member("mtime"@) == Some(
                number_or_null(match mtime { Some(n) => Some(n as nat), None => None }),
            )
        }),
{
    reveal_strlit("name");
    reveal_strlit("type");
    reveal_strlit("size");
    reveal_strlit("permissions");
    reveal_strlit("mtime");
    assert("name"@[0] == 'n' && "type"@[0] == 't' && "size"@[0] == 's' && "permissions"@[0] == 'p'
        && "mtime"@[0] == 'm');
}

/// Projects a directory entry to JSON.
pub fn entry_to_json(
    name: &str,
    size: Option<u64>,
    permissions: Option<u32>,
    mtime: Option<u32>,
) -> (r: Json)
    ensures
        r@ == entry_view(name@, size, permissions, mtime),
{
    let kind = if attributes_is_dir(permissions) {
        "dir"
    } else if attributes_is_symlink(permissions) {
        "symlink"
    } else {
        "file"
    };
    let permissions: Option<u64> = match permissions {
        Some(n) => Some(n as u64),
        None => None,
    };
    let mtime: Option<u64> = match mtime {
        Some(n) => Some(n as u64),
        None => None,
    };
    let mut members: Vec<(String, Json)> = Vec::new();
    put(&mut members, "name", text(name));
    put(&mut members, "type", text(kind));
    put(&mut members, "size", opt_number_json(size));
    put(&mut members, "permissions", opt_number_json(permissions));
    put(&mut members, "mtime", opt_number_json(mtime));
    Json::Object(members)
}

/// The standard base64 form of bytes, with padding.
pub uninterp spec fn base64_encoding(data: Seq<u8>) -> Seq<char>;

/// The bytes that a standard base64 text stands for, or why it stands for none.
pub uninterp spec fn base64_decoding(text: Seq<char>) -> Result<Seq<u8>, Seq<char>>;

/// How many characters the padded base64 form of `n` bytes has.
pub open spec fn base64_len(n: nat) -> nat {
    (n + 2) / 3 * 4
}

/// The `encode` of `base64`'s standard engine gives the base64 form of the
/// bytes, which [`base64_encoding`] names, and the same engine's `decode` turns
/// that back into the bytes. Its length has to fit an allocation.
#[verifier::external_body]
fn encode_base64(data: &[u8]) -> (r: String)
    requires
        base64_len(data@.len()) <= isize::MAX,
    ensures
        r@ == base64_encoding(data@),
        base64_decoding(r@) is Ok && base64_decoding(r@)->Ok_0 == data@,
{
    base64::Engine::encode(&base64::engine::general_purpose::STANDARD, data)
}

/// The `decode` of `base64`'s standard engine gives the bytes that the text
/// stands for, or an error; [`base64_decoding`] names which, with the error's
/// own words.
#[verifier::external_body]
pub(crate) fn decode_base64(text: &str) -> (r: Result<Vec<u8>, String>)
    ensures
        match r {
            Ok(data) => base64_decoding(text@) == Ok::<Seq<u8>, Seq<char>>(data@),
            Err(reason) => base64_decoding(text@) == Err::<Seq<u8>, Seq<char>>(reason@),
        },
{
    base64::Engine::decode(&base64::engine::general_purpose::STANDARD, text).map_err(
        |e| e.to_string(),
    )
}

/// `str::from_utf8` gives the text of bytes that are valid UTF-8, and fails on
/// all others.
#[verifier::external_body]
fn utf8_text(data: &[u8]) -> (r: Option<&str>)
    ensures
        match r {
            Some(s) => valid_utf8(data@) && encode_utf8(s@) == data@,
            None => !valid_utf8(data@),
        },
{
    std::str::from_utf8(data).ok()
}

/// File bytes as JSON: text where they are UTF-8, base64 where they are not.
pub open spec fn content_view(data: Seq<u8>) -> JsonView {
    if valid_utf8(data) {
        JsonView::Object(map!["text"@ => JsonView::Text(decode_utf8(data))])
    } else {
        JsonView::Object(map!["base64"@ => JsonView::Text(base64_encoding(data))])
    }
}

/// The bytes can be shown: as text, or as base64 whose length fits memory.
pub open spec fn presentable(data: Seq<u8>) -> bool {
    valid_utf8(data) || base64_len(data.len()) <= isize::MAX
}

/// The arguments of a `put` that hand back the content of a read.
pub open spec fn written_back(content: JsonView) -> ArgumentsView {
    ArgumentsView {
        path: None,
        uri: None,
        content: content.text_member("base64"@),
        text: content.text_member("text"@),
    }
}

/// Decodes file bytes for the envelope. What it gives stands for exactly the
/// bytes: a `put` that hands it back writes them again.
pub fn decode_content(data: &[u8]) -> (r: Json)
    requires
        presentable(data@),
    ensures
        r@ == content_view(data@),
        put_content(written_back(r@)) == Ok::<Seq<u8>, Seq<char>>(data@),
{
    proof {
        reveal_strlit("text");
        reveal_strlit("base64");
        assert("text"@.len() != "base64"@.len());
    }
    let mut members: Vec<(String, Json)> = Vec::new();
    match utf8_text(data) {
        Some(s) => {
            proof {
                encode_utf8_decode_utf8(s@);
            }
            put(&mut members, "text", text(s));
        },
        None => {
            let encoded = encode_base64(data);
            put(&mut members, "base64", text(encoded.as_str()));
        },
    }
    Json::Object(members)
}

// ---------------------------------------------------------------- failures

/// The steps of opening a session.
#[derive(Debug, Clone, Copy, PartialEq, Eq, Structural)]
pub enum SessionStep {
    Connect,
    Auth,
    ChannelOpen,
    Subsystem,
    SessionInit,
}

impl SessionStep {
    /// What is said first when the step fails.
    pub open spec fn failure(self) -> Seq<char> {
        match self {
            SessionStep::Connect => "SSH connect failed: "@,
            SessionStep::Auth => "SSH auth failed: "@,
            SessionStep::ChannelOpen => "SSH channel open failed: "@,
            SessionStep::Subsystem => "SFTP subsystem request failed: "@,
            SessionStep::SessionInit => "SFTP session init failed: "@,
        }
    }
}

/// The message of a failed step of opening a session.
pub fn session_failure(step: SessionStep, detail: &str) -> (r: String)
    ensures
        r@ == step.failure() + detail@,
{
    let mut message = match step {
        SessionStep::Connect => "SSH connect failed: ".to_owned(),
        SessionStep::Auth => "SSH auth failed: ".to_owned(),
        SessionStep::ChannelOpen => "SSH channel open failed: ".to_owned(),
        SessionStep::Subsystem => "SFTP subsystem request failed: ".to_owned(),
        SessionStep::SessionInit => "SFTP session init failed: ".to_owned(),
    };
    message.append(detail);
    message
}

/// Said where the server rejects the password.
pub const AUTH_REJECTED: &'static str =
    "SSH authentication rejected (bad username/password or host key)";

/// What the server's answer to the password means.
pub fn auth_outcome(accepted: bool) -> (r: Result<(), String>)
    ensures
        accepted ==> r is Ok,
        !accepted ==> r is Err && r->Err_0@ == AUTH_REJECTED@,
{
    if accepted {
        Ok(())
    } else {
        Err(AUTH_REJECTED.to_owned())
    }
}

/// The steps of the operations on a path.
#[derive(Debug, Clone, Copy, PartialEq, Eq, Structural)]
pub enum FileStep {
    List,
    Open,
    Read,
    Create,
    Write,
    Flush,
    Close,
}

impl FileStep {
    /// The step's name in messages.
    pub open spec fn name(self) -> Seq<char> {
        match self {
            FileStep::List => "list"@,
            FileStep::Open => "open"@,
            FileStep::Read => "read"@,
            FileStep::Create => "create"@,
            FileStep::Write => "write"@,
            FileStep::Flush => "flush"@,
            FileStep::Close => "close"@,
        }
    }

    /// The step's name in messages.
    pub fn as_str(self) -> (r: &'static str)
        ensures
            r@ == self.name(),
    {
        match self {
            FileStep::List => "list",
            FileStep::Open => "open",
            FileStep::Read => "read",
            FileStep::Create => "create",
            FileStep::Write => "write",
            FileStep::Flush => "flush",
            FileStep::Close => "close",
        }
    }
}

/// What is said first of a failed step on a path, up to the path.
pub open spec fn file_head(step: FileStep) -> Seq<char> {
    "SFTP "@ + step.name() + " '"@
}

/// Said between the path and the detail of a failed step.
pub const FILE_SEAM: &'static str = "' failed: ";

/// What is said of a failed step on `path`.
pub open spec fn file_message(step: FileStep, path: Seq<char>, detail: Seq<char>) -> Seq<char> {
    file_head(step) + path + FILE_SEAM@ + detail
}

/// The detail in a message on this step; none where the message is no such message.
pub open spec fn detail_under(step: FileStep, message: Seq<char>) -> Option<Seq<char>> {
    if file_head(step).is_prefix_of(message) {
        after_last(message.skip(file_head(step).len() as int), FILE_SEAM@)
    } else {
        None
    }
}

/// The detail in a message on a failed step on a path; none in any other message.
pub open spec fn file_detail(message: Seq<char>) -> Option<Seq<char>> {
    if exists|step: FileStep| #[trigger] detail_under(step, message) is Some {
        detail_under(choose|step: FileStep| #[trigger] detail_under(step, message) is Some, message)
    } else {
        None
    }
}

/// The message of a failed step on `path`.
pub fn file_failure(step: FileStep, path: &str, detail: &str) -> (r: String)
    ensures
        r@ == file_message(step, path@, detail@),
{
    let mut message = head_text(step);
    message.append(path);
    message.append(FILE_SEAM);
    message.append(detail);
    message
}

/// What is said first of a failed step on a path.
fn head_text(step: FileStep) -> (r: String)
    ensures
        r@ == file_head(step),
{
    let mut head = "SFTP ".to_owned();
    head.append(step.as_str());
    head.append(" '");
    head
}

/// How what is said first of a step begins.
pub proof fn lemma_file_heads(step: FileStep)
    ensures
        ({
            let head = file_head(step);
            &&& head.len() >= 11
            &&& head[0] == 'S' && head[1] == 'F' && head[2] == 'T' && head[3] == 'P'
            &&& head[4] == ' '
            &&& head[5] == (match step {
                FileStep::List => 'l',
                FileStep::Open => 'o',
                FileStep::Read => 'r',
                FileStep::Create => 'c',
                FileStep::Write => 'w',
                FileStep::Flush => 'f',
                FileStep::Close => 'c',
            })
            &&& step is Create ==> head[6] == 'r'
            &&& step is Close ==> head[6] == 'l'
            &&& step is Open ==> head[8] == 'n'
        }),
{
    reveal_strlit("SFTP ");
    reveal_strlit("list");
    reveal_strlit("open");
    reveal_strlit("read");
    reveal_strlit("create");
    reveal_strlit("write");
    reveal_strlit("flush");
    reveal_strlit("close");
    reveal_strlit(" '");
}

/// A message is on one step at most.
proof fn lemma_one_step(step: FileStep, message: Seq<char>)
    requires
        detail_under(step, message) is Some,
    ensures
        file_detail(message) == detail_under(step, message),
{
    let chosen = choose|other: FileStep| #[trigger] detail_under(other, message) is Some;
    assert(detail_under(chosen, message) is Some);
    lemma_file_heads(step);
    lemma_file_heads(chosen);
    assert(file_head(step)[5] == message[5] && file_head(chosen)[5] == message[5]);
    assert(file_head(step)[6] == message[6] && file_head(chosen)[6] == message[6]);
    assert(chosen == step);
}

/// A message that begins as that of no step has no detail.
pub proof fn lemma_no_detail(message: Seq<char>)
    requires
        forall|step: FileStep| !(#[trigger] file_head(step)).is_prefix_of(message),
    ensures
        file_detail(message) is None,
{
    assert forall|step: FileStep| (#[trigger] detail_under(step, message)) is None by {
        assert(!file_head(step).is_prefix_of(message));
    }
}

/// A seam that was put in is the last one, where what follows does not hold another
/// and the seam does not hold its first character again.
proof fn lemma_seam_is_last(path: Seq<char>, seam: Seq<char>, detail: Seq<char>)
    requires
        seam.len() > 0,
        forall|k: int| 0 < k < seam.len() ==> #[trigger] seam[k] != seam[0],
        !occurs(detail, seam),
    ensures
        after_last(path + seam + detail, seam) == Some(detail),
{
    let body = path + seam + detail;
    let n = path.len() as int;
    assert(body.subrange(n, n + seam.len()) =~= seam);
    assert(occurs_at(body, seam, n));
    lemma_last_at(body, seam, body.len() as int);
    let at = last_at(body, seam, body.len() as int)->0;
    if at > n {
        let found = body.subrange(at, at + seam.len());
        assert(found[0] == body[at]);
        if at < n + seam.len() {
            assert(body[at] == seam[at - n]);
        } else {
            let from = at - n - seam.len();
            assert(detail.subrange(from, from + seam.len()) =~= found);
            assert(occurs_at(detail, seam, from));
        }
    }
    assert(body.skip(n + seam.len()) =~= detail);
}

/// The seam does not hold its first character again.
proof fn lemma_seam_holds_one_quote()
    ensures
        FILE_SEAM@.len() > 0,
        forall|k: int| 0 < k < FILE_SEAM@.len() ==> #[trigger] FILE_SEAM@[k] != FILE_SEAM@[0],
{
    reveal_strlit("' failed: ");
}

/// A text without the seam is no message on a step.
proof fn lemma_no_seam_no_detail(step: FileStep, text: Seq<char>)
    requires
        !occurs(text, FILE_SEAM@),
    ensures
        detail_under(step, text) is None,
{
    if detail_under(step, text) is Some {
        let seam = FILE_SEAM@;
        let skipped = file_head(step).len() as int;
        let rest = text.skip(skipped);
        lemma_last_at(rest, seam, rest.len() as int);
        let i = last_at(rest, seam, rest.len() as int)->0;
        assert(text.subrange(skipped + i, skipped + i + seam.len()) =~= rest.subrange(
            i,
            i + seam.len(),
        ));
        assert(occurs_at(text, seam, skipped + i));
    }
}

/// The detail of a message is found again, whatever the path, where the detail does
/// not itself hold the seam.
pub proof fn lemma_detail_is_found(step: FileStep, path: Seq<char>, detail: Seq<char>)
    requires
        !occurs(detail, FILE_SEAM@),
    ensures
        file_detail(file_message(step, path, detail)) == Some(detail),
        file_detail(detail) is None,
{
    let head = file_head(step);
    let message = file_message(step, path, detail);
    let body = path + FILE_SEAM@ + detail;
    assert(message =~= head + body);
    assert(message.skip(head.len() as int) =~= body);
    lemma_seam_holds_one_quote();
    lemma_seam_is_last(path, FILE_SEAM@, detail);
    lemma_one_step(step, message);
    assert forall|other: FileStep| (#[trigger] detail_under(other, detail)) is None by {
        lemma_no_seam_no_detail(other, detail);
    }
}

/// Finds the detail in a message on this step.
fn find_detail_under(step: FileStep, message: &str) -> (r: Option<String>)
    ensures
        opt_text(r) == detail_under(step, message@),
{
    let head = head_text(step);
    if !starts_with(message, head.as_str()) {
        return None;
    }
    let body = text_from(message, head.as_str());
    text_after_last(body.as_str(), FILE_SEAM)
}

/// What follows a prefix of the message.
fn text_from(message: &str, prefix: &str) -> (r: String)
    requires
        prefix@.is_prefix_of(message@),
    ensures
        r@ == message@.skip(prefix@.len() as int),
{
    let chars = chars_of(message);
    let skipped = chars_of(prefix).len();
    let rest = string_of(&chars, skipped, chars.len());
    assert(rest@ =~= message@.skip(prefix@.len() as int));
    rest
}

/// Finds the detail in a message on a failed step on a path.
pub fn find_file_detail(message: &str) -> (r: Option<String>)
    ensures
        opt_text(r) == file_detail(message@),
{
    let steps: [FileStep; 7] = [
        FileStep::List,
        FileStep::Open,
        FileStep::Read,
        FileStep::Create,
        FileStep::Write,
        FileStep::Flush,
        FileStep::Close,
    ];
    let mut i: usize = 0;
    while i < 7
        invariant
            i <= 7,
            steps@ == seq![
                FileStep::List,
                FileStep::Open,
                FileStep::Read,
                FileStep::Create,
                FileStep::Write,
                FileStep::Flush,
                FileStep::Close,
            ],
            forall|j: int| 0 <= j < i ==> detail_under(#[trigger] steps@[j], message@) is None,
        decreases 7 - i,
    {
        let found = find_detail_under(steps[i], message);
        if found.is_some() {
            proof {
                lemma_one_step(steps@[i as int], message@);
            }
            return found;
        }
        i = i + 1;
    }
    assert forall|step: FileStep| (#[trigger] detail_under(step, message@)) is None by {
        let k: int = match step {
            FileStep::List => 0,
            FileStep::Open => 1,
            FileStep::Read => 2,
            FileStep::Create => 3,
            FileStep::Write => 4,
            FileStep::Flush => 5,
            FileStep::Close => 6,
        };
        assert(steps@[k] == step);
    }
    None
}

// ------------------------------------------------------------------- sizes

/// How many bytes of a file are read at most: one more than the cap, to tell a file
/// that exceeds it. No file exceeds the largest cap, whose limit is the cap itself.
pub open spec fn limit_of(max_bytes: nat) -> nat {
    if max_bytes < u64::MAX {
        max_bytes + 1
    } else {
        u64::MAX as nat
    }
}

/// How many bytes of a file are read at most.
pub fn read_limit(max_bytes: usize) -> (r: u64)
    ensures
        r == limit_of(max_bytes as nat),
{
    if (max_bytes as u64) < u64::MAX {
        max_bytes as u64 + 1
    } else {
        u64::MAX
    }
}

/// The one byte more tells: of a file that is read up to the limit, what was read
/// exceeds the cap exactly where the file does, and is otherwise the whole file. The
/// size of a file fits 64 bits.
pub proof fn law_one_byte_more_tells(file: Seq<u8>, max_bytes: usize)
    requires
        file.len() <= u64::MAX,
    ensures
        ({
            let limit = limit_of(max_bytes as nat);
            let read = if file.len() <= limit {
                file
            } else {
                file.take(limit as int)
            };
            &&& (read.len() > max_bytes) == (file.len() > max_bytes)
            &&& file.len() <= max_bytes ==> read == file
        }),
{
}

/// The message on a size above the cap, after what exceeds it.
pub open spec fn cap_message(what: Seq<char>, max_bytes: nat) -> Seq<char> {
    what + " exceeds max_bytes ("@ + decimal(max_bytes) + ")"@
}

/// The message on a size above the cap.
pub fn cap_exceeded(what: &str, max_bytes: usize) -> (r: String)
    ensures
        r@ == cap_message(what@, max_bytes as nat),
{
    let mut message = what.to_owned();
    message.append(" exceeds max_bytes (");
    message.append(decimal_text(max_bytes as u128).as_str());
    message.append(")");
    message
}

/// Accepts what was read of a file, unless it exceeds the cap.
pub fn accept_read(data: Vec<u8>, max_bytes: usize) -> (r: Result<Vec<u8>, String>)
    ensures
        match r {
            Ok(read) => read@ == data@ && data@.len() <= max_bytes,
            Err(message) => data@.len() > max_bytes && message@ == cap_message(
                "file"@,
                max_bytes as nat,
            ),
        },
{
    if data.len() > max_bytes {
        Err(cap_exceeded("file", max_bytes))
    } else {
        Ok(data)
    }
}

}
