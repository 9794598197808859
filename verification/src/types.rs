//! Operator-facing spec of an SFTP binding.
//!
//! One binding is one operation is one MCP tool (or resource): `op: list` lists
//! a directory, `op: get` reads a file, `op: put` writes a file. The target path
//! comes from the call arguments, joined under the configured `root`.

use vstd::prelude::*;

use crate::sftp::clone_opt;
use crate::surface::Surface;

verus! {

/// The file operation a binding performs.
#[derive(Debug, Clone, Copy, PartialEq, Eq, Structural)]
pub enum SftpOp {
    /// List a directory's entries.
    List,
    /// Read a file's contents.
    Get,
    /// Write a file (content from the `content`/`text` argument).
    Put,
}

impl Default for SftpOp {
    fn default() -> (r: SftpOp)
        ensures
            r == SftpOp::List,
    {
        SftpOp::List
    }
}

impl SftpOp {
    /// The operation's name in specs and envelopes.
    pub open spec fn name(self) -> Seq<char> {
        match self {
            SftpOp::List => "list"@,
            SftpOp::Get => "get"@,
            SftpOp::Put => "put"@,
        }
    }

    /// The operation's name in specs and envelopes.
    pub fn as_str(self) -> (r: &'static str)
        ensures
            r@ == self.name(),
    {
        match self {
            SftpOp::List => "list",
            SftpOp::Get => "get",
            SftpOp::Put => "put",
        }
    }
}

/// Operator-facing spec of one binding, as the gateway hands it over at
/// registration.
#[derive(Debug)]
pub struct SftpBackendSpec {
    /// The operation (default `list`).
    pub op: SftpOp,
    /// SSH host.
    pub host: String,
    /// SSH port (default 22).
    pub port: u16,
    /// SSH login user.
    pub username: String,
    /// SSH password: a literal, or a reference resolved at config load.
    pub password: String,
    /// Base directory the caller-supplied path is joined under (default `""`,
    /// the login's default directory).
    pub root: String,
    /// Expected server host-key fingerprint (`SHA256:...`). When set, the connection
    /// is rejected unless the server key matches.
    pub host_key_sha256: Option<String>,
    /// Accept any (unverified) server host key. For development only: leave it unset
    /// and pin the fingerprint instead. With neither, the spec is refused.
    pub accept_unknown_host_key: bool,
    /// Cap on bytes read (`get`) or written (`put`) (default 10 MiB).
    pub max_bytes: usize,
    /// Per-call timeout in milliseconds (default 15 s).
    pub timeout_ms: u64,
    /// Which MCP surface the binding serves (default `tool`).
    pub surface: Surface,
    /// Resource URI template for the resource surface; `{path}` is replaced by each
    /// file's path under `root` (default `sftp://{path}`). A value without `{path}`
    /// pins a single resource. Only valid on the resource surface.
    pub uri: Option<String>,
}

impl Clone for SftpBackendSpec {
    fn clone(&self) -> (r: SftpBackendSpec)
        ensures
            r == *self,
    {
        SftpBackendSpec {
            op: self.op,
            host: self.host.clone(),
            port: self.port,
            username: self.username.clone(),
            password: self.password.clone(),
            root: self.root.clone(),
            host_key_sha256: clone_opt(&self.host_key_sha256),
            accept_unknown_host_key: self.accept_unknown_host_key,
            max_bytes: self.max_bytes,
            timeout_ms: self.timeout_ms,
            surface: self.surface,
            uri: clone_opt(&self.uri),
        }
    }
}

/// The SSH port of a spec that names none.
pub fn default_port() -> (r: u16)
    ensures
        r == 22,
{
    22
}

/// The byte cap of a spec that names none: 10 MiB.
pub fn default_max_bytes() -> (r: usize)
    ensures
        r == 10 * 1024 * 1024,
{
    10 * 1024 * 1024
}

/// The timeout of a spec that names none: 15 seconds.
pub fn default_timeout_ms() -> (r: u64)
    ensures
        r == 15_000,
{
    15_000
}

}
