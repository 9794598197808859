//! Binding profiles: which specs are accepted, and what they amount to.

use vstd::prelude::*;
use vstd::string::*;

use crate::json::opt_text;
use crate::sftp::clone_opt;
use crate::sftp::SftpConn;
use crate::surface::Surface;
use crate::surface::DEFAULT_URI_TEMPLATE;
use crate::text::blank;
use crate::text::contains_text;
use crate::text::is_blank;
use crate::text::occurs;
use crate::text::starts_with;
use crate::types::SftpBackendSpec;
use crate::types::SftpOp;

verus! {

/// Said of a password that names a per-caller credential.
pub const CRED_PASSWORD: &'static str =
    "password must not be a cred:// URI — per-caller credentials are unsupported; use ${env.X} / vault:// (resolved at config load)";

/// Said of a connection that does not say how server keys are judged.
pub const HOST_KEY_UNCONFIGURED: &'static str =
    "host key verification not configured — set host_key_sha256 (SHA256:…) or, for dev only, accept_unknown_host_key: true";

/// Why a binding could not be set up or used.
#[derive(Debug, PartialEq, Eq)]
pub enum BackendError {
    /// The spec is not acceptable.
    InvalidSpec { message: String },
    /// No profile of that name is registered.
    ProfileNotFound { backend_name: String },
    /// The connection failed.
    Transport { message: String },
}

/// What an error says.
pub enum ErrorView {
    InvalidSpec(Seq<char>),
    ProfileNotFound(Seq<char>),
    Transport(Seq<char>),
}

impl View for BackendError {
    type V = ErrorView;

    open spec fn view(&self) -> ErrorView {
        match *self {
            BackendError::InvalidSpec { message } => ErrorView::InvalidSpec(message@),
            BackendError::ProfileNotFound { backend_name } => ErrorView::ProfileNotFound(
                backend_name@,
            ),
            BackendError::Transport { message } => ErrorView::Transport(message@),
        }
    }
}

/// Per-binding runtime settings. A connection is opened per call.
#[derive(Debug)]
pub struct SftpProfile {
    pub op: SftpOp,
    pub conn: SftpConn,
    pub root: String,
    pub max_bytes: usize,
    pub timeout_ms: u64,
    pub surface: Surface,
    pub uri_template: String,
    pub static_uri: Option<String>,
}

impl Clone for SftpProfile {
    fn clone(&self) -> (r: SftpProfile)
        ensures
            r == *self,
    {
        SftpProfile {
            op: self.op,
            conn: self.conn.clone(),
            root: self.root.clone(),
            max_bytes: self.max_bytes,
            timeout_ms: self.timeout_ms,
            surface: self.surface,
            uri_template: self.uri_template.clone(),
            static_uri: clone_opt(&self.static_uri),
        }
    }
}

/// A password that can be used: there is one, and it is no per-caller credential.
pub open spec fn usable_password(password: Seq<char>) -> bool {
    password.len() > 0 && !"cred://"@.is_prefix_of(password)
}

/// The URI names the placeholder that file paths are put for.
pub open spec fn has_placeholder(uri: Seq<char>) -> bool {
    occurs(uri, "{path}"@)
}

impl SftpProfile {
    /// What holds of every registered profile.
    pub open spec fn valid(self) -> bool {
        &&& !blank(self.conn.host@)
        &&& !blank(self.conn.username@)
        &&& usable_password(self.conn.password@)
        &&& self.conn.verifies_host_key()
        &&& self.timeout_ms > 0
        &&& self.max_bytes > 0
        &&& self.surface is Tool ==> self.uri_template@ == DEFAULT_URI_TEMPLATE@
            && self.static_uri is None
        &&& self.static_uri is Some ==> !blank(self.static_uri->0@) && self.static_uri->0@
            == self.uri_template@ && !has_placeholder(self.uri_template@)
    }

    /// The profile is that of a spec: a `uri` with `{path}` is its template, one
    /// without pins a single resource, and without one the default template holds.
    pub open spec fn is_of(self, spec: SftpBackendSpec) -> bool {
        &&& self.op == spec.op
        &&& self.conn.host == spec.host
        &&& self.conn.port == spec.port
        &&& self.conn.username == spec.username
        &&& self.conn.password == spec.password
        &&& self.conn.host_key_sha256 == spec.host_key_sha256
        &&& self.conn.accept_unknown_host_key == spec.accept_unknown_host_key
        &&& self.root == spec.root
        &&& self.max_bytes == spec.max_bytes
        &&& self.timeout_ms == spec.timeout_ms
        &&& self.surface == spec.surface
        &&& match spec.uri {
            Some(uri) => self.uri_template@ == uri@ && opt_text(self.static_uri) == (
            if has_placeholder(uri@) {
                None
            } else {
                Some(uri@)
            }),
            None => self.uri_template@ == DEFAULT_URI_TEMPLATE@ && self.static_uri is None,
        }
    }
}

/// What is wrong with a spec: the first problem in the order of the checks.
pub open spec fn spec_problem(spec: SftpBackendSpec) -> Option<Seq<char>> {
    if blank(spec.host@) {
        Some("host must not be empty"@)
    } else if blank(spec.username@) {
        Some("username must not be empty"@)
    } else if spec.password@.len() == 0 {
        Some("password must not be empty (v1 is password auth)"@)
    } else if "cred://"@.is_prefix_of(spec.password@) {
        Some(CRED_PASSWORD@)
    } else if spec.timeout_ms == 0 {
        Some("timeout_ms must be greater than 0"@)
    } else if spec.max_bytes == 0 {
        Some("max_bytes must be greater than 0"@)
    } else if spec.uri is Some && !(spec.surface is Resource) {
        Some(
            "`uri` is only valid with `surface: resource` (this binding is `surface: "@
                + spec.surface.name() + "`)"@,
        )
    } else if spec.uri is Some && blank(spec.uri->0@) {
        Some("`uri` must not be empty"@)
    } else if spec.host_key_sha256 is None && !spec.accept_unknown_host_key {
        Some(HOST_KEY_UNCONFIGURED@)
    } else {
        None
    }
}

/// What is wrong with a spec.
pub fn find_spec_problem(spec: &SftpBackendSpec) -> (r: Option<String>)
    ensures
        opt_text(r) == spec_problem(*spec),
{
    if is_blank(spec.host.as_str()) {
        return Some("host must not be empty".to_owned());
    }
    if is_blank(spec.username.as_str()) {
        return Some("username must not be empty".to_owned());
    }
    if spec.password.as_str().is_empty() {
        return Some("password must not be empty (v1 is password auth)".to_owned());
    }
    if starts_with(spec.password.as_str(), "cred://") {
        return Some(CRED_PASSWORD.to_owned());
    }
    if spec.timeout_ms == 0 {
        return Some("timeout_ms must be greater than 0".to_owned());
    }
    if spec.max_bytes == 0 {
        return Some("max_bytes must be greater than 0".to_owned());
    }
    match &spec.uri {
        Some(uri) => {
            if spec.surface != Surface::Resource {
                let mut message =
                    "`uri` is only valid with `surface: resource` (this binding is `surface: ".to_owned();
                message.append(spec.surface.as_str());
                message.append("`)");
                return Some(message);
            }
            if is_blank(uri.as_str()) {
                return Some("`uri` must not be empty".to_owned());
            }
        },
        None => {},
    }
    if spec.host_key_sha256.is_none() && !spec.accept_unknown_host_key {
        return Some(HOST_KEY_UNCONFIGURED.to_owned());
    }
    None
}

/// Makes the profile of a spec, or says what is wrong with it.
pub fn build_profile(spec: SftpBackendSpec) -> (r: Result<SftpProfile, BackendError>)
    ensures
        match r {
            Ok(profile) => spec_problem(spec) is None && profile.is_of(spec) && profile.valid(),
            Err(error) => spec_problem(spec) is Some && error@ == ErrorView::InvalidSpec(
                spec_problem(spec)->0,
            ),
        },
{
    match find_spec_problem(&spec) {
        Some(message) => {
            return Err(BackendError::InvalidSpec { message });
        },
        None => {},
    }
    let (uri_template, static_uri) = match &spec.uri {
        Some(uri) => if contains_text(uri.as_str(), "{path}") {
            (uri.clone(), None)
        } else {
            (uri.clone(), Some(uri.clone()))
        },
        None => (DEFAULT_URI_TEMPLATE.to_owned(), None),
    };
    Ok(
        SftpProfile {
            op: spec.op,
            conn: SftpConn {
                host: spec.host,
                port: spec.port,
                username: spec.username,
                password: spec.password,
                host_key_sha256: spec.host_key_sha256,
                accept_unknown_host_key: spec.accept_unknown_host_key,
            },
            root: spec.root,
            max_bytes: spec.max_bytes,
            timeout_ms: spec.timeout_ms,
            surface: spec.surface,
            uri_template,
            static_uri,
        },
    )
}

}
