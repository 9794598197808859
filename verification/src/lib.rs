//! SFTP (SSH file transfer) backend binding.
//!
//! A binding lists a directory, reads a file or writes a file on an SFTP server, as
//! a tool or as resources of a gateway; a watch polls a directory for changes. This
//! crate decides everything about them but talks to no server: what a spec amounts
//! to, what a call is to do, whether a server key is accepted, what is answered to a
//! result, what is counted and audited, and when a watch tells a change. Whoever runs
//! the connections hands the server's replies in and takes the answers out.
//!
//! - [`types`] and [`profile`]: the spec of a binding, and the profile it amounts to.
//! - [`backend`]: the registered profiles, and the requests of the gateway.
//! - [`arguments`] and [`call`]: one call, from its payload to its answer.
//! - [`sftp`]: paths, server keys, directory entries, file contents, failures.
//! - [`surface`]: files as resources.
//! - [`envelope`] and [`audit`]: the answer of a call, and its record.
//! - [`watch`]: the directory watch.
//! - [`laws`]: what holds of all of this, in plain terms.
//! - [`json`], [`text`] and [`order`]: JSON values, texts, and the order of texts.

pub mod arguments;
pub mod audit;
pub mod backend;
pub mod call;
pub mod envelope;
pub mod json;
pub mod laws;
pub mod order;
pub mod profile;
pub mod sftp;
pub mod surface;
pub mod text;
pub mod types;
pub mod watch;

pub use backend::SftpBackendPlugin;
pub use types::SftpBackendSpec;
pub use types::SftpOp;
