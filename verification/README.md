# sftp_backend

The decisions of an SFTP (SSH file transfer) backend binding, written and verified in
[Verus](https://github.com/verus-lang/verus).

A binding is one operation on one server: `list` a directory, `get` a file, or `put`
one. It serves the operation as a tool, or the files under its `root` as resources. A
second entity watches a directory by polling it.

The library (`src/`) opens no connection. It decides

- which specs are accepted, and what profile they amount to (`profile`, `backend`);
- what a call is to do: which path under the root, which operation, which bytes, or why
  it is refused before any connection (`arguments`, `call`, `sftp`);
- whether a server key is accepted (`sftp`);
- what directory entries, file contents and listed resources look like (`sftp`,
  `surface`);
- what is answered, counted and audited (`envelope`, `audit`, `call`);
- when a watch tells a change (`watch`).

Contracts are stated over characters, bytes and JSON values as mathematical objects.
Public proof functions named `law_..` state what holds across functions: no accepted
path leaves the root, host keys are checked or the spec is refused, nothing above the
size cap is written, text that is put is read back, a read with the URI of a listed file
opens that file, a failed step on a file is judged by its detail and not by the path it
names, and the fingerprint of a directory changes exactly where a file is added,
removed or modified.

What is trusted is marked `external_body` or `assume_specification` in `src/`, next to
what is believed of it: calls of `serde_json`, `base64`, `chrono`, `russh`'s key type,
`russh-sftp`'s file attributes, and two functions of the standard library.

`app/` is ordinary Rust around the library: specs read with `serde`, connections over
`russh` and `russh-sftp`, the asynchronous plugin and its synchronous bridge, and the
polling thread. `tests/` runs the library with the crates it calls.
