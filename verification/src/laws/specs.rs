//! Laws of specs: which are accepted, what is said of the others, and that nothing of
//! an accepted one is lost.

use vstd::prelude::*;

use crate::backend::PluginClass;
use crate::backend::PluginManifest;
use crate::laws::paths::law_only_parent_segments_climb;
use crate::profile::spec_problem;
use crate::profile::SftpProfile;
use crate::sftp::resolved;
use crate::sftp::ClientHandler;
use crate::sftp::SftpConn;
use crate::surface::Surface;
use crate::text::blank;
use crate::text::occurs;
use crate::types::SftpBackendSpec;
use crate::types::SftpOp;
use crate::watch::watch_problem;
use crate::watch::WatchPlan;
use crate::watch::WatchSpec;

verus! {

/// A binding's spec is accepted if and only if its host and user are not blank, its
/// password is neither empty nor a `cred://` URI, its timeout and its cap are positive,
/// a fingerprint is pinned or any key is accepted, and a `uri`, where there is one, is
/// not blank and stands on the resource surface.
pub proof fn law_binding_spec_is_accepted_iff(spec: SftpBackendSpec)
    ensures
        spec_problem(spec) is None <==> {
            &&& !blank(spec.host@)
            &&& !blank(spec.username@)
            &&& spec.password@.len() > 0
            &&& !"cred://"@.is_prefix_of(spec.password@)
            &&& spec.timeout_ms > 0
            &&& spec.max_bytes > 0
            &&& spec.host_key_sha256 is Some || spec.accept_unknown_host_key
            &&& spec.uri matches Some(uri) ==> !blank(uri@) && spec.surface == Surface::Resource
        },
{
}

/// Of several problems of a binding's spec the first in this order is told.
pub proof fn law_first_problem_of_a_binding_is_told(spec: SftpBackendSpec)
    ensures
        ({
            let host = blank(spec.host@);
            let user = blank(spec.username@);
            let empty = spec.password@.len() == 0;
            let cred = "cred://"@.is_prefix_of(spec.password@);
            let good = !host && !user && !empty && !cred;
            let late = spec.timeout_ms == 0;
            let cap = spec.max_bytes == 0;
            let misplaced = spec.uri is Some && spec.surface == Surface::Tool;
            let void = spec.uri matches Some(uri) && blank(uri@);
            let told = spec_problem(spec);
            &&& host ==> told == Some("host must not be empty"@)
            &&& !host && user ==> told == Some("username must not be empty"@)
            &&& !host && !user && empty ==> told == Some(
                "password must not be empty (v1 is password auth)"@,
            )
            &&& !host && !user && !empty && cred ==> told == Some(
                "password must not be a cred:// URI — per-caller credentials are unsupported; use ${env.X} / vault:// (resolved at config load)"@,
            )
            &&& good && late ==> told == Some("timeout_ms must be greater than 0"@)
            &&& good && !late && cap ==> told == Some("max_bytes must be greater than 0"@)
            &&& good && !late && !cap && misplaced ==> told == Some(
                "`uri` is only valid with `surface: resource` (this binding is `surface: "@
                    + "tool"@ + "`)"@,
            )
            &&& good && !late && !cap && !misplaced && void ==> told == Some(
                "`uri` must not be empty"@,
            )
            &&& good && !late && !cap && !misplaced && !void && told is Some ==> told == Some(
                "host key verification not configured — set host_key_sha256 (SHA256:…) or, for dev only, accept_unknown_host_key: true"@,
            )
        }),
{
}

/// A profile has everything of its spec, character by character: a `uri` with `{path}`
/// in it is the template, one without also pins the resource, and without one the
/// template is `sftp://{path}`.
pub proof fn law_profile_has_everything_of_its_spec(profile: SftpProfile, spec: SftpBackendSpec)
    requires
        profile.is_of(spec),
    ensures
        profile.op == spec.op,
        profile.conn.host@ == spec.host@,
        profile.conn.port == spec.port,
        profile.conn.username@ == spec.username@,
        profile.conn.password@ == spec.password@,
        profile.conn.host_key_sha256 == spec.host_key_sha256,
        profile.conn.accept_unknown_host_key == spec.accept_unknown_host_key,
        profile.root@ == spec.root@,
        profile.max_bytes == spec.max_bytes,
        profile.timeout_ms == spec.timeout_ms,
        profile.surface == spec.surface,
        spec.uri is None ==> profile.uri_template@ == "sftp://{path}"@ && profile.static_uri
            is None,
        spec.uri matches Some(uri) ==> profile.uri_template@ == uri@,
        match spec.uri {
            Some(uri) => if occurs(uri@, "{path}"@) {
                profile.static_uri is None
            } else {
                profile.static_uri matches Some(pinned) && pinned@ == uri@
            },
            None => true,
        },
{
}

/// What holds of every registered profile, in plain terms.
pub proof fn law_valid_profiles_are_usable(profile: SftpProfile)
    ensures
        profile.valid() ==> {
            &&& !blank(profile.conn.host@)
            &&& !blank(profile.conn.username@)
            &&& profile.conn.password@.len() > 0
            &&& !"cred://"@.is_prefix_of(profile.conn.password@)
            &&& profile.conn.host_key_sha256 is Some || profile.conn.accept_unknown_host_key
            &&& profile.timeout_ms > 0
            &&& profile.max_bytes > 0
            &&& profile.static_uri matches Some(uri) ==> uri@ == profile.uri_template@ && !occurs(
                uri@,
                "{path}"@,
            ) && profile.surface == Surface::Resource
        },
{
}

/// A watch's spec is accepted if and only if its host and user are not blank, its
/// password is neither empty nor a `cred://` URI, its timeout is positive, a
/// fingerprint is pinned or any key is accepted, and no segment of its path is `..`:
/// nowhere in the path do two dots stand with nothing or a slash on either side.
pub proof fn law_watch_spec_is_accepted_iff(spec: WatchSpec)
    ensures
        watch_problem(spec) is None <==> {
            &&& !blank(spec.host@)
            &&& !blank(spec.username@)
            &&& spec.password@.len() > 0
            &&& !"cred://"@.is_prefix_of(spec.password@)
            &&& spec.timeout_ms > 0
            &&& spec.host_key_sha256 is Some || spec.accept_unknown_host_key
            &&& !exists|a: Seq<char>, b: Seq<char>|
                spec.path@ == #[trigger] (a + ".."@ + b) && (a.len() == 0 || a.last() == '/') && (
                b.len() == 0 || b[0] == '/')
        },
{
    law_only_parent_segments_climb(spec.path@);
}

/// Of several problems of a watch's spec the first in this order is told.
pub proof fn law_first_problem_of_a_watch_is_told(spec: WatchSpec)
    ensures
        ({
            let host = blank(spec.host@);
            let user = blank(spec.username@);
            let empty = spec.password@.len() == 0;
            let cred = "cred://"@.is_prefix_of(spec.password@);
            let good = !host && !user && !empty && !cred;
            let late = spec.timeout_ms == 0;
            let open = spec.host_key_sha256 is None && !spec.accept_unknown_host_key;
            let told = watch_problem(spec);
            &&& host ==> told == Some("host must not be empty"@)
            &&& !host && user ==> told == Some("username must not be empty"@)
            &&& !host && !user && empty ==> told == Some("password must not be empty"@)
            &&& !host && !user && !empty && cred ==> told == Some(
                "password must not be a cred:// URI — per-caller credentials are unsupported; use ${env.X} / vault:// (resolved at config load)"@,
            )
            &&& good && late ==> told == Some("timeout_ms must be greater than 0"@)
            &&& good && !late && open ==> told == Some(
                "host key verification not configured — set host_key_sha256 (SHA256:…) or, for dev only, accept_unknown_host_key: true"@,
            )
            &&& good && !late && !open && told is Some ==> told == Some(
                "path must not contain '..' segments"@,
            )
        }),
{
}

/// A watch has everything of its spec, and lists the path that the spec names under
/// its root.
pub proof fn law_watch_has_everything_of_its_spec(plan: WatchPlan, spec: WatchSpec)
    requires
        plan.is_of(spec),
    ensures
        plan.conn.host@ == spec.host@,
        plan.conn.port == spec.port,
        plan.conn.username@ == spec.username@,
        plan.conn.password@ == spec.password@,
        plan.conn.host_key_sha256 == spec.host_key_sha256,
        plan.conn.accept_unknown_host_key == spec.accept_unknown_host_key,
        plan.interval_ms == spec.interval_ms,
        plan.timeout_ms == spec.timeout_ms,
        plan.path@ == resolved(spec.root@, spec.path@),
        !blank(spec.root@) && spec.root@.last() != '/' && spec.path@.len() > 0 && spec.path@[0]
            != '/' ==> plan.path@ == spec.root@ + seq!['/'] + spec.path@,
{
    if !blank(spec.root@) && spec.root@.last() != '/' && spec.path@.len() > 0 && spec.path@[0]
        != '/' {
        crate::laws::paths::law_path_is_root_slash_caller(spec.root@, spec.path@);
    }
}

/// The names of operations and surfaces.
pub proof fn law_operations_and_surfaces_have_their_names(op: SftpOp, surface: Surface)
    ensures
        op is List ==> op.name() == "list"@,
        op is Get ==> op.name() == "get"@,
        op is Put ==> op.name() == "put"@,
        surface is Tool ==> surface.name() == "tool"@,
        surface is Resource ==> surface.name() == "resource"@,
{
}

/// A connection says how keys are judged exactly where a fingerprint is pinned or any
/// key is accepted, and its judge then accepts some key and refuses what is not pinned.
pub proof fn law_connections_judge_keys(
    conn: SftpConn,
    judge: ClientHandler,
    fingerprint: Seq<char>,
)
    requires
        judge.expected_fingerprint == conn.host_key_sha256,
        judge.accept_any == conn.accept_unknown_host_key,
    ensures
        conn.verifies_host_key() <==> conn.host_key_sha256 is Some
            || conn.accept_unknown_host_key,
        !conn.verifies_host_key() ==> !judge.trusts(fingerprint),
        conn.host_key_sha256 matches Some(pinned) ==> (judge.trusts(fingerprint) <==> pinned@
            == fingerprint),
        conn.host_key_sha256 is None && conn.accept_unknown_host_key ==> judge.trusts(
            fingerprint,
        ),
{
}

/// A manifest says what stands in it.
pub proof fn law_manifests_say_what_stands_in_them(
    manifest: PluginManifest,
    id: Seq<char>,
    name: Seq<char>,
    class: PluginClass,
)
    ensures
        manifest.says(id, name, class) <==> manifest.id@ == id && manifest.name@ == name
            && manifest.plugin_class == class,
{
}

}
