//! Watching a directory: SFTP pushes no changes, so the directory is listed on a
//! cadence, and a change is told by the fingerprint of the listing.

use vstd::prelude::*;
use vstd::string::*;

use crate::audit::PLUGIN_ID;
use crate::backend::ListingReply;
use crate::backend::PluginClass;
use crate::backend::PluginManifest;
use crate::json::items_view;
use crate::json::json_text;
use crate::json::lemma_items_index;
use crate::json::number_or_null;
use crate::json::opt_text;
use crate::json::Json;
use crate::json::JsonView;
use crate::order::in_order;
use crate::order::lemma_in_order_keeps;
use crate::order::lemma_in_order_of_permutation;
use crate::order::lemma_map_same_items;
use crate::order::lemma_permutation_of_in_order;
use crate::order::lemma_same_items_of_map;
use crate::order::sort_texts;
use crate::order::texts;
use crate::profile::usable_password;
use crate::profile::CRED_PASSWORD;
use crate::profile::HOST_KEY_UNCONFIGURED;
use crate::sftp::climbs;
use crate::sftp::entry_view;
use crate::sftp::law_resolved_path_stays_under_root;
use crate::sftp::lemma_entry_members;
use crate::sftp::lies_under;
use crate::sftp::never_leaves;
use crate::sftp::resolve_path;
use crate::sftp::resolved;
use crate::sftp::PATH_CLIMBS;
use crate::sftp::SftpConn;
use crate::text::blank;
use crate::text::decimal;
use crate::text::is_blank;
use crate::text::join_text;
use crate::text::joined;
use crate::text::lemma_decimal_is_digits;
use crate::text::lemma_decimal_is_injective;
use crate::text::lemma_joined_segments;
use crate::text::lemma_segments_concat;
use crate::text::lemma_segments_of_joined;
use crate::text::lemma_segments_plain;
use crate::text::same_text;
use crate::text::segments;
use crate::text::starts_with;

verus! {

/// The kind of watch that this strategy serves.
pub const WATCH_KIND: &'static str = "sftp_dir_poll";

/// The poll cadence of a spec that names none: one minute.
pub fn default_interval_ms() -> (r: u64)
    ensures
        r == 60_000,
{
    60_000
}

/// The budget of one poll of a spec that names none: ten seconds.
pub fn default_timeout_ms() -> (r: u64)
    ensures
        r == 10_000,
{
    10_000
}

/// The SSH port of a spec that names none.
pub fn default_port() -> (r: u16)
    ensures
        r == 22,
{
    22
}

/// What to watch: the connection, the directory under its root, and the cadence.
#[derive(Debug)]
pub struct WatchSpec {
    /// SSH host.
    pub host: String,
    /// SSH port (default 22).
    pub port: u16,
    /// SSH login user.
    pub username: String,
    /// SSH password: a literal, or a reference resolved at config load.
    pub password: String,
    /// Base directory that the watched path is joined under (default `""`, the
    /// login's default directory).
    pub root: String,
    /// The directory under `root` to watch (default `""`, the root itself).
    pub path: String,
    /// Expected server host-key fingerprint (`SHA256:...`). When set, the connection
    /// is rejected unless the server key matches.
    pub host_key_sha256: Option<String>,
    /// Accept any (unverified) server host key. For development only: leave it unset
    /// and pin the fingerprint instead. With neither, the spec is refused.
    pub accept_unknown_host_key: bool,
    /// Poll cadence in milliseconds (default one minute).
    pub interval_ms: u64,
    /// Budget of one poll in milliseconds (default ten seconds).
    pub timeout_ms: u64,
}

/// Why a watch could not be set up.
#[derive(Debug, PartialEq, Eq)]
pub enum WatchError {
    /// The spec is not acceptable.
    InvalidSpec { message: String },
    /// The directory could not be listed to begin with.
    Subscribe { message: String },
}

/// What an error says.
pub enum WatchErrorView {
    InvalidSpec(Seq<char>),
    Subscribe(Seq<char>),
}

impl View for WatchError {
    type V = WatchErrorView;

    open spec fn view(&self) -> WatchErrorView {
        match *self {
            WatchError::InvalidSpec { message } => WatchErrorView::InvalidSpec(message@),
            WatchError::Subscribe { message } => WatchErrorView::Subscribe(message@),
        }
    }
}

/// A watch that can be run: which directory is listed, over which connection, how
/// often, and within which time.
#[derive(Debug)]
pub struct WatchPlan {
    pub conn: SftpConn,
    pub path: String,
    pub interval_ms: u64,
    pub timeout_ms: u64,
}

/// The shortest poll cadence, in milliseconds.
pub const MIN_INTERVAL_MS: u64 = 250;

impl WatchPlan {
    /// How long to wait between two polls, in milliseconds: the cadence that was
    /// asked for, but no less than the shortest.
    pub fn poll_interval_ms(&self) -> (r: u64)
        ensures
            r == (if self.interval_ms < MIN_INTERVAL_MS {
                MIN_INTERVAL_MS
            } else {
                self.interval_ms
            }),
    {
        if self.interval_ms < MIN_INTERVAL_MS {
            MIN_INTERVAL_MS
        } else {
            self.interval_ms
        }
    }
}

/// What is wrong with a spec: the first problem in the order of the checks.
pub open spec fn watch_problem(spec: WatchSpec) -> Option<Seq<char>> {
    if blank(spec.host@) {
        Some("host must not be empty"@)
    } else if blank(spec.username@) {
        Some("username must not be empty"@)
    } else if spec.password@.len() == 0 {
        Some("password must not be empty"@)
    } else if "cred://"@.is_prefix_of(spec.password@) {
        Some(CRED_PASSWORD@)
    } else if spec.timeout_ms == 0 {
        Some("timeout_ms must be greater than 0"@)
    } else if spec.host_key_sha256 is None && !spec.accept_unknown_host_key {
        Some(HOST_KEY_UNCONFIGURED@)
    } else if climbs(spec.path@) {
        Some(PATH_CLIMBS@)
    } else {
        None
    }
}

/// What is wrong with a spec, before its path is looked at.
fn find_watch_problem(spec: &WatchSpec) -> (r: Option<String>)
    ensures
        match r {
            Some(message) => watch_problem(*spec) == Some(message@),
            None => watch_problem(*spec) == (if climbs(spec.path@) {
                Some(PATH_CLIMBS@)
            } else {
                None
            }),
        },
{
    if is_blank(spec.host.as_str()) {
        return Some("host must not be empty".to_owned());
    }
    if is_blank(spec.username.as_str()) {
        return Some("username must not be empty".to_owned());
    }
    if spec.password.as_str().is_empty() {
        return Some("password must not be empty".to_owned());
    }
    if starts_with(spec.password.as_str(), "cred://") {
        return Some(CRED_PASSWORD.to_owned());
    }
    if spec.timeout_ms == 0 {
        return Some("timeout_ms must be greater than 0".to_owned());
    }
    if spec.host_key_sha256.is_none() && !spec.accept_unknown_host_key {
        return Some(HOST_KEY_UNCONFIGURED.to_owned());
    }
    None
}

impl WatchPlan {
    /// The plan is that of a spec.
    pub open spec fn is_of(self, spec: WatchSpec) -> bool {
        &&& self.conn.host == spec.host
        &&& self.conn.port == spec.port
        &&& self.conn.username == spec.username
        &&& self.conn.password == spec.password
        &&& self.conn.host_key_sha256 == spec.host_key_sha256
        &&& self.conn.accept_unknown_host_key == spec.accept_unknown_host_key
        &&& self.path@ == resolved(spec.root@, spec.path@)
        &&& self.interval_ms == spec.interval_ms
        &&& self.timeout_ms == spec.timeout_ms
    }
}

/// The watch strategy. It holds its manifest alone: each watch brings its own
/// connection and directory.
#[derive(Debug)]
pub struct SftpWatchCdylib {
    manifest: PluginManifest,
}

impl SftpWatchCdylib {
    /// The manifest is the strategy's.
    pub closed spec fn wf(self) -> bool {
        self.manifest.says(
            PLUGIN_ID@,
            "SFTP Directory Poll Watch Strategy"@,
            PluginClass::WatchStrategy,
        )
    }

    /// The strategy; there is nothing to configure.
    pub fn from_host_config(_config_json: &str) -> (r: SftpWatchCdylib)
        ensures
            r.wf(),
    {
        SftpWatchCdylib {
            manifest: PluginManifest {
                id: PLUGIN_ID.to_owned(),
                name: "SFTP Directory Poll Watch Strategy".to_owned(),
                plugin_class: PluginClass::WatchStrategy,
            },
        }
    }

    /// How the strategy presents itself.
    pub fn manifest(&self) -> (r: &PluginManifest)
        requires
            self.wf(),
        ensures
            r.says(
                PLUGIN_ID@,
                "SFTP Directory Poll Watch Strategy"@,
                PluginClass::WatchStrategy,
            ),
    {
        &self.manifest
    }

    /// The kind of watch that the strategy serves.
    pub fn kind(&self) -> (r: &'static str)
        ensures
            r@ == WATCH_KIND@,
    {
        WATCH_KIND
    }

    /// Decides whether a spec can be watched, and how.
    pub fn plan_watch(&self, spec: WatchSpec) -> (r: Result<WatchPlan, WatchError>)
        ensures
            match watch_problem(spec) {
                None => r matches Ok(plan) && plan.is_of(spec),
                Some(message) => r matches Err(error) && error@ == WatchErrorView::InvalidSpec(
                    message,
                ),
            },
    {
        match find_watch_problem(&spec) {
            Some(message) => {
                return Err(WatchError::InvalidSpec { message });
            },
            None => {},
        }
        let path = match resolve_path(spec.root.as_str(), spec.path.as_str()) {
            Ok(path) => path,
            Err(message) => {
                return Err(WatchError::InvalidSpec { message });
            },
        };
        Ok(
            WatchPlan {
                conn: SftpConn {
                    host: spec.host,
                    port: spec.port,
                    username: spec.username,
                    password: spec.password,
                    host_key_sha256: spec.host_key_sha256,
                    accept_unknown_host_key: spec.accept_unknown_host_key,
                },
                path,
                interval_ms: spec.interval_ms,
                timeout_ms: spec.timeout_ms,
            },
        )
    }
}

// --------------------------------------------------------------- fingerprints

/// A JSON value in a fingerprint: a string as it is, `null` as nothing, and
/// anything else as its JSON text, which of a number is its decimal form.
pub open spec fn scalar_text(value: JsonView) -> Seq<char> {
    match value {
        JsonView::Text(s) => s,
        JsonView::Null => Seq::empty(),
        JsonView::Number(n) => decimal(n),
        other => json_text(other),
    }
}

/// Renders a JSON value for a fingerprint.
pub fn value_scalar(value: &Json) -> (r: String)
    ensures
        r@ == scalar_text(value@),
{
    match value {
        Json::Text(s) => s.clone(),
        Json::Null => String::new(),
        other => other.to_text(),
    }
}

/// What of an entry a fingerprint depends on.
pub struct WatchedEntry {
    pub name: Seq<char>,
    pub size: Seq<char>,
    pub mtime: Seq<char>,
}

/// The text of a member in a fingerprint; nothing where it is missing.
pub open spec fn member_text(entry: JsonView, key: Seq<char>) -> Seq<char> {
    match entry.member(key) {
        Some(value) => scalar_text(value),
        None => Seq::empty(),
    }
}

/// What of an entry its fingerprint depends on.
pub open spec fn watched(entry: JsonView) -> WatchedEntry {
    WatchedEntry {
        name: match entry.text_member("name"@) {
            Some(name) => name,
            None => Seq::empty(),
        },
        size: member_text(entry, "size"@),
        mtime: member_text(entry, "mtime"@),
    }
}

impl WatchedEntry {
    /// The entry's line.
    pub open spec fn line(self) -> Seq<char> {
        self.name + "|"@ + self.size + "|"@ + self.mtime
    }
}

/// The lines of a listing, in its order.
pub open spec fn lines(entries: Seq<JsonView>) -> Seq<Seq<char>> {
    entries.map_values(|entry: JsonView| watched(entry).line())
}

/// The fingerprint of a listing: its lines in ascending order, one below the
/// other.
pub open spec fn fingerprint(entries: Seq<JsonView>) -> Seq<char> {
    joined(in_order(lines(entries)), "\n"@)
}

/// Renders a member for a fingerprint.
fn member_scalar(entry: &Json, key: &str) -> (r: String)
    ensures
        r@ == member_text(entry@, key@),
{
    match entry.get(key) {
        Some(value) => value_scalar(value),
        None => String::new(),
    }
}

/// Renders an entry as its line.
fn entry_line(entry: &Json) -> (r: String)
    ensures
        r@ == watched(entry@).line(),
{
    let mut line = match entry.get_str("name") {
        Some(name) => name.to_owned(),
        None => String::new(),
    };
    line.append("|");
    line.append(member_scalar(entry, "size").as_str());
    line.append("|");
    line.append(member_scalar(entry, "mtime").as_str());
    line
}

/// Builds the fingerprint of a listing.
pub fn fingerprint_listing(entries: &[Json]) -> (r: String)
    ensures
        r@ == fingerprint(items_view(entries@)),
{
    let ghost views = items_view(entries@);
    proof {
        lemma_items_index(entries@);
    }
    let mut rendered: Vec<String> = Vec::new();
    let mut i: usize = 0;
    while i < entries.len()
        invariant
            i <= entries@.len(),
            rendered@.len() == i,
            views.len() == entries@.len(),
            forall|j: int| 0 <= j < entries@.len() ==> #[trigger] views[j] == entries@[j]@,
            forall|j: int| 0 <= j < i ==> (#[trigger] rendered@[j])@ == watched(views[j]).line(),
        decreases entries@.len() - i,
    {
        rendered.push(entry_line(&entries[i]));
        i = i + 1;
    }
    assert(texts(rendered@) =~= lines(views));
    let sorted = sort_texts(&rendered);
    join_text(&sorted, "\n")
}

// ---------------------------------------------------------------------- polls

/// The error of a watch whose runtime cannot be set up.
pub fn runtime_failure(detail: &str) -> (r: WatchError)
    ensures
        r@ == WatchErrorView::Subscribe("sftp_dir_poll: tokio runtime init failed: "@ + detail@),
{
    let mut message = "sftp_dir_poll: tokio runtime init failed: ".to_owned();
    message.append(detail);
    WatchError::Subscribe { message }
}

/// Why a listing gave nothing; `late` is said of a timeout.
pub open spec fn listing_failure(reply: ListingReply, late: Seq<char>) -> Option<Seq<char>> {
    match reply {
        ListingReply::Entries(_) => None,
        ListingReply::Failed(message) => Some(message@),
        ListingReply::TimedOut => Some(late),
    }
}

/// Judges the first listing of a watch: where it fails, there is no watch.
pub fn initial_probe(reply: ListingReply) -> (r: Result<(), WatchError>)
    ensures
        match listing_failure(reply, "initial sftp list timed out"@) {
            None => r is Ok,
            Some(message) => r matches Err(error) && error@ == WatchErrorView::Subscribe(
                "sftp_dir_poll: initial connect/list failed: "@ + message,
            ),
        },
{
    let reason = match reply {
        ListingReply::Entries(_) => {
            return Ok(());
        },
        ListingReply::Failed(message) => message,
        ListingReply::TimedOut => "initial sftp list timed out".to_owned(),
    };
    let mut message = "sftp_dir_poll: initial connect/list failed: ".to_owned();
    message.append(reason.as_str());
    Err(WatchError::Subscribe { message })
}

/// What one poll gives: the fingerprint of the listing, or why there is none.
pub fn poll_result(reply: ListingReply) -> (r: Result<Option<String>, String>)
    ensures
        match reply {
            ListingReply::Entries(entries) => r matches Ok(Some(cursor)) && cursor@ == fingerprint(
                items_view(entries@),
            ),
            _ => r matches Err(message) && listing_failure(reply, "sftp list timed out"@) == Some(
                message@,
            ),
        },
{
    match reply {
        ListingReply::Entries(entries) => Ok(Some(fingerprint_listing(entries.as_slice()))),
        ListingReply::Failed(message) => Err(message),
        ListingReply::TimedOut => Err("sftp list timed out".to_owned()),
    }
}

/// Where a watch stands: the fingerprint that was seen last.
#[derive(Debug)]
pub struct WatchCursor {
    pub last: Option<String>,
}

impl View for WatchCursor {
    type V = Option<Seq<char>>;

    open spec fn view(&self) -> Option<Seq<char>> {
        opt_text(self.last)
    }
}

impl WatchCursor {
    /// A poll with this fingerprint shows a change: there is a baseline, and it is
    /// another.
    pub open spec fn tells(self, seen: Seq<char>) -> bool {
        self@ is Some && self@ != Some(seen)
    }

    /// A watch that has seen nothing.
    pub fn new() -> (r: WatchCursor)
        ensures
            r@ is None,
    {
        WatchCursor { last: None }
    }

    /// Takes in one poll, and says whether it shows a change. The first poll that
    /// succeeds is the baseline. A poll that fails changes nothing.
    pub fn observe(&mut self, poll: Result<Option<String>, String>) -> (r: bool)
        ensures
            match poll {
                Ok(Some(seen)) => r == old(self).tells(seen@) && final(self)@ == Some(seen@),
                _ => !r && *final(self) == *old(self),
            },
    {
        match poll {
            Ok(Some(seen)) => {
                let changed = match &self.last {
                    Some(last) => !same_text(last.as_str(), seen.as_str()),
                    None => false,
                };
                self.last = Some(seen);
                changed
            },
            _ => false,
        }
    }
}

// ----------------------------------------------------------------------- laws

/// A watched directory lies under the root, and over a connection that says how
/// server keys are judged.
pub proof fn law_watch_stays_under_root(plan: WatchPlan, spec: WatchSpec)
    requires
        watch_problem(spec) is None,
        plan.is_of(spec),
    ensures
        plan.conn.verifies_host_key(),
        usable_password(plan.conn.password@),
        blank(spec.root@) ==> plan.path@.len() > 0 && plan.path@[0] != '/' && never_leaves(
            segments(plan.path@, '/'),
        ),
        !blank(spec.root@) ==> lies_under(spec.root@, plan.path@),
{
    law_resolved_path_stays_under_root(spec.root@, spec.path@);
}

/// The order in which the server lists the entries does not matter.
pub proof fn law_fingerprint_ignores_order(a: Seq<JsonView>, b: Seq<JsonView>)
    requires
        a.to_multiset() == b.to_multiset(),
    ensures
        fingerprint(a) == fingerprint(b),
{
    let f = |entry: JsonView| watched(entry).line();
    lemma_map_same_items(a, b, f);
    lemma_in_order_of_permutation(lines(a), lines(b));
}

/// The entry can be told from every other by its line: its name holds no line
/// break, and its size and its modification time neither a line break nor a bar.
pub open spec fn tellable(entry: JsonView) -> bool {
    let seen = watched(entry);
    &&& !seen.name.contains('\n')
    &&& !seen.size.contains('\n') && !seen.size.contains('|')
    &&& !seen.mtime.contains('\n') && !seen.mtime.contains('|')
}

/// What of the entries of a listing its fingerprint depends on.
pub open spec fn watched_entries(entries: Seq<JsonView>) -> Seq<WatchedEntry> {
    entries.map_values(|entry: JsonView| watched(entry))
}

/// A tellable entry's line is not empty and holds no line break.
proof fn lemma_line_is_one_line(entry: JsonView)
    requires
        tellable(entry),
    ensures
        watched(entry).line().len() > 0,
        !watched(entry).line().contains('\n'),
{
    reveal_strlit("|");
    let seen = watched(entry);
    let line = seen.line();
    if line.contains('\n') {
        let k = choose|k: int| 0 <= k < line.len() && line[k] == '\n';
        let n = seen.name.len() as int;
        let m = n + 1 + seen.size.len();
        if k < n {
            assert(seen.name[k] == '\n');
        } else if n < k < m {
            assert(seen.size[k - n - 1] == '\n');
        } else if k > m {
            assert(seen.mtime[k - m - 1] == '\n');
        }
    }
}

/// Tellable entries of the same line are the same to a watch.
proof fn lemma_line_tells(a: JsonView, b: JsonView)
    requires
        tellable(a),
        tellable(b),
        watched(a).line() == watched(b).line(),
    ensures
        watched(a) == watched(b),
{
    lemma_line_segments(a);
    lemma_line_segments(b);
    let x = watched(a);
    let y = watched(b);
    let p = segments(x.name, '|');
    let q = segments(y.name, '|');
    assert(p + seq![x.size] + seq![x.mtime] == q + seq![y.size] + seq![y.mtime]);
    let all = p + seq![x.size] + seq![x.mtime];
    assert(p.len() == q.len());
    assert(all[p.len() as int] == x.size);
    assert(all[p.len() as int] == y.size);
    assert(all[p.len() as int + 1] == x.mtime);
    assert(all[p.len() as int + 1] == y.mtime);
    assert(p =~= all.take(p.len() as int));
    assert(q =~= all.take(p.len() as int));
    lemma_joined_segments(x.name, '|');
    lemma_joined_segments(y.name, '|');
}

/// The parts of a tellable entry's line between its bars: those of the name, then
/// the size, then the modification time.
proof fn lemma_line_segments(entry: JsonView)
    requires
        tellable(entry),
    ensures
        segments(watched(entry).line(), '|') == segments(watched(entry).name, '|')
            + seq![watched(entry).size] + seq![watched(entry).mtime],
{
    reveal_strlit("|");
    let seen = watched(entry);
    assert("|"@ =~= seq!['|']);
    lemma_segments_concat(seen.name, seen.size, '|');
    lemma_segments_concat(seen.name + "|"@ + seen.size, seen.mtime, '|');
    lemma_segments_plain(seen.size, '|');
    lemma_segments_plain(seen.mtime, '|');
}

/// Listings of the same fingerprint have the same lines, in some order.
proof fn lemma_fingerprint_tells_lines(a: Seq<JsonView>, b: Seq<JsonView>)
    requires
        forall|i: int| 0 <= i < a.len() ==> tellable(#[trigger] a[i]),
        forall|i: int| 0 <= i < b.len() ==> tellable(#[trigger] b[i]),
        fingerprint(a) == fingerprint(b),
    ensures
        lines(a).to_multiset() == lines(b).to_multiset(),
{
    lemma_sorted_lines(a);
    lemma_sorted_lines(b);
    reveal_strlit("\n");
    assert("\n"@ =~= seq!['\n']);
    let p = in_order(lines(a));
    let q = in_order(lines(b));
    if p.len() == 0 && q.len() == 0 {
        assert(p =~= q);
    } else if p.len() > 0 && q.len() > 0 {
        lemma_segments_of_joined(p, '\n');
        lemma_segments_of_joined(q, '\n');
    } else if p.len() > 0 {
        lemma_segments_of_joined(p, '\n');
        assert(fingerprint(a).len() == 0);
        assert(segments(fingerprint(a), '\n') =~= seq![Seq::<char>::empty()]);
        assert(p[0].len() == 0);
    } else {
        lemma_segments_of_joined(q, '\n');
        assert(fingerprint(b).len() == 0);
        assert(segments(fingerprint(b), '\n') =~= seq![Seq::<char>::empty()]);
        assert(q[0].len() == 0);
    }
    lemma_permutation_of_in_order(lines(a), lines(b));
}

/// The sorted lines of tellable entries are not empty and hold no line break.
pub proof fn lemma_sorted_lines(entries: Seq<JsonView>)
    requires
        forall|i: int| 0 <= i < entries.len() ==> tellable(#[trigger] entries[i]),
    ensures
        forall|i: int|
            0 <= i < in_order(lines(entries)).len() ==> (#[trigger] in_order(lines(entries))[i]).len()
                > 0 && !in_order(lines(entries))[i].contains('\n'),
{
    let sorted = in_order(lines(entries));
    assert forall|i: int| 0 <= i < sorted.len() implies (#[trigger] sorted[i]).len() > 0
        && !sorted[i].contains('\n') by {
        lemma_in_order_keeps(lines(entries), i);
        let k = choose|k: int| 0 <= k < lines(entries).len() && lines(entries)[k] == sorted[i];
        lemma_line_is_one_line(entries[k]);
    }
}

/// The fingerprint changes exactly where what is watched changes: two listings of
/// tellable entries have the same fingerprint if and only if they show the same
/// names, sizes and modification times, in whatever order.
pub proof fn law_fingerprint_tells_listings(a: Seq<JsonView>, b: Seq<JsonView>)
    requires
        forall|i: int| 0 <= i < a.len() ==> tellable(#[trigger] a[i]),
        forall|i: int| 0 <= i < b.len() ==> tellable(#[trigger] b[i]),
    ensures
        fingerprint(a) == fingerprint(b) <==> watched_entries(a).to_multiset()
            == watched_entries(b).to_multiset(),
{
    let f = |seen: WatchedEntry| seen.line();
    let p = watched_entries(a);
    let q = watched_entries(b);
    assert(p.map_values(f) =~= lines(a));
    assert(q.map_values(f) =~= lines(b));
    if p.to_multiset() == q.to_multiset() {
        lemma_map_same_items(p, q, f);
        lemma_in_order_of_permutation(lines(a), lines(b));
    }
    if fingerprint(a) == fingerprint(b) {
        lemma_fingerprint_tells_lines(a, b);
        assert forall|i: int, j: int|
            0 <= i < p.len() && 0 <= j < q.len() && f(#[trigger] p[i]) == f(
                #[trigger] q[j],
            ) implies p[i] == q[j] by {
            lemma_line_tells(a[i], b[j]);
        }
        lemma_same_items_of_map(p, q, f);
    }
}

/// A file as the server tells of it.
pub struct FileRecord {
    pub name: Seq<char>,
    pub size: Option<u64>,
    pub permissions: Option<u32>,
    pub mtime: Option<u32>,
}

/// The listing of a directory of files.
pub open spec fn listing_of(files: Seq<FileRecord>) -> Seq<JsonView> {
    files.map_values(|f: FileRecord| entry_view(f.name, f.size, f.permissions, f.mtime))
}

/// What of the files a change is told by: their names, sizes and modification
/// times.
pub open spec fn traits_of(files: Seq<FileRecord>) -> Seq<(Seq<char>, Option<u64>, Option<u32>)> {
    files.map_values(|f: FileRecord| (f.name, f.size, f.mtime))
}

/// What is watched of a file.
spec fn watched_traits(file: (Seq<char>, Option<u64>, Option<u32>)) -> WatchedEntry {
    watched(entry_view(file.0, file.1, None, file.2))
}

/// The fingerprint changes exactly where a file is added, removed or modified: two
/// directories of files whose names hold no line break have the same fingerprint if
/// and only if they hold files of the same names, sizes and modification times.
pub proof fn law_fingerprint_tells_files(a: Seq<FileRecord>, b: Seq<FileRecord>)
    requires
        forall|i: int| 0 <= i < a.len() ==> !(#[trigger] a[i]).name.contains('\n'),
        forall|i: int| 0 <= i < b.len() ==> !(#[trigger] b[i]).name.contains('\n'),
    ensures
        fingerprint(listing_of(a)) == fingerprint(listing_of(b)) <==> traits_of(a).to_multiset()
            == traits_of(b).to_multiset(),
{
    let f = |file: (Seq<char>, Option<u64>, Option<u32>)| watched_traits(file);
    lemma_files_are_tellable(a);
    lemma_files_are_tellable(b);
    law_fingerprint_tells_listings(listing_of(a), listing_of(b));
    let p = traits_of(a);
    let q = traits_of(b);
    assert(watched_entries(listing_of(a)) =~= p.map_values(f));
    assert(watched_entries(listing_of(b)) =~= q.map_values(f));
    if p.to_multiset() == q.to_multiset() {
        lemma_map_same_items(p, q, f);
    }
    if p.map_values(f).to_multiset() == q.map_values(f).to_multiset() {
        assert forall|i: int, j: int|
            0 <= i < p.len() && 0 <= j < q.len() && f(#[trigger] p[i]) == f(
                #[trigger] q[j],
            ) implies p[i] == q[j] by {
            lemma_files_are_told_apart(p[i], q[j]);
        }
        lemma_same_items_of_map(p, q, f);
    }
}

/// The entries of files whose names hold no line break are tellable, and what is
/// watched of them are their names, sizes and modification times.
proof fn lemma_files_are_tellable(files: Seq<FileRecord>)
    requires
        forall|i: int| 0 <= i < files.len() ==> !(#[trigger] files[i]).name.contains('\n'),
    ensures
        forall|i: int| 0 <= i < files.len() ==> tellable(#[trigger] listing_of(files)[i]),
        forall|i: int|
            0 <= i < files.len() ==> watched(#[trigger] listing_of(files)[i]) == watched_traits(
                traits_of(files)[i],
            ),
{
    assert forall|i: int| 0 <= i < files.len() implies tellable(#[trigger] listing_of(files)[i])
        && watched(listing_of(files)[i]) == watched_traits(traits_of(files)[i]) by {
        let f = files[i];
        lemma_entry_members(f.name, f.size, f.permissions, f.mtime);
        lemma_entry_members(f.name, f.size, None, f.mtime);
        lemma_number_text(wide_opt(f.size), None);
        lemma_number_text(narrow_opt(f.mtime), None);
    }
}

/// What is watched of files tells their names, sizes and modification times.
proof fn lemma_files_are_told_apart(
    a: (Seq<char>, Option<u64>, Option<u32>),
    b: (Seq<char>, Option<u64>, Option<u32>),
)
    requires
        watched_traits(a) == watched_traits(b),
    ensures
        a == b,
{
    lemma_entry_members(a.0, a.1, None, a.2);
    lemma_entry_members(b.0, b.1, None, b.2);
    lemma_number_text(wide_opt(a.1), wide_opt(b.1));
    lemma_number_text(narrow_opt(a.2), narrow_opt(b.2));
}

/// A size as a natural number.
spec fn wide_opt(n: Option<u64>) -> Option<nat> {
    match n {
        Some(n) => Some(n as nat),
        None => None,
    }
}

/// A modification time as a natural number.
spec fn narrow_opt(n: Option<u32>) -> Option<nat> {
    match n {
        Some(n) => Some(n as nat),
        None => None,
    }
}

/// Numbers that may be missing are told apart in a fingerprint, and their text
/// holds neither a line break nor a bar.
proof fn lemma_number_text(a: Option<nat>, b: Option<nat>)
    ensures
        !scalar_text(number_or_null(a)).contains('\n'),
        !scalar_text(number_or_null(a)).contains('|'),
        scalar_text(number_or_null(a)) == scalar_text(number_or_null(b)) <==> a == b,
{
    if let Some(n) = a {
        lemma_decimal_is_digits(n);
        if let Some(m) = b {
            if decimal(n) == decimal(m) {
                lemma_decimal_is_injective(n, m);
            }
        }
    }
    if let Some(m) = b {
        lemma_decimal_is_digits(m);
    }
}

/// What a watch tells: after a poll of some files, the next poll that succeeds
/// tells a change exactly where a file was added, removed or modified meanwhile.
pub proof fn law_watch_tells_changes(
    cursor: WatchCursor,
    earlier: Seq<FileRecord>,
    later: Seq<FileRecord>,
)
    requires
        cursor@ == Some(fingerprint(listing_of(earlier))),
        forall|i: int| 0 <= i < earlier.len() ==> !(#[trigger] earlier[i]).name.contains('\n'),
        forall|i: int| 0 <= i < later.len() ==> !(#[trigger] later[i]).name.contains('\n'),
    ensures
        cursor.tells(fingerprint(listing_of(later))) <==> traits_of(earlier).to_multiset()
            != traits_of(later).to_multiset(),
{
    law_fingerprint_tells_files(earlier, later);
}

/// A watch never tells a change at its start.
pub proof fn law_baseline_tells_nothing(cursor: WatchCursor, seen: Seq<char>)
    requires
        cursor@ is None,
    ensures
        !cursor.tells(seen),
{
}

}
