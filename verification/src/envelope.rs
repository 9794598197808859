//! The structured response envelope that the gateway projects onto `tools/call`.
//! A `downstreamError` that is not `null` is the gateway's error signal.

use vstd::prelude::*;
use vstd::string::*;

use crate::json::clone_items;
use crate::json::items_view;
use crate::json::lemma_items_index;
use crate::json::lemma_items_push;
use crate::json::number_or_null;
use crate::json::opt_text_json;
use crate::json::put;
use crate::json::text;
use crate::json::text_or_null;
use crate::json::Json;
use crate::json::JsonView;
use crate::sftp::cap_message;
use crate::sftp::file_detail;
use crate::sftp::file_head;
use crate::sftp::file_message;
use crate::sftp::find_file_detail;
use crate::sftp::lemma_detail_is_found;
use crate::sftp::lemma_file_heads;
use crate::sftp::lemma_no_detail;
use crate::sftp::FileStep;
use crate::sftp::SessionStep;
use crate::sftp::AUTH_REJECTED;
use crate::sftp::FILE_SEAM;
use crate::sftp::PATH_CLIMBS;
use crate::surface::opt_str;
use crate::text::ascii_lower;
use crate::text::contains_text;
use crate::text::decimal;
use crate::text::lemma_decimal_is_digits;
use crate::text::lower_text;
use crate::text::lowered;
use crate::text::occurs;
use crate::text::occurs_at;

verus! {

/// Result of a completed SFTP operation.
#[derive(Debug)]
pub struct SftpOutcome {
    /// `list`: the directory entries.
    pub entries: Option<Vec<Json>>,
    /// `get`: the decoded file content (`{text}` / `{base64}`).
    pub content: Option<Json>,
    /// `get`: the byte size.
    pub size: Option<usize>,
    /// `put`: bytes written.
    pub written: Option<usize>,
}

/// What an outcome says.
pub struct OutcomeView {
    pub entries: Option<Seq<JsonView>>,
    pub content: Option<JsonView>,
    pub size: Option<nat>,
    pub written: Option<nat>,
}

/// The view of an optional size.
pub open spec fn opt_size(n: Option<usize>) -> Option<nat> {
    match n {
        Some(n) => Some(n as nat),
        None => None,
    }
}

impl View for SftpOutcome {
    type V = OutcomeView;

    open spec fn view(&self) -> OutcomeView {
        OutcomeView {
            entries: match self.entries {
                Some(entries) => Some(items_view(entries@)),
                None => None,
            },
            content: match self.content {
                Some(content) => Some(content@),
                None => None,
            },
            size: opt_size(self.size),
            written: opt_size(self.written),
        }
    }
}

impl Default for SftpOutcome {
    fn default() -> (r: SftpOutcome)
        ensures
            r.entries is None,
            r.content is None,
            r.size is None,
            r.written is None,
    {
        SftpOutcome { entries: None, content: None, size: None, written: None }
    }
}

// --------------------------------------------------------- downstream errors

/// A downstream error as JSON.
pub open spec fn downstream_error_view(
    kind: Seq<char>,
    message: Seq<char>,
    retryable: bool,
) -> JsonView {
    JsonView::Object(
        map![
            "kind"@ => JsonView::Text(kind),
            "code"@ => JsonView::Text("mcpg.downstream_sftp."@ + kind),
            "message"@ => JsonView::Text(message),
            "retryable"@ => JsonView::Bool(retryable),
            "retryClass"@ => JsonView::Text(
                if retryable { "with_backoff"@ } else { "do_not_retry"@ },
            ),
            "suggestedAction"@ => JsonView::Text(
                if retryable {
                    "check_ssh_connectivity_and_retry"@
                } else {
                    "inspect_sftp_error"@
                },
            ),
        ],
    )
}

/// Builds a downstream error for the envelope's `downstreamError` slot.
pub fn sftp_downstream_error(kind: &str, message: &str, retryable: bool) -> (r: Json)
    ensures
        r@ == downstream_error_view(kind@, message@, retryable),
{
    let mut code = "mcpg.downstream_sftp.".to_owned();
    code.append(kind);
    let class = if retryable {
        "with_backoff"
    } else {
        "do_not_retry"
    };
    let action = if retryable {
        "check_ssh_connectivity_and_retry"
    } else {
        "inspect_sftp_error"
    };
    let mut members: Vec<(String, Json)> = Vec::new();
    put(&mut members, "kind", text(kind));
    put(&mut members, "code", text(code.as_str()));
    put(&mut members, "message", text(message));
    put(&mut members, "retryable", Json::Bool(retryable));
    put(&mut members, "retryClass", text(class));
    put(&mut members, "suggestedAction", text(action));
    Json::Object(members)
}

/// What a failure is judged by: of a failed step on a file its detail, not the path
/// that it names; of any other failure the whole message.
pub open spec fn judged(message: Seq<char>) -> Seq<char> {
    match file_detail(message) {
        Some(detail) => detail,
        None => message,
    }
}

/// The text speaks of a timeout, in any ASCII case.
pub open spec fn tells_timeout(text: Seq<char>) -> bool {
    occurs(lowered(text), "timed out"@) || occurs(lowered(text), "timeout"@)
}

/// The text speaks of the connection, in any ASCII case: connecting, opening a
/// channel or a session, a broken connection, a timeout.
pub open spec fn tells_connection(text: Seq<char>) -> bool {
    ||| occurs(lowered(text), "connect failed"@)
    ||| tells_timeout(text)
    ||| occurs(lowered(text), "channel open failed"@)
    ||| occurs(lowered(text), "broken pipe"@)
    ||| occurs(lowered(text), "connection reset"@)
    ||| occurs(lowered(text), "session init failed"@)
}

/// The failure is a timeout.
pub open spec fn mentions_timeout(message: Seq<char>) -> bool {
    tells_timeout(judged(message))
}

/// The failure is one of the connection, worth another try.
pub open spec fn is_retryable(message: Seq<char>) -> bool {
    tells_connection(judged(message))
}

/// The kind of a failure.
pub open spec fn failure_kind(message: Seq<char>) -> Seq<char> {
    if is_retryable(message) {
        "transport_error"@
    } else {
        "sftp_error"@
    }
}

/// The downstream error of a failure.
pub open spec fn classified(message: Seq<char>) -> JsonView {
    downstream_error_view(failure_kind(message), message, is_retryable(message))
}

/// What a failure is judged by, lowered.
fn judged_text(message: &str) -> (r: String)
    ensures
        r@ == lowered(judged(message@)),
{
    match find_file_detail(message) {
        Some(detail) => lower_text(detail.as_str()),
        None => lower_text(message),
    }
}

/// Whether a failure is one of the connection.
pub fn retryable_message(message: &str) -> (r: bool)
    ensures
        r == is_retryable(message@),
{
    let lower = judged_text(message);
    let lower = lower.as_str();
    contains_text(lower, "connect failed") || contains_text(lower, "timed out") || contains_text(
        lower,
        "timeout",
    ) || contains_text(lower, "channel open failed") || contains_text(lower, "broken pipe")
        || contains_text(lower, "connection reset") || contains_text(lower, "session init failed")
}

/// Classifies a failure string. Connect, timeout and channel failures are retryable
/// transport errors; auth rejections, missing files, traversal rejections and
/// size-cap violations are problems of the caller or the configuration and are not.
pub fn classify_error(message: &str) -> (r: Json)
    ensures
        r@ == classified(message@),
{
    let retryable = retryable_message(message);
    let kind = if retryable {
        "transport_error"
    } else {
        "sftp_error"
    };
    sftp_downstream_error(kind, message, retryable)
}

/// The label that a failure is counted and audited under.
pub open spec fn failure_label(message: Seq<char>) -> Seq<char> {
    if mentions_timeout(message) {
        "timeout"@
    } else if is_retryable(message) {
        "transport_error"@
    } else {
        "sftp_error"@
    }
}

/// The label that a failure is counted and audited under.
pub fn label_for_failure(message: &str) -> (r: &'static str)
    ensures
        r@ == failure_label(message@),
{
    let lower = judged_text(message);
    if contains_text(lower.as_str(), "timed out") || contains_text(lower.as_str(), "timeout") {
        "timeout"
    } else if retryable_message(message) {
        "transport_error"
    } else {
        "sftp_error"
    }
}

// ------------------------------------------------------------------ envelope

/// An outcome and its duration as the envelope's `response`.
pub open spec fn response_view(outcome: OutcomeView, duration_ms: nat) -> JsonView {
    JsonView::Object(
        map![
            "entries"@ => match outcome.entries {
                Some(entries) => JsonView::Array(entries),
                None => JsonView::Null,
            },
            "count"@ => number_or_null(
                match outcome.entries {
                    Some(entries) => Some(entries.len()),
                    None => None,
                },
            ),
            "content"@ => match outcome.content {
                Some(content) => content,
                None => JsonView::Null,
            },
            "size"@ => number_or_null(outcome.size),
            "written"@ => number_or_null(outcome.written),
            "durationMs"@ => JsonView::Number(duration_ms),
        ],
    )
}

/// The whole envelope.
pub open spec fn envelope_view(
    tool_name: Seq<char>,
    profile_name: Seq<char>,
    op: Seq<char>,
    host: Seq<char>,
    path: Seq<char>,
    outcome: Option<OutcomeView>,
    duration_ms: nat,
    downstream_error: Option<JsonView>,
    error: Option<Seq<char>>,
) -> JsonView {
    JsonView::Object(
        map![
            "toolName"@ => JsonView::Text(tool_name),
            "profile"@ => JsonView::Text(profile_name),
            "request"@ => JsonView::Object(
                map![
                    "op"@ => JsonView::Text(op),
                    "host"@ => JsonView::Text(host),
                    "path"@ => JsonView::Text(path),
                ],
            ),
            "response"@ => match outcome {
                Some(outcome) => response_view(outcome, duration_ms),
                None => JsonView::Null,
            },
            "downstreamError"@ => match downstream_error {
                Some(error) => error,
                None => JsonView::Null,
            },
            "downstreamErrors"@ => JsonView::Array(
                match downstream_error {
                    Some(error) => seq![error],
                    None => Seq::empty(),
                },
            ),
            "error"@ => text_or_null(error),
        ],
    )
}

/// The view of an optional value.
pub open spec fn opt_json(json: Option<&Json>) -> Option<JsonView> {
    match json {
        Some(json) => Some(json@),
        None => None,
    }
}

/// The view of an optional outcome.
pub open spec fn opt_outcome(outcome: Option<&SftpOutcome>) -> Option<OutcomeView> {
    match outcome {
        Some(outcome) => Some(outcome@),
        None => None,
    }
}

/// The number of a size, where there is one.
fn size_json(n: Option<usize>) -> (r: Json)
    ensures
        r@ == number_or_null(opt_size(n)),
{
    match n {
        Some(n) => Json::Number(n as u64),
        None => Json::Null,
    }
}

/// Builds the envelope's `response`.
fn build_response(outcome: &SftpOutcome, duration_ms: u64) -> (r: Json)
    ensures
        r@ == response_view(outcome@, duration_ms as nat),
{
    let (entries, count) = match &outcome.entries {
        Some(entries) => {
            proof {
                lemma_items_index(entries@);
            }
            (Json::Array(clone_items(entries)), Json::Number(entries.len() as u64))
        },
        None => (Json::Null, Json::Null),
    };
    let content = match &outcome.content {
        Some(content) => content.clone(),
        None => Json::Null,
    };
    let mut members: Vec<(String, Json)> = Vec::new();
    put(&mut members, "entries", entries);
    put(&mut members, "count", count);
    put(&mut members, "content", content);
    put(&mut members, "size", size_json(outcome.size));
    put(&mut members, "written", size_json(outcome.written));
    put(&mut members, "durationMs", Json::Number(duration_ms));
    Json::Object(members)
}

/// Builds the structured-content envelope.
pub fn build_result_envelope(
    tool_name: &str,
    profile_name: &str,
    op: &str,
    host: &str,
    path: &str,
    outcome: Option<&SftpOutcome>,
    duration_ms: u128,
    downstream_error: Option<&Json>,
    error: Option<&str>,
) -> (r: Json)
    requires
        outcome is Some ==> duration_ms <= u64::MAX,
    ensures
        r@ == envelope_view(
            tool_name@,
            profile_name@,
            op@,
            host@,
            path@,
            opt_outcome(outcome),
            duration_ms as nat,
            opt_json(downstream_error),
            opt_str(error),
        ),
{
    let response = match outcome {
        Some(outcome) => build_response(outcome, duration_ms as u64),
        None => Json::Null,
    };
    let mut request: Vec<(String, Json)> = Vec::new();
    put(&mut request, "op", text(op));
    put(&mut request, "host", text(host));
    put(&mut request, "path", text(path));
    let mut errors: Vec<Json> = Vec::new();
    let first = match downstream_error {
        Some(error) => {
            let copy = error.clone();
            proof {
                lemma_items_push(errors@, copy);
                assert(items_view(errors@.push(copy)) =~= seq![error@]);
            }
            errors.push(copy);
            error.clone()
        },
        None => Json::Null,
    };
    let mut members: Vec<(String, Json)> = Vec::new();
    put(&mut members, "toolName", text(tool_name));
    put(&mut members, "profile", text(profile_name));
    put(&mut members, "request", Json::Object(request));
    put(&mut members, "response", response);
    put(&mut members, "downstreamError", first);
    put(&mut members, "downstreamErrors", Json::Array(errors));
    put(&mut members, "error", opt_text_json(error));
    Json::Object(members)
}

// ---------------------------------------------------------------------- laws

/// A failure's label and its classification agree: it is labelled `sftp_error`
/// exactly where it is not retryable, and every timeout is retryable.
pub proof fn law_label_agrees_with_classification(message: Seq<char>)
    ensures
        (failure_label(message) == "sftp_error"@) == !is_retryable(message),
        (failure_kind(message) == "transport_error"@) == is_retryable(message),
        mentions_timeout(message) ==> is_retryable(message),
        failure_label(message) == "timeout"@ <==> mentions_timeout(message),
{
    reveal_strlit("sftp_error");
    reveal_strlit("timeout");
    reveal_strlit("transport_error");
    assert("sftp_error"@.len() == 10 && "timeout"@.len() == 7 && "transport_error"@.len() == 15);
}

/// What stands in a text stands, lowered, in the lowered text, whatever follows.
proof fn lemma_lowered_occurs(head: Seq<char>, tail: Seq<char>, needle: Seq<char>, at: int)
    requires
        occurs_at(lowered(head), needle, at),
    ensures
        occurs(lowered(head + tail), needle),
{
    let whole = lowered(head + tail);
    assert(whole.subrange(at, at + needle.len()) =~= lowered(head).subrange(
        at,
        at + needle.len(),
    ));
    assert(occurs_at(whole, needle, at));
}

/// A message that does not begin with `SFTP` and the name of a step on a file is
/// judged whole.
pub proof fn lemma_judged_whole(message: Seq<char>)
    requires
        message.len() >= 9,
        message[0] == 'S' && message[1] == 'F' && message[4] == ' ' ==> message[5] == 's' || (
        message[5] == 'o' && message[8] != 'n'),
    ensures
        judged(message) == message,
{
    assert forall|step: FileStep| !(#[trigger] file_head(step)).is_prefix_of(message) by {
        lemma_file_heads(step);
        let head = file_head(step);
        if head.is_prefix_of(message) {
            assert(head[0] == message[0] && head[1] == message[1] && head[4] == message[4]);
            assert(head[5] == message[5] && head[8] == message[8]);
        }
    }
    lemma_no_detail(message);
}

/// A failed step of opening a session is judged by its whole message.
proof fn lemma_session_failure_is_judged_whole(step: SessionStep, detail: Seq<char>)
    ensures
        judged(step.failure() + detail) == step.failure() + detail,
{
    reveal_strlit("SSH connect failed: ");
    reveal_strlit("SSH auth failed: ");
    reveal_strlit("SSH channel open failed: ");
    reveal_strlit("SFTP subsystem request failed: ");
    reveal_strlit("SFTP session init failed: ");
    lemma_judged_whole(step.failure() + detail);
}

/// Failing to connect, to open a channel or to open the session is retryable,
/// whatever the detail says.
pub proof fn law_connection_failures_are_retryable(step: SessionStep, detail: Seq<char>)
    requires
        step is Connect || step is ChannelOpen || step is SessionInit,
    ensures
        is_retryable(step.failure() + detail),
{
    lemma_session_failure_is_judged_whole(step, detail);
    match step {
        SessionStep::Connect => {
            reveal_strlit("SSH connect failed: ");
            reveal_strlit("connect failed");
            let head = "SSH connect failed: "@;
            assert(lowered(head).subrange(4, 18) =~= "connect failed"@);
            lemma_lowered_occurs(head, detail, "connect failed"@, 4);
        },
        SessionStep::ChannelOpen => {
            reveal_strlit("SSH channel open failed: ");
            reveal_strlit("channel open failed");
            let head = "SSH channel open failed: "@;
            assert(lowered(head).subrange(4, 23) =~= "channel open failed"@);
            lemma_lowered_occurs(head, detail, "channel open failed"@, 4);
        },
        _ => {
            reveal_strlit("SFTP session init failed: ");
            reveal_strlit("session init failed");
            let head = "SFTP session init failed: "@;
            assert(lowered(head).subrange(5, 24) =~= "session init failed"@);
            lemma_lowered_occurs(head, detail, "session init failed"@, 5);
        },
    }
}

/// The two characters stand side by side.
spec fn has_pair(s: Seq<char>, x: char, y: char) -> bool {
    exists|i: int| 0 <= i < s.len() - 1 && #[trigger] s[i] == x && s[i + 1] == y
}

/// What occurs in a text brings its pairs.
proof fn lemma_occurs_brings_pair(s: Seq<char>, needle: Seq<char>, k: int)
    requires
        occurs(s, needle),
        0 <= k < needle.len() - 1,
    ensures
        has_pair(s, needle[k], needle[k + 1]),
{
    let at = choose|at: int| occurs_at(s, needle, at);
    let found = s.subrange(at, at + needle.len());
    assert(found[k] == s[at + k]);
    assert(found[k + 1] == s[at + k + 1]);
}

/// The lowered text is without four pairs of letters, one of which stands in whatever
/// speaks of the connection.
spec fn without_pairs(text: Seq<char>) -> bool {
    &&& !has_pair(lowered(text), 'f', 'a')
    &&& !has_pair(lowered(text), 'i', 'm')
    &&& !has_pair(lowered(text), 'o', 'k')
    &&& !has_pair(lowered(text), 'e', 't')
}

/// A pair in two texts stands in one of them, or across.
proof fn lemma_pair_across(a: Seq<char>, b: Seq<char>, x: char, y: char)
    requires
        has_pair(a + b, x, y),
    ensures
        has_pair(a, x, y) || has_pair(b, x, y) || (a.len() > 0 && b.len() > 0 && a.last() == x
            && b[0] == y),
{
    let whole = a + b;
    let i = choose|i: int| 0 <= i < whole.len() - 1 && #[trigger] whole[i] == x && whole[i + 1] == y;
    if i + 1 < a.len() {
        assert(a[i] == x && a[i + 1] == y);
    } else if i >= a.len() {
        assert(b[i - a.len()] == x && b[i - a.len() + 1] == y);
    }
}

/// Two texts without the pairs are without them together, where the second begins
/// with none of the letters that end a pair.
proof fn lemma_without_pairs_together(a: Seq<char>, b: Seq<char>)
    requires
        without_pairs(a),
        without_pairs(b),
        b.len() > 0,
        lowered(b)[0] != 'a' && lowered(b)[0] != 'm' && lowered(b)[0] != 'k' && lowered(b)[0] != 't',
    ensures
        without_pairs(a + b),
{
    let whole = lowered(a + b);
    assert(whole =~= lowered(a) + lowered(b));
    if has_pair(whole, 'f', 'a') {
        lemma_pair_across(lowered(a), lowered(b), 'f', 'a');
    }
    if has_pair(whole, 'i', 'm') {
        lemma_pair_across(lowered(a), lowered(b), 'i', 'm');
    }
    if has_pair(whole, 'o', 'k') {
        lemma_pair_across(lowered(a), lowered(b), 'o', 'k');
    }
    if has_pair(whole, 'e', 't') {
        lemma_pair_across(lowered(a), lowered(b), 'e', 't');
    }
}

/// A text without the pairs does not speak of the connection.
proof fn lemma_without_pairs_no_connection(text: Seq<char>)
    requires
        without_pairs(text),
    ensures
        !tells_connection(text),
{
    let s = lowered(text);
    reveal_strlit("connect failed");
    reveal_strlit("timed out");
    reveal_strlit("timeout");
    reveal_strlit("channel open failed");
    reveal_strlit("broken pipe");
    reveal_strlit("connection reset");
    reveal_strlit("session init failed");
    if occurs(s, "connect failed"@) {
        lemma_occurs_brings_pair(s, "connect failed"@, 8);
    }
    if occurs(s, "timed out"@) {
        lemma_occurs_brings_pair(s, "timed out"@, 1);
    }
    if occurs(s, "timeout"@) {
        lemma_occurs_brings_pair(s, "timeout"@, 1);
    }
    if occurs(s, "channel open failed"@) {
        lemma_occurs_brings_pair(s, "channel open failed"@, 13);
    }
    if occurs(s, "broken pipe"@) {
        lemma_occurs_brings_pair(s, "broken pipe"@, 2);
    }
    if occurs(s, "connection reset"@) {
        lemma_occurs_brings_pair(s, "connection reset"@, 14);
    }
    if occurs(s, "session init failed"@) {
        lemma_occurs_brings_pair(s, "session init failed"@, 13);
    }
}

/// The message on a rejected password is without the pairs.
proof fn lemma_auth_rejected_without_pairs()
    ensures
        without_pairs(AUTH_REJECTED@),
        judged(AUTH_REJECTED@) == AUTH_REJECTED@,
{
    reveal_strlit("SSH authentication rejected (bad username/password or host key)");
    lemma_judged_whole(AUTH_REJECTED@);
}

/// The message on a refused path is without the pairs.
proof fn lemma_path_climbs_without_pairs()
    ensures
        without_pairs(PATH_CLIMBS@),
        judged(PATH_CLIMBS@) == PATH_CLIMBS@,
{
    reveal_strlit("path must not contain '..' segments");
    lemma_judged_whole(PATH_CLIMBS@);
}

/// A number is without the pairs.
proof fn lemma_decimal_without_pairs(n: nat)
    ensures
        without_pairs(decimal(n)),
        lowered(decimal(n))[0] == decimal(n)[0],
        '0' <= decimal(n)[0] <= '9',
{
    lemma_decimal_is_digits(n);
    let s = lowered(decimal(n));
    assert forall|i: int| 0 <= i < s.len() implies '0' <= #[trigger] s[i] <= '9' by {
        assert(s[i] == ascii_lower(decimal(n)[i]));
    }
}

/// The message on a size above the cap is without the pairs, where what exceeds it is.
proof fn lemma_cap_message_without_pairs(what: Seq<char>, max_bytes: nat)
    requires
        what.len() > 0,
        what[0] != 'S',
        without_pairs(what),
    ensures
        without_pairs(cap_message(what, max_bytes)),
        judged(cap_message(what, max_bytes)) == cap_message(what, max_bytes),
{
    reveal_strlit(" exceeds max_bytes (");
    reveal_strlit(")");
    let middle = " exceeds max_bytes ("@;
    assert(lowered(middle)[0] == ' ');
    assert(without_pairs(middle));
    assert(without_pairs(")"@));
    lemma_decimal_without_pairs(max_bytes);
    lemma_without_pairs_together(what, middle);
    lemma_without_pairs_together(what + middle, decimal(max_bytes));
    lemma_without_pairs_together(what + middle + decimal(max_bytes), ")"@);
    assert(cap_message(what, max_bytes)[0] == what[0]);
    lemma_judged_whole(cap_message(what, max_bytes));
}

/// What a caller or a configuration has to mend is not retryable: a rejected
/// password, a refused path, and a size above the cap, whatever the cap.
pub proof fn law_refusals_are_not_retryable(max_bytes: nat)
    ensures
        !is_retryable(AUTH_REJECTED@),
        !is_retryable(PATH_CLIMBS@),
        !is_retryable(cap_message("file"@, max_bytes)),
        !is_retryable(cap_message("content"@, max_bytes)),
{
    lemma_auth_rejected_without_pairs();
    lemma_without_pairs_no_connection(AUTH_REJECTED@);
    lemma_path_climbs_without_pairs();
    lemma_without_pairs_no_connection(PATH_CLIMBS@);
    reveal_strlit("file");
    lemma_cap_message_without_pairs("file"@, max_bytes);
    lemma_without_pairs_no_connection(cap_message("file"@, max_bytes));
    reveal_strlit("content");
    lemma_cap_message_without_pairs("content"@, max_bytes);
    lemma_without_pairs_no_connection(cap_message("content"@, max_bytes));
}

/// A failed step on a file goes by its detail, whatever the path: it is retryable, or
/// a timeout, exactly where the detail is. `No such file` is neither, whatever the
/// file is named.
pub proof fn law_file_failures_go_by_their_detail(
    step: FileStep,
    path: Seq<char>,
    detail: Seq<char>,
)
    requires
        !occurs(detail, FILE_SEAM@),
    ensures
        is_retryable(file_message(step, path, detail)) <==> is_retryable(detail),
        mentions_timeout(file_message(step, path, detail)) <==> mentions_timeout(detail),
        failure_label(file_message(step, path, detail)) == failure_label(detail),
{
    lemma_detail_is_found(step, path, detail);
}

}
