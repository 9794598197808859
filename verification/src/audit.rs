//! What is counted and audited of a call.

use vstd::prelude::*;
use vstd::string::*;

use crate::envelope::failure_label;
use crate::json::put;
use crate::json::text;
use crate::json::Json;
use crate::json::JsonView;
use crate::surface::opt_str;
use crate::text::decimal;
use crate::text::decimal_text;
use crate::text::same_text;

verus! {

/// The plugin's identifier.
pub const PLUGIN_ID: &'static str = "dev.mcpg.backend.sftp";

/// The histogram of call durations, in seconds, by `outcome`.
pub const LATENCY_HISTOGRAM: &'static str = "mcpg_sftp_backend_latency_seconds";

/// The counter of calls, by `outcome`.
pub const CALLS_COUNTER: &'static str = "mcpg_sftp_backend_calls_total";

/// Who acts.
#[derive(Debug, PartialEq, Eq)]
pub struct PluginIdentity {
    pub kind: String,
    pub trust_level: String,
    pub subject_id: Option<String>,
    pub auth_provider: Option<String>,
    pub issuer: Option<String>,
    pub roles: Vec<String>,
    pub groups: Vec<String>,
    pub scopes: Vec<String>,
    pub attributes: Vec<(String, Json)>,
}

/// How an audited action ended.
#[derive(Debug, Clone, Copy, PartialEq, Eq, Structural)]
pub enum AuditOutcome {
    Success,
    Failure,
}

/// One entry of the audit log.
#[derive(Debug, PartialEq, Eq)]
pub struct AuditEvent {
    pub event_id: String,
    pub occurred_at: String,
    pub actor: PluginIdentity,
    pub action: String,
    pub resource: Option<String>,
    pub outcome: AuditOutcome,
    pub request_id: Option<String>,
    pub node_id: Option<String>,
    pub details: Json,
    pub prev_event_hash: Option<String>,
}

/// The audited action of an outcome label; none where the outcome is not audited.
pub open spec fn audit_action(label: Seq<char>) -> Option<Seq<char>> {
    if label == "timeout"@ {
        Some("dev.mcpg.backend.sftp.request_timeout"@)
    } else if label == "transport_error"@ {
        Some("dev.mcpg.backend.sftp.request_failed"@)
    } else if label == "sftp_error"@ {
        Some("dev.mcpg.backend.sftp.operation_rejected"@)
    } else if label == "invalid_spec"@ {
        Some("dev.mcpg.backend.sftp.request_failed"@)
    } else {
        None
    }
}

/// The audited action of an outcome label.
pub fn audit_action_for_outcome(label: &str) -> (r: Option<&'static str>)
    ensures
        opt_str(r) == audit_action(label@),
{
    if same_text(label, "timeout") {
        Some("dev.mcpg.backend.sftp.request_timeout")
    } else if same_text(label, "transport_error") {
        Some("dev.mcpg.backend.sftp.request_failed")
    } else if same_text(label, "sftp_error") {
        Some("dev.mcpg.backend.sftp.operation_rejected")
    } else if same_text(label, "invalid_spec") {
        Some("dev.mcpg.backend.sftp.request_failed")
    } else {
        None
    }
}

impl PluginIdentity {
    /// The identity is the plugin's own, which stands in where the caller has none.
    pub open spec fn is_system(self) -> bool {
        &&& self.kind@ == "system"@
        &&& self.trust_level@ == "verified"@
        &&& self.subject_id matches Some(id) && id@ == PLUGIN_ID@
        &&& self.auth_provider is None
        &&& self.issuer is None
        &&& self.roles@.len() == 0
        &&& self.groups@.len() == 0
        &&& self.scopes@.len() == 0
        &&& self.attributes@.len() == 0
    }
}

/// The plugin's own identity.
pub fn synthetic_system_identity() -> (r: PluginIdentity)
    ensures
        r.is_system(),
{
    PluginIdentity {
        kind: "system".to_owned(),
        trust_level: "verified".to_owned(),
        subject_id: Some(PLUGIN_ID.to_owned()),
        auth_provider: None,
        issuer: None,
        roles: Vec::new(),
        groups: Vec::new(),
        scopes: Vec::new(),
        attributes: Vec::new(),
    }
}

/// The whole milliseconds of a duration, in 64 bits.
pub open spec fn millis(nanos: nat) -> nat {
    nanos / 1_000_000 % 0x1_0000_0000_0000_0000
}

/// The details of an audited call.
pub open spec fn audit_details(
    backend_name: Seq<char>,
    label: Seq<char>,
    reason: Option<Seq<char>>,
    nanos: nat,
    alias: Seq<char>,
) -> JsonView {
    let details = map![
        "backend"@ => JsonView::Text(backend_name),
        "duration_ms"@ => JsonView::Number(millis(nanos)),
        "outcome"@ => JsonView::Text(label),
        "alias"@ => JsonView::Text(alias),
    ];
    JsonView::Object(
        match reason {
            Some(reason) => details.insert("reason"@, JsonView::Text(reason)),
            None => details,
        },
    )
}

impl AuditEvent {
    /// The event tells of a failed call: everything in it but when it happened.
    pub open spec fn records(
        self,
        backend_name: Seq<char>,
        label: Seq<char>,
        reason: Option<Seq<char>>,
        identity: Option<PluginIdentity>,
        request_id: Seq<char>,
        nanos: nat,
        alias: Seq<char>,
    ) -> bool {
        &&& self.event_id@ == "sftp-"@ + request_id + "-"@ + decimal(nanos)
        &&& identity is Some ==> self.actor == identity->0
        &&& identity is None ==> self.actor.is_system()
        &&& Some(self.action@) == audit_action(label)
        &&& self.resource matches Some(resource) && resource@ == "sftp-binding://"@ + backend_name
        &&& self.outcome == AuditOutcome::Failure
        &&& self.request_id matches Some(id) && id@ == request_id
        &&& self.node_id is None
        &&& self.details@ == audit_details(backend_name, label, reason, nanos, alias)
        &&& self.prev_event_hash is None
    }
}

/// Builds the audit event of a call; none where its outcome is not audited.
pub fn build_audit_event(
    backend_name: &str,
    label: &str,
    reason: Option<&str>,
    identity: Option<PluginIdentity>,
    request_id: &str,
    nanos: u128,
    alias: &str,
    occurred_at: String,
) -> (r: Option<AuditEvent>)
    ensures
        r is Some <==> audit_action(label@) is Some,
        r matches Some(event) ==> event.occurred_at == occurred_at && event.records(
            backend_name@,
            label@,
            opt_str(reason),
            identity,
            request_id@,
            nanos as nat,
            alias@,
        ),
{
    match audit_action_for_outcome(label) {
        Some(action) => {
            let actor = match identity {
                Some(identity) => identity,
                None => synthetic_system_identity(),
            };
            let duration_ms: u64 = (nanos / 1_000_000 % 0x1_0000_0000_0000_0000) as u64;
            let mut details: Vec<(String, Json)> = Vec::new();
            put(&mut details, "backend", text(backend_name));
            put(&mut details, "duration_ms", Json::Number(duration_ms));
            put(&mut details, "outcome", text(label));
            put(&mut details, "alias", text(alias));
            match reason {
                Some(reason) => {
                    put(&mut details, "reason", text(reason));
                },
                None => {},
            }
            let mut event_id = "sftp-".to_owned();
            event_id.append(request_id);
            event_id.append("-");
            event_id.append(decimal_text(nanos).as_str());
            let mut resource = "sftp-binding://".to_owned();
            resource.append(backend_name);
            Some(
                AuditEvent {
                    event_id,
                    occurred_at,
                    actor,
                    action: action.to_owned(),
                    resource: Some(resource),
                    outcome: AuditOutcome::Failure,
                    request_id: Some(request_id.to_owned()),
                    node_id: None,
                    details: Json::Object(details),
                    prev_event_hash: None,
                },
            )
        },
        None => None,
    }
}

/// The character is a decimal digit.
pub open spec fn is_digit(c: char) -> bool {
    '0' <= c && c <= '9'
}

/// Two digits stand there.
pub open spec fn two_digits(s: Seq<char>, i: int) -> bool {
    is_digit(s[i]) && is_digit(s[i + 1])
}

/// The text has the shape of an RFC 3339 time in UTC with milliseconds: a year of at
/// least four characters, then `-MM-DDThh:mm:ss.fffZ`.
pub open spec fn is_utc_millis(s: Seq<char>) -> bool {
    let n = s.len() as int;
    &&& n >= 24
    &&& s[n - 20] == '-' && two_digits(s, n - 19)
    &&& s[n - 17] == '-' && two_digits(s, n - 16)
    &&& s[n - 14] == 'T' && two_digits(s, n - 13)
    &&& s[n - 11] == ':' && two_digits(s, n - 10)
    &&& s[n - 8] == ':' && two_digits(s, n - 7)
    &&& s[n - 5] == '.' && two_digits(s, n - 4) && is_digit(s[n - 2])
    &&& s[n - 1] == 'Z'
}

/// `chrono::Utc::now` written by `to_rfc3339_opts` with milliseconds and `Z`: a time
/// in that shape. Which time it is depends on the clock, and is not said.
#[verifier::external_body]
fn rfc3339_now() -> (r: String)
    ensures
        is_utc_millis(r@),
{
    chrono::Utc::now().to_rfc3339_opts(chrono::SecondsFormat::Millis, true)
}

/// Builds the audit event of a call that ended just now; none where its outcome
/// is not audited.
pub fn audit_event_now(
    backend_name: &str,
    label: &str,
    reason: Option<&str>,
    identity: Option<PluginIdentity>,
    request_id: &str,
    nanos: u128,
    alias: &str,
) -> (r: Option<AuditEvent>)
    ensures
        r is Some <==> audit_action(label@) is Some,
        r matches Some(event) ==> is_utc_millis(event.occurred_at@) && event.records(
            backend_name@,
            label@,
            opt_str(reason),
            identity,
            request_id@,
            nanos as nat,
            alias@,
        ),
{
    match audit_action_for_outcome(label) {
        Some(_) => build_audit_event(
            backend_name,
            label,
            reason,
            identity,
            request_id,
            nanos,
            alias,
            rfc3339_now(),
        ),
        None => None,
    }
}

/// Every failed call is audited, and a call that succeeded is not.
pub proof fn law_failures_are_audited(message: Seq<char>)
    ensures
        audit_action(failure_label(message)) is Some,
        audit_action("ok"@) is None,
{
    reveal_strlit("ok");
    reveal_strlit("timeout");
    reveal_strlit("transport_error");
    reveal_strlit("sftp_error");
    reveal_strlit("invalid_spec");
    assert("ok"@.len() == 2 && "timeout"@.len() == 7 && "transport_error"@.len() == 15
        && "sftp_error"@.len() == 10 && "invalid_spec"@.len() == 12);
}

}
