//! Laws of records: what is audited of a call.

use vstd::prelude::*;

use crate::audit::audit_action;
use crate::audit::audit_details;
use crate::audit::millis;
use crate::audit::AuditEvent;
use crate::audit::AuditOutcome;
use crate::audit::PluginIdentity;
use crate::json::JsonView;
use crate::text::decimal;

verus! {

/// Which outcomes are audited, and as what.
pub proof fn law_audited_outcomes(label: Seq<char>)
    ensures
        label == "timeout"@ ==> audit_action(label) == Some(
            "dev.mcpg.backend.sftp.request_timeout"@,
        ),
        label == "transport_error"@ || label == "invalid_spec"@ ==> audit_action(label) == Some(
            "dev.mcpg.backend.sftp.request_failed"@,
        ),
        label == "sftp_error"@ ==> audit_action(label) == Some(
            "dev.mcpg.backend.sftp.operation_rejected"@,
        ),
        audit_action(label) is Some <==> label == "timeout"@ || label == "transport_error"@ || label
            == "sftp_error"@ || label == "invalid_spec"@,
{
    reveal_strlit("timeout");
    reveal_strlit("transport_error");
    reveal_strlit("sftp_error");
    reveal_strlit("invalid_spec");
    assert("timeout"@.len() == 7 && "transport_error"@.len() == 15 && "sftp_error"@.len() == 10
        && "invalid_spec"@.len() == 12);
}

/// The milliseconds of a duration are its whole milliseconds, for all durations that
/// 64 bits of milliseconds can tell.
pub proof fn law_milliseconds_are_whole(nanos: nat)
    requires
        nanos < 0x1_0000_0000_0000_0000 * 1_000_000,
    ensures
        millis(nanos) * 1_000_000 <= nanos < (millis(nanos) + 1) * 1_000_000,
{
}

/// The details of an audited call: its binding, its duration, its outcome, the alias,
/// and the reason where there is one.
pub proof fn law_audit_details_hold_the_call(
    backend_name: Seq<char>,
    label: Seq<char>,
    reason: Option<Seq<char>>,
    nanos: nat,
    alias: Seq<char>,
)
    ensures
        ({
            let details = audit_details(backend_name, label, reason, nanos, alias);
            &&& details.member("backend"@) == Some(JsonView::Text(backend_name))
            &&& details.member("duration_ms"@) == Some(JsonView::Number(millis(nanos)))
            &&& details.member("outcome"@) == Some(JsonView::Text(label))
            &&& details.member("alias"@) == Some(JsonView::Text(alias))
            &&& reason matches Some(words) ==> details.member("reason"@) == Some(
                JsonView::Text(words),
            )
            &&& reason is None ==> details.member("reason"@) is None
        }),
{
    reveal_strlit("backend");
    reveal_strlit("duration_ms");
    reveal_strlit("outcome");
    reveal_strlit("alias");
    reveal_strlit("reason");
    assert("backend"@[0] == 'b' && "outcome"@[0] == 'o');
    assert("backend"@.len() == 7 && "duration_ms"@.len() == 11 && "outcome"@.len() == 7
        && "alias"@.len() == 5 && "reason"@.len() == 6);
}

/// An audit event tells who called, what of which binding, and that it failed.
pub proof fn law_audit_event_tells_the_call(
    event: AuditEvent,
    backend_name: Seq<char>,
    label: Seq<char>,
    reason: Option<Seq<char>>,
    identity: Option<PluginIdentity>,
    request_id: Seq<char>,
    nanos: nat,
    alias: Seq<char>,
)
    requires
        event.records(backend_name, label, reason, identity, request_id, nanos, alias),
    ensures
        event.event_id@ == "sftp-"@ + request_id + "-"@ + decimal(nanos),
        identity matches Some(caller) ==> event.actor == caller,
        identity is None ==> event.actor.kind@ == "system"@ && event.actor.trust_level@
            == "verified"@ && (event.actor.subject_id matches Some(id) && id@
            == "dev.mcpg.backend.sftp"@) && event.actor.auth_provider is None
            && event.actor.issuer is None && event.actor.roles@.len() == 0
            && event.actor.groups@.len() == 0 && event.actor.scopes@.len() == 0
            && event.actor.attributes@.len() == 0,
        audit_action(label) == Some(event.action@),
        event.resource matches Some(resource) && resource@ == "sftp-binding://"@ + backend_name,
        event.outcome == AuditOutcome::Failure,
        event.request_id matches Some(id) && id@ == request_id,
        event.node_id is None,
        event.prev_event_hash is None,
        event.details@ == audit_details(backend_name, label, reason, nanos, alias),
{
}

}
