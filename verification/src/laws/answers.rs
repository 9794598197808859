//! Laws of answers: what stands where in the envelope of a call, and how failures are
//! told and judged.

use vstd::prelude::*;

use crate::envelope::classified;
use crate::envelope::downstream_error_view;
use crate::envelope::envelope_view;
use crate::envelope::failure_label;
use crate::envelope::is_retryable;
use crate::envelope::mentions_timeout;
use crate::envelope::response_view;
use crate::envelope::OutcomeView;
use crate::json::JsonView;
use crate::sftp::cap_message;
use crate::sftp::file_head;
use crate::sftp::file_message;
use crate::sftp::lemma_no_detail;
use crate::sftp::FileStep;
use crate::sftp::SessionStep;
use crate::text::decimal;
use crate::text::lowered;
use crate::text::occurs;

verus! {

/// The envelope holds the tool, the binding, the request, and one error where there is
/// one; nothing else.
pub proof fn law_envelope_holds_the_call(
    tool: Seq<char>,
    binding: Seq<char>,
    op: Seq<char>,
    host: Seq<char>,
    path: Seq<char>,
    outcome: Option<OutcomeView>,
    duration_ms: nat,
    failure: Option<JsonView>,
    error: Option<Seq<char>>,
)
    ensures
        ({
            let envelope = envelope_view(
                tool,
                binding,
                op,
                host,
                path,
                outcome,
                duration_ms,
                failure,
                error,
            );
            let request = envelope.member("request"@)->0;
            &&& envelope.text_member("toolName"@) == Some(tool)
            &&& envelope.text_member("profile"@) == Some(binding)
            &&& envelope.member("request"@) is Some
            &&& request.text_member("op"@) == Some(op)
            &&& request.text_member("host"@) == Some(host)
            &&& request.text_member("path"@) == Some(path)
            &&& outcome is None ==> envelope.member("response"@) == Some(JsonView::Null)
            &&& outcome matches Some(done) ==> envelope.member("response"@) == Some(
                response_view(done, duration_ms),
            )
            &&& failure is None ==> envelope.member("downstreamError"@) == Some(JsonView::Null)
                && envelope.member("downstreamErrors"@) == Some(JsonView::Array(Seq::empty()))
            &&& failure matches Some(f) ==> envelope.member("downstreamError"@) == Some(f)
                && envelope.member("downstreamErrors"@) == Some(JsonView::Array(seq![f]))
            &&& error is None ==> envelope.member("error"@) == Some(JsonView::Null)
            &&& error matches Some(words) ==> envelope.member("error"@) == Some(
                JsonView::Text(words),
            )
            &&& forall|name: Seq<char>| #[trigger]
                envelope.member(name) is Some ==> name == "toolName"@ || name == "profile"@ || name
                    == "request"@ || name == "response"@ || name == "downstreamError"@ || name
                    == "downstreamErrors"@ || name == "error"@
            &&& forall|name: Seq<char>| #[trigger]
                request.member(name) is Some ==> name == "op"@ || name == "host"@ || name == "path"@
        }),
{
    reveal_strlit("toolName");
    reveal_strlit("profile");
    reveal_strlit("request");
    reveal_strlit("response");
    reveal_strlit("downstreamError");
    reveal_strlit("downstreamErrors");
    reveal_strlit("error");
    reveal_strlit("op");
    reveal_strlit("host");
    reveal_strlit("path");
    assert("toolName"@[0] == 't' && "response"@[0] == 'r' && "profile"@[0] == 'p' && "request"@[0]
        == 'r' && "host"@[0] == 'h' && "path"@[0] == 'p');
    assert("toolName"@.len() == 8 && "profile"@.len() == 7 && "request"@.len() == 7
        && "response"@.len() == 8 && "downstreamError"@.len() == 15 && "downstreamErrors"@.len()
        == 16 && "error"@.len() == 5 && "op"@.len() == 2 && "host"@.len() == 4 && "path"@.len()
        == 4);
}

/// A response holds each thing of its outcome under its own name, `null` for what the
/// outcome does not have, and the duration; nothing else.
pub proof fn law_response_holds_the_outcome(outcome: OutcomeView, duration_ms: nat)
    ensures
        ({
            let response = response_view(outcome, duration_ms);
            &&& outcome.entries matches Some(entries) ==> response.member("entries"@) == Some(
                JsonView::Array(entries),
            ) && response.member("count"@) == Some(JsonView::Number(entries.len()))
            &&& outcome.entries is None ==> response.member("entries"@) == Some(JsonView::Null)
                && response.member("count"@) == Some(JsonView::Null)
            &&& outcome.content matches Some(content) ==> response.member("content"@) == Some(
                content,
            )
            &&& outcome.content is None ==> response.member("content"@) == Some(JsonView::Null)
            &&& outcome.size matches Some(n) ==> response.member("size"@) == Some(
                JsonView::Number(n),
            )
            &&& outcome.size is None ==> response.member("size"@) == Some(JsonView::Null)
            &&& outcome.written matches Some(n) ==> response.member("written"@) == Some(
                JsonView::Number(n),
            )
            &&& outcome.written is None ==> response.member("written"@) == Some(JsonView::Null)
            &&& response.member("durationMs"@) == Some(JsonView::Number(duration_ms))
            &&& forall|name: Seq<char>| #[trigger]
                response.member(name) is Some ==> name == "entries"@ || name == "count"@ || name
                    == "content"@ || name == "size"@ || name == "written"@ || name == "durationMs"@
        }),
{
    reveal_strlit("entries");
    reveal_strlit("count");
    reveal_strlit("content");
    reveal_strlit("size");
    reveal_strlit("written");
    reveal_strlit("durationMs");
    assert("entries"@[0] == 'e' && "content"@[0] == 'c' && "written"@[0] == 'w');
    assert("entries"@.len() == 7 && "count"@.len() == 5 && "content"@.len() == 7 && "size"@.len()
        == 4 && "written"@.len() == 7 && "durationMs"@.len() == 10);
}

/// A downstream error holds its kind, its whole message, and what to do about it.
pub proof fn law_downstream_error_holds_the_failure(
    kind: Seq<char>,
    message: Seq<char>,
    retryable: bool,
)
    ensures
        ({
            let error = downstream_error_view(kind, message, retryable);
            &&& error.text_member("kind"@) == Some(kind)
            &&& error.text_member("code"@) == Some("mcpg.downstream_sftp."@ + kind)
            &&& error.text_member("message"@) == Some(message)
            &&& error.member("retryable"@) == Some(JsonView::Bool(retryable))
            &&& retryable ==> error.text_member("retryClass"@) == Some("with_backoff"@)
                && error.text_member("suggestedAction"@) == Some(
                "check_ssh_connectivity_and_retry"@,
            )
            &&& !retryable ==> error.text_member("retryClass"@) == Some("do_not_retry"@)
                && error.text_member("suggestedAction"@) == Some("inspect_sftp_error"@)
        }),
{
    reveal_strlit("kind");
    reveal_strlit("code");
    reveal_strlit("message");
    reveal_strlit("retryable");
    reveal_strlit("retryClass");
    reveal_strlit("suggestedAction");
    assert("kind"@[0] == 'k' && "code"@[0] == 'c');
    assert("kind"@.len() == 4 && "code"@.len() == 4 && "message"@.len() == 7 && "retryable"@.len()
        == 9 && "retryClass"@.len() == 10 && "suggestedAction"@.len() == 15);
}

/// A failure is answered as what it is judged to be, with its whole message.
pub proof fn law_failures_are_answered_as_judged(message: Seq<char>)
    ensures
        classified(message) == downstream_error_view(
            if is_retryable(message) {
                "transport_error"@
            } else {
                "sftp_error"@
            },
            message,
            is_retryable(message),
        ),
        mentions_timeout(message) ==> failure_label(message) == "timeout"@,
        !mentions_timeout(message) && is_retryable(message) ==> failure_label(message)
            == "transport_error"@,
        !is_retryable(message) ==> failure_label(message) == "sftp_error"@,
{
}

/// A failure that is not one of a step on a file is retryable if and only if one of
/// seven phrases stands in it, in any ASCII case, and a timeout if and only if one of
/// two does. It is no such failure where it does not begin as one, or has no quote with
/// ` failed: ` behind it.
pub proof fn law_failures_are_judged_by_their_words(message: Seq<char>)
    requires
        !occurs(message, "' failed: "@) || forall|step: FileStep|
            !("SFTP "@ + #[trigger] step.name() + " '"@).is_prefix_of(message),
    ensures
        is_retryable(message) <==> {
            let words = lowered(message);
            ||| occurs(words, "connect failed"@)
            ||| occurs(words, "timed out"@)
            ||| occurs(words, "timeout"@)
            ||| occurs(words, "channel open failed"@)
            ||| occurs(words, "broken pipe"@)
            ||| occurs(words, "connection reset"@)
            ||| occurs(words, "session init failed"@)
        },
        mentions_timeout(message) <==> {
            let words = lowered(message);
            occurs(words, "timed out"@) || occurs(words, "timeout"@)
        },
{
    if !occurs(message, "' failed: "@) {
        crate::sftp::lemma_detail_is_found(FileStep::Open, Seq::empty(), message);
    } else {
        assert forall|step: FileStep| !(#[trigger] file_head(step)).is_prefix_of(message) by {
            assert(!("SFTP "@ + step.name() + " '"@).is_prefix_of(message));
        }
        lemma_no_detail(message);
    }
}

/// What is said of a failed step on a file: the step, the path as it is, and the detail
/// as it is.
pub proof fn law_file_failures_tell_step_path_and_detail(
    step: FileStep,
    path: Seq<char>,
    detail: Seq<char>,
)
    ensures
        file_message(step, path, detail) == "SFTP "@ + (match step {
            FileStep::List => "list"@,
            FileStep::Open => "open"@,
            FileStep::Read => "read"@,
            FileStep::Create => "create"@,
            FileStep::Write => "write"@,
            FileStep::Flush => "flush"@,
            FileStep::Close => "close"@,
        }) + " '"@ + path + "' failed: "@ + detail,
{
}

/// What is said of a failed step of opening a session, before its detail.
pub proof fn law_session_failures_tell_their_step(step: SessionStep)
    ensures
        step.failure() == (match step {
            SessionStep::Connect => "SSH connect failed: "@,
            SessionStep::Auth => "SSH auth failed: "@,
            SessionStep::ChannelOpen => "SSH channel open failed: "@,
            SessionStep::Subsystem => "SFTP subsystem request failed: "@,
            SessionStep::SessionInit => "SFTP session init failed: "@,
        }),
{
}

/// What is said of a size above the cap tells the cap.
pub proof fn law_cap_is_told(what: Seq<char>, max_bytes: nat)
    ensures
        cap_message(what, max_bytes) == what + " exceeds max_bytes ("@ + decimal(max_bytes)
            + ")"@,
{
}

}
