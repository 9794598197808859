//! Laws of calls: from the payload to what is done, and from the reply to the answer.

use vstd::prelude::*;
use vstd::utf8::*;

use crate::arguments::payload_arguments;
use crate::arguments::put_content;
use crate::arguments::ArgumentsView;
use crate::call::called_tool;
use crate::call::header_views;
use crate::call::CallEvent;
use crate::call::CallPlan;
use crate::call::presentable_reply;
use crate::call::PendingCall;
use crate::call::ReplyView;
use crate::call::SftpAction;
use crate::call::SftpReply;
use crate::json::json_parsing;
use crate::json::JsonView;
use crate::laws::answers::law_envelope_holds_the_call;
use crate::laws::answers::law_response_holds_the_outcome;
use crate::laws::values::law_list_keeps_its_items;
use crate::profile::SftpProfile;
use crate::sftp::base64_decoding;
use crate::sftp::base64_encoding;
use crate::sftp::climbs;
use crate::sftp::resolved;
use crate::surface::filled;
use crate::surface::mime_of;
use crate::surface::recovered;
use crate::surface::Surface;
use crate::text::blank;
use crate::text::decimal;
use crate::text::lowered;
use crate::types::SftpOp;

verus! {

/// The string under a name in an object.
pub open spec fn string_under(members: Map<Seq<char>, JsonView>, name: Seq<char>) -> Option<
    Seq<char>,
> {
    if members.contains_key(name) && members[name] is Text {
        Some(members[name]->Text_0)
    } else {
        None
    }
}

/// Each argument of a call is the string of its own name in the payload's object.
pub proof fn law_arguments_are_the_strings_of_their_names(
    payload: Seq<u8>,
    members: Map<Seq<char>, JsonView>,
)
    requires
        payload.len() > 0,
        json_parsing(payload) == Some(JsonView::Object(members)),
    ensures
        payload_arguments(payload).path == string_under(members, "path"@),
        payload_arguments(payload).uri == string_under(members, "uri"@),
        payload_arguments(payload).content == string_under(members, "content"@),
        payload_arguments(payload).text == string_under(members, "text"@),
{
}

/// A payload that is empty, or no JSON, or no object, carries no argument.
pub proof fn law_no_object_no_arguments(payload: Seq<u8>)
    requires
        payload.len() == 0 || json_parsing(payload) is None || !(json_parsing(payload)->0
            is Object),
    ensures
        payload_arguments(payload).path is None,
        payload_arguments(payload).uri is None,
        payload_arguments(payload).content is None,
        payload_arguments(payload).text is None,
{
}

/// What a `put` writes: all the bytes that its `content` decodes to, and without a
/// `content` all the bytes of its `text`.
pub proof fn law_put_writes_every_byte_of_its_argument(args: ArgumentsView)
    ensures
        args.content matches Some(b64) ==> (base64_decoding(b64) matches Ok(data) ==> put_content(
            args,
        ) == Ok::<Seq<u8>, Seq<char>>(data)),
        args.content matches Some(b64) ==> (base64_decoding(b64) matches Err(why) ==> put_content(
            args,
        ) == Err::<Seq<u8>, Seq<char>>("'content' is not valid base64: "@ + why)),
        args.content is None && args.text is Some ==> put_content(args) == Ok::<
            Seq<u8>,
            Seq<char>,
        >(encode_utf8(args.text->0)),
        args.content is None && args.text is None ==> put_content(args) == Err::<
            Seq<u8>,
            Seq<char>,
        >("put requires a 'content' (base64) or 'text' argument"@),
{
}

/// A call of a `put` binding whose payload names a path and a base64 content writes the
/// decoded bytes to that path under the root.
pub proof fn law_base64_content_is_written(
    plan: CallPlan,
    profile: SftpProfile,
    payload: Seq<u8>,
    members: Map<Seq<char>, JsonView>,
    path: Seq<char>,
    b64: Seq<char>,
)
    requires
        plan.is_for(profile, payload_arguments(payload)),
        profile.surface == Surface::Tool,
        profile.op == SftpOp::Put,
        payload.len() > 0,
        json_parsing(payload) == Some(JsonView::Object(members)),
        members.contains_key("path"@) && members["path"@] == JsonView::Text(path),
        members.contains_key("content"@) && members["content"@] == JsonView::Text(b64),
        !blank(path),
        !climbs(path),
        base64_decoding(b64) is Ok,
        base64_decoding(b64)->Ok_0.len() <= profile.max_bytes,
    ensures
        plan.action matches Ok(SftpAction::Put { path: target, content }) && target@ == resolved(
            profile.root@,
            path,
        ) && content@ == base64_decoding(b64)->Ok_0,
{
}

/// A call of a `put` binding whose payload names a path and a text, and no content,
/// writes the text's bytes to that path under the root.
pub proof fn law_text_is_written(
    plan: CallPlan,
    profile: SftpProfile,
    payload: Seq<u8>,
    members: Map<Seq<char>, JsonView>,
    path: Seq<char>,
    text: Seq<char>,
)
    requires
        plan.is_for(profile, payload_arguments(payload)),
        profile.surface == Surface::Tool,
        profile.op == SftpOp::Put,
        payload.len() > 0,
        json_parsing(payload) == Some(JsonView::Object(members)),
        members.contains_key("path"@) && members["path"@] == JsonView::Text(path),
        members.contains_key("text"@) && members["text"@] == JsonView::Text(text),
        !members.contains_key("content"@),
        !blank(path),
        !climbs(path),
        encode_utf8(text).len() <= profile.max_bytes,
    ensures
        plan.action matches Ok(SftpAction::Put { path: target, content }) && target@ == resolved(
            profile.root@,
            path,
        ) && content@ == encode_utf8(text),
{
}

/// What a call on the tool surface is about: its `path`, as the caller wrote it.
pub open spec fn asked_path(args: ArgumentsView) -> Seq<char> {
    match args.path {
        Some(path) => path,
        None => Seq::empty(),
    }
}

/// On the tool surface a call performs the binding's operation on the path that the
/// caller names, under the root; it is refused exactly where the path has a `..`, where
/// a file is needed and none is named, and where there is nothing to put or too much.
pub proof fn law_tool_calls_do_what_is_asked(
    plan: CallPlan,
    profile: SftpProfile,
    args: ArgumentsView,
)
    requires
        plan.is_for(profile, args),
        profile.surface == Surface::Tool,
    ensures
        ({
            let asked = asked_path(args);
            let target = resolved(profile.root@, asked);
            let needs_file = profile.op != SftpOp::List;
            &&& plan.path_arg@ == asked
            &&& plan.resource_path is None
            &&& needs_file && blank(asked) ==> (plan.action matches Err(why) && why@ == "op '"@ + (
            if profile.op == SftpOp::Get {
                "get"@
            } else {
                "put"@
            }) + "' requires a 'path' argument"@)
            &&& climbs(asked) && !(needs_file && blank(asked)) ==> (plan.action matches Err(why)
                && why@ == "path must not contain '..' segments"@)
            &&& !climbs(asked) && profile.op == SftpOp::List ==> (plan.action matches Ok(
                SftpAction::List { path },
            ) && path@ == target)
            &&& !climbs(asked) && !blank(asked) && profile.op == SftpOp::Get ==> (
            plan.action matches Ok(SftpAction::Get { path }) && path@ == target)
            &&& !climbs(asked) && !blank(asked) && profile.op == SftpOp::Put ==> match put_content(
                args,
            ) {
                Ok(data) => if data.len() <= profile.max_bytes {
                    plan.action matches Ok(SftpAction::Put { path, content }) && path@ == target
                        && content@ == data
                } else {
                    plan.action matches Err(why) && why@ == "content"@ + " exceeds max_bytes ("@
                        + decimal(profile.max_bytes as nat) + ")"@
                },
                Err(reason) => plan.action matches Err(why) && why@ == reason,
            }
        }),
{
    reveal_strlit("");
    assert(""@ =~= Seq::<char>::empty());
}

/// On the resource surface a call reads one file, whatever the binding's operation: that
/// of the pinned URI, else that of the URI that is asked for, else that of the path that
/// is asked for; what is blank is passed over.
pub proof fn law_resource_calls_read_what_is_asked(
    plan: CallPlan,
    profile: SftpProfile,
    args: ArgumentsView,
)
    requires
        plan.is_for(profile, args),
        profile.surface == Surface::Resource,
    ensures
        ({
            let pinned = profile.static_uri matches Some(uri) && !blank(uri@);
            let by_uri = !pinned && args.uri is Some && !blank(args.uri->0);
            let by_path = !pinned && !by_uri && args.path is Some && !blank(args.path->0);
            let path = if pinned {
                recovered(profile.uri_template@, profile.static_uri->0@)
            } else if by_uri {
                recovered(profile.uri_template@, args.uri->0)
            } else {
                args.path->0
            };
            &&& pinned || by_uri || by_path ==> {
                &&& plan.resource_path matches Some(named) && named@ == path
                &&& plan.path_arg@ == path
                &&& blank(path) ==> (plan.action matches Err(why) && why@ == "op '"@ + "get"@
                    + "' requires a 'path' argument"@)
                &&& !blank(path) && climbs(path) ==> (plan.action matches Err(why) && why@
                    == "path must not contain '..' segments"@)
                &&& !blank(path) && !climbs(path) ==> (plan.action matches Ok(
                    SftpAction::Get { path: target },
                ) && target@ == resolved(profile.root@, path))
            }
            &&& !pinned && !by_uri && !by_path ==> {
                &&& plan.resource_path is None
                &&& plan.action matches Err(why) && why@
                    == "resource surface requires a `uri` (set a static `uri` on the binding or invoke via a resources/read request)"@
            }
        }),
{
}

/// A call is made for the tool that its first `mcpg-tool-name` header names, in any
/// ASCII case, and as the header writes it.
pub proof fn law_tool_is_named_by_the_first_header(
    headers: Seq<(String, String)>,
    backend_name: Seq<char>,
    i: int,
)
    requires
        0 <= i < headers.len(),
        lowered(headers[i].0@) == "mcpg-tool-name"@,
        forall|j: int| 0 <= j < i ==> lowered((#[trigger] headers[j]).0@) != "mcpg-tool-name"@,
    ensures
        called_tool(header_views(headers), backend_name) == headers[i].1@,
{
    reveal_strlit("mcpg-tool-name");
    assert(lowered("mcpg-tool-name"@) =~= "mcpg-tool-name"@);
    lemma_first_header(header_views(headers), "mcpg-tool-name"@, i);
}

/// Without such a header the call is made for the binding.
pub proof fn law_tool_is_the_binding_without_a_header(
    headers: Seq<(String, String)>,
    backend_name: Seq<char>,
)
    requires
        forall|j: int|
            0 <= j < headers.len() ==> lowered((#[trigger] headers[j]).0@) != "mcpg-tool-name"@,
    ensures
        called_tool(header_views(headers), backend_name) == backend_name,
{
    reveal_strlit("mcpg-tool-name");
    assert(lowered("mcpg-tool-name"@) =~= "mcpg-tool-name"@);
    let views = header_views(headers);
    assert forall|j: int| 0 <= j < views.len() implies lowered((#[trigger] views[j]).0) != lowered(
        "mcpg-tool-name"@,
    ) by {
        assert(views[j].0 == headers[j].0@);
    }
    lemma_no_header(views, "mcpg-tool-name"@);
}

proof fn lemma_first_header(headers: Seq<(Seq<char>, Seq<char>)>, name: Seq<char>, i: int)
    requires
        0 <= i < headers.len(),
        lowered(headers[i].0) == lowered(name),
        forall|j: int| 0 <= j < i ==> lowered((#[trigger] headers[j]).0) != lowered(name),
    ensures
        crate::call::header_value(headers, name) == Some(headers[i].1),
    decreases headers.len(),
{
    if i > 0 {
        assert(lowered(headers[0].0) != lowered(name));
        let rest = headers.skip(1);
        assert forall|j: int| 0 <= j < i - 1 implies lowered((#[trigger] rest[j]).0) != lowered(
            name,
        ) by {
            assert(rest[j] == headers[j + 1]);
        }
        lemma_first_header(rest, name, i - 1);
    }
}

proof fn lemma_no_header(headers: Seq<(Seq<char>, Seq<char>)>, name: Seq<char>)
    requires
        forall|j: int| 0 <= j < headers.len() ==> lowered((#[trigger] headers[j]).0) != lowered(
            name,
        ),
    ensures
        crate::call::header_value(headers, name) is None,
    decreases headers.len(),
{
    if headers.len() > 0 {
        let rest = headers.skip(1);
        assert forall|j: int| 0 <= j < rest.len() implies lowered((#[trigger] rest[j]).0)
            != lowered(name) by {
            assert(rest[j] == headers[j + 1]);
        }
        lemma_no_header(rest, name);
    }
}

/// What stands in an answer for the bytes of a file: the text whose UTF-8 they are, or
/// their base64 form; never both. To put it back is to write those bytes, every one of
/// them, as far as base64 gives back what it was given.
pub open spec fn stands_for(
    text: Option<JsonView>,
    b64: Option<JsonView>,
    data: Seq<u8>,
) -> bool {
    if valid_utf8(data) {
        b64 is None && text is Some && text->0 is Text && encode_utf8(text->0->Text_0) == data
    } else {
        text is None && b64 == Some(JsonView::Text(base64_encoding(data)))
    }
}

/// The answer to a read on the tool surface holds every byte that was read, whatever
/// their number, and their number.
pub proof fn law_read_is_answered_with_every_byte(
    call: PendingCall,
    data: Vec<u8>,
    duration_ms: nat,
)
    requires
        call.plan.action is Ok,
        call.profile.surface == Surface::Tool,
    ensures
        ({
            let result = call.result_of(CallEvent::Replied(SftpReply::Data(data)));
            let response = call.answer(result, duration_ms).member("response"@)->0;
            let content = response.member("content"@)->0;
            &&& stands_for(content.member("text"@), content.member("base64"@), data@)
            &&& response.member("size"@) == Some(JsonView::Number(data@.len()))
            &&& response.member("entries"@) == Some(JsonView::Null)
            &&& response.member("written"@) == Some(JsonView::Null)
            &&& put_content(
                ArgumentsView {
                    path: None,
                    uri: None,
                    content: content.text_member("base64"@),
                    text: content.text_member("text"@),
                },
            ) == (if valid_utf8(data@) {
                Ok::<Seq<u8>, Seq<char>>(data@)
            } else {
                match base64_decoding(base64_encoding(data@)) {
                    Ok(bytes) => Ok(bytes),
                    Err(why) => Err("'content' is not valid base64: "@ + why),
                }
            })
        }),
{
    reveal_strlit("text");
    reveal_strlit("base64");
    assert("text"@.len() == 4 && "base64"@.len() == 6);
    let result = call.result_of(CallEvent::Replied(SftpReply::Data(data)));
    lemma_answer_of(call, result, duration_ms);
    law_response_holds_the_outcome(crate::call::outcome_of(result->Ok_0), duration_ms);
    if valid_utf8(data@) {
        decode_utf8_encode_utf8(data@);
    }
}

/// The answer to a read on the resource surface is one entry with every byte that was
/// read: as `text`, or as a base64 `blob`; with the URI of the path that was read, and
/// the media type of that path where it has one.
pub proof fn law_resource_is_answered_with_every_byte(
    call: PendingCall,
    data: Vec<u8>,
    duration_ms: nat,
)
    requires
        call.plan.action is Ok,
        call.profile.surface == Surface::Resource,
    ensures
        ({
            let result = call.result_of(CallEvent::Replied(SftpReply::Data(data)));
            let answer = call.answer(result, duration_ms);
            &&& answer.member("contents"@) matches Some(JsonView::Array(contents))
            &&& contents.len() == 1
            &&& stands_for(contents[0].member("text"@), contents[0].member("blob"@), data@)
            &&& call.plan.resource_path matches Some(path) ==> contents[0].member("uri"@) == Some(
                JsonView::Text(filled(call.profile.uri_template@, path@)),
            )
            &&& mime_of(call.plan.path_arg@) is None ==> contents[0].member("mimeType"@) is None
            &&& mime_of(call.plan.path_arg@) is Some ==> contents[0].member("mimeType"@) == Some(
                JsonView::Text(mime_of(call.plan.path_arg@)->0),
            )
        }),
{
    reveal_strlit("text");
    reveal_strlit("base64");
    reveal_strlit("blob");
    reveal_strlit("uri");
    reveal_strlit("mimeType");
    assert("text"@[0] == 't' && "blob"@[0] == 'b');
    assert("text"@.len() == 4 && "base64"@.len() == 6 && "blob"@.len() == 4 && "uri"@.len() == 3
        && "mimeType"@.len() == 8);
    if valid_utf8(data@) {
        decode_utf8_encode_utf8(data@);
    }
}

/// Every read can be answered, but where bytes that are no text have a base64 form that
/// does not fit memory.
pub proof fn law_reads_can_be_answered(reply: ReplyView)
    ensures
        !presentable_reply(reply) ==> (reply matches ReplyView::Data(data) && !valid_utf8(data) && (
        data.len() + 2) / 3 * 4 > isize::MAX),
{
}

/// The answer to a listing holds every entry at its place, and their number.
pub proof fn law_listing_is_answered_whole(
    call: PendingCall,
    entries: Vec<crate::json::Json>,
    duration_ms: nat,
)
    requires
        call.plan.action is Ok,
        call.profile.surface == Surface::Tool,
    ensures
        ({
            let result = call.result_of(CallEvent::Replied(SftpReply::Entries(entries)));
            let response = call.answer(result, duration_ms).member("response"@)->0;
            &&& response.member("entries"@) matches Some(JsonView::Array(listed))
            &&& listed.len() == entries@.len()
            &&& forall|i: int| 0 <= i < entries@.len() ==> #[trigger] listed[i] == entries@[i]@
            &&& response.member("count"@) == Some(JsonView::Number(entries@.len()))
            &&& response.member("content"@) == Some(JsonView::Null)
        }),
{
    let result = call.result_of(CallEvent::Replied(SftpReply::Entries(entries)));
    lemma_answer_of(call, result, duration_ms);
    law_response_holds_the_outcome(crate::call::outcome_of(result->Ok_0), duration_ms);
    law_list_keeps_its_items(entries);
}

/// The answer to a write holds the number of bytes that were written.
pub proof fn law_write_is_answered_with_its_size(call: PendingCall, n: usize, duration_ms: nat)
    requires
        call.plan.action is Ok,
        call.profile.surface == Surface::Tool,
    ensures
        ({
            let result = call.result_of(CallEvent::Replied(SftpReply::Written(n)));
            let response = call.answer(result, duration_ms).member("response"@)->0;
            &&& response.member("written"@) == Some(JsonView::Number(n as nat))
            &&& response.member("content"@) == Some(JsonView::Null)
            &&& response.member("entries"@) == Some(JsonView::Null)
        }),
{
    let result = call.result_of(CallEvent::Replied(SftpReply::Written(n)));
    lemma_answer_of(call, result, duration_ms);
    law_response_holds_the_outcome(crate::call::outcome_of(result->Ok_0), duration_ms);
}

/// Every answer but that of a resource read tells the tool, the binding, its operation
/// and host, and the path as the caller named it, and how long the call took.
pub proof fn law_answers_tell_the_call(call: PendingCall, event: CallEvent, duration_ms: nat)
    requires
        call.profile.surface == Surface::Tool || call.result_of(event) is Err,
    ensures
        ({
            let answer = call.answer(call.result_of(event), duration_ms);
            let request = answer.member("request"@)->0;
            &&& answer.text_member("toolName"@) == Some(call.tool_name@)
            &&& answer.text_member("profile"@) == Some(call.backend_name@)
            &&& request.text_member("op"@) == Some(
                match call.profile.op {
                    SftpOp::List => "list"@,
                    SftpOp::Get => "get"@,
                    SftpOp::Put => "put"@,
                },
            )
            &&& request.text_member("host"@) == Some(call.profile.conn.host@)
            &&& request.text_member("path"@) == Some(call.plan.path_arg@)
            &&& call.result_of(event) is Ok ==> answer.member("response"@)->0.member("durationMs"@)
                == Some(JsonView::Number(duration_ms))
        }),
{
    let result = call.result_of(event);
    lemma_answer_of(call, result, duration_ms);
    if result is Ok {
        law_response_holds_the_outcome(crate::call::outcome_of(result->Ok_0), duration_ms);
    }
}

/// What came of a call is what came of its operation, and a refusal of one that has
/// none.
pub proof fn law_results_are_what_came(call: PendingCall, event: CallEvent)
    ensures
        call.plan.action matches Err(why) ==> call.result_of(event) == Err::<
            ReplyView,
            Seq<char>,
        >(why@),
        call.plan.action is Ok ==> match event {
            CallEvent::Replied(reply) => call.result_of(event) == Ok::<
                ReplyView,
                Seq<char>,
            >(reply@),
            CallEvent::Failed(why) => call.result_of(event) == Err::<
                ReplyView,
                Seq<char>,
            >(why@),
            CallEvent::TimedOut => call.result_of(event) == Err::<
                ReplyView,
                Seq<char>,
            >("SFTP operation timed out"@),
        },
{
}

/// The envelope behind an answer.
proof fn lemma_answer_of(
    call: PendingCall,
    result: Result<ReplyView, Seq<char>>,
    duration_ms: nat,
)
    requires
        call.profile.surface == Surface::Tool || result is Err,
    ensures
        ({
            let answer = call.answer(result, duration_ms);
            let request = answer.member("request"@)->0;
            &&& answer.text_member("toolName"@) == Some(call.tool_name@)
            &&& answer.text_member("profile"@) == Some(call.backend_name@)
            &&& request.text_member("op"@) == Some(call.profile.op.name())
            &&& request.text_member("host"@) == Some(call.profile.conn.host@)
            &&& request.text_member("path"@) == Some(call.plan.path_arg@)
            &&& result matches Ok(reply) ==> answer.member("response"@) == Some(
                crate::envelope::response_view(crate::call::outcome_of(reply), duration_ms),
            )
        }),
{
    law_envelope_holds_the_call(
        call.tool_name@,
        call.backend_name@,
        call.profile.op.name(),
        call.profile.conn.host@,
        call.plan.path_arg@,
        match result {
            Ok(reply) => Some(crate::call::outcome_of(reply)),
            Err(_) => None,
        },
        duration_ms,
        match result {
            Ok(_) => None,
            Err(message) => Some(crate::envelope::classified(message)),
        },
        match result {
            Ok(_) => None,
            Err(message) => Some(message),
        },
    );
}

}
