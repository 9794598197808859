//! One call of a binding: what it is to do, decided before any connection is
//! opened, and what is answered once it is done.

use vstd::prelude::*;
use vstd::string::*;
use vstd::utf8::*;

use crate::arguments::extract_put_content;
use crate::arguments::put_content;
use crate::arguments::ArgumentsView;
use crate::arguments::CallArguments;
use crate::envelope::build_result_envelope;
use crate::envelope::classified;
use crate::envelope::classify_error;
use crate::envelope::downstream_error_view;
use crate::envelope::envelope_view;
use crate::envelope::failure_label;
use crate::envelope::label_for_failure;
use crate::envelope::lemma_judged_whole;
use crate::envelope::response_view;
use crate::envelope::OutcomeView;
use crate::envelope::SftpOutcome;
use crate::json::items_view;
use crate::json::json_encoding;
use crate::json::opt_text;
use crate::json::put;
use crate::json::text;
use crate::json::Json;
use crate::json::JsonView;
use crate::profile::BackendError;
use crate::profile::SftpProfile;
use crate::sftp::cap_exceeded;
use crate::sftp::cap_message;
use crate::sftp::climbs;
use crate::sftp::content_view;
use crate::sftp::decode_content;
use crate::sftp::law_resolved_path_stays_under_root;
use crate::sftp::lies_under;
use crate::sftp::never_leaves;
use crate::sftp::presentable;
use crate::sftp::resolve_path;
use crate::sftp::written_back;
use crate::sftp::resolved;
use crate::sftp::PATH_CLIMBS;
use crate::surface::contents_body;
use crate::surface::filled;
use crate::surface::resolve_resource_path;
use crate::surface::resource_contents_body;
use crate::surface::resource_path;
use crate::surface::uri_for_path;
use crate::surface::Surface;
use crate::text::blank;
use crate::text::is_blank;
use crate::text::lemma_find_from;
use crate::text::lower_text;
use crate::text::lowered;
use crate::text::occurs_at;
use crate::text::same_text;
use crate::text::segments;
use crate::types::SftpOp;

verus! {

/// Said of a resource read that names no resource.
pub const RESOURCE_URI_REQUIRED: &'static str =
    "resource surface requires a `uri` (set a static `uri` on the binding or invoke via a resources/read request)";

/// Said of a call that ran into its timeout.
pub const OPERATION_TIMED_OUT: &'static str = "SFTP operation timed out";

// ------------------------------------------------------------------ tool name

/// The names and values of headers.
pub open spec fn header_views(headers: Seq<(String, String)>) -> Seq<(Seq<char>, Seq<char>)> {
    headers.map_values(|h: (String, String)| (h.0@, h.1@))
}

/// The value of the first header of a name, whatever its ASCII case.
pub open spec fn header_value(
    headers: Seq<(Seq<char>, Seq<char>)>,
    name: Seq<char>,
) -> Option<Seq<char>>
    decreases headers.len(),
{
    if headers.len() == 0 {
        None
    } else if lowered(headers[0].0) == lowered(name) {
        Some(headers[0].1)
    } else {
        header_value(headers.skip(1), name)
    }
}

/// The tool that a call is made for: the one its headers name, else the binding.
pub open spec fn called_tool(
    headers: Seq<(Seq<char>, Seq<char>)>,
    backend_name: Seq<char>,
) -> Seq<char> {
    match header_value(headers, "mcpg-tool-name"@) {
        Some(name) => name,
        None => backend_name,
    }
}

/// The tool that a call is made for.
pub fn tool_name(headers: &Vec<(String, String)>, backend_name: &str) -> (r: String)
    ensures
        r@ == called_tool(header_views(headers@), backend_name@),
{
    let wanted = lower_text("mcpg-tool-name");
    let ghost views = header_views(headers@);
    let mut i: usize = 0;
    assert(views.skip(0) =~= views);
    while i < headers.len()
        invariant
            i <= headers@.len(),
            views == header_views(headers@),
            wanted@ == lowered("mcpg-tool-name"@),
            header_value(views, "mcpg-tool-name"@) == header_value(
                views.skip(i as int),
                "mcpg-tool-name"@,
            ),
        decreases headers@.len() - i,
    {
        let name = lower_text(headers[i].0.as_str());
        assert(views.skip(i as int)[0] == (headers@[i as int].0@, headers@[i as int].1@));
        if same_text(name.as_str(), wanted.as_str()) {
            return headers[i].1.clone();
        }
        assert(views.skip(i as int).skip(1) =~= views.skip(i + 1));
        i = i + 1;
    }
    backend_name.to_owned()
}

// ------------------------------------------------------------------- planning

/// One operation on the server.
#[derive(Debug)]
pub enum SftpAction {
    List { path: String },
    Get { path: String },
    Put { path: String, content: Vec<u8> },
}

/// What an operation is.
pub enum ActionView {
    List(Seq<char>),
    Get(Seq<char>),
    Put(Seq<char>, Seq<u8>),
}

impl View for SftpAction {
    type V = ActionView;

    open spec fn view(&self) -> ActionView {
        match *self {
            SftpAction::List { path } => ActionView::List(path@),
            SftpAction::Get { path } => ActionView::Get(path@),
            SftpAction::Put { path, content } => ActionView::Put(path@, content@),
        }
    }
}

/// What a call is about, and what it is to do: the operation, or why there is
/// none.
#[derive(Debug)]
pub struct CallPlan {
    /// On the resource surface, the path that the read is about.
    pub resource_path: Option<String>,
    /// The path as the caller named it.
    pub path_arg: String,
    pub action: Result<SftpAction, String>,
}

/// The path that a resource read is about; none on the tool surface.
pub open spec fn call_resource(profile: SftpProfile, args: ArgumentsView) -> Option<Seq<char>> {
    if profile.surface is Resource {
        resource_path(
            profile.uri_template@,
            opt_text(profile.static_uri),
            args.uri,
            args.path,
        )
    } else {
        None
    }
}

/// The path as the caller named it: that of the resource, else the `path`
/// argument, else nothing.
pub open spec fn call_path(profile: SftpProfile, args: ArgumentsView) -> Seq<char> {
    match (call_resource(profile, args), args.path) {
        (Some(path), _) => path,
        (None, Some(path)) => path,
        (None, None) => ""@,
    }
}

/// The operation that a call performs: on the resource surface a read, whatever
/// the binding declares.
pub open spec fn effective_op(profile: SftpProfile) -> SftpOp {
    if profile.surface is Resource {
        SftpOp::Get
    } else {
        profile.op
    }
}

/// What a call is to do, or why it does nothing.
pub open spec fn planned(profile: SftpProfile, args: ArgumentsView) -> Result<
    ActionView,
    Seq<char>,
> {
    let op = effective_op(profile);
    let named = call_path(profile, args);
    let path = resolved(profile.root@, named);
    if profile.surface is Resource && call_resource(profile, args) is None {
        Err(RESOURCE_URI_REQUIRED@)
    } else if !(op is List) && blank(named) {
        Err("op '"@ + op.name() + "' requires a 'path' argument"@)
    } else if climbs(named) {
        Err(PATH_CLIMBS@)
    } else {
        match op {
            SftpOp::List => Ok(ActionView::List(path)),
            SftpOp::Get => Ok(ActionView::Get(path)),
            SftpOp::Put => match put_content(args) {
                Ok(content) => if content.len() > profile.max_bytes {
                    Err(cap_message("content"@, profile.max_bytes as nat))
                } else {
                    Ok(ActionView::Put(path, content))
                },
                Err(message) => Err(message),
            },
        }
    }
}

/// The view of a planned operation.
pub open spec fn action_view(action: Result<SftpAction, String>) -> Result<
    ActionView,
    Seq<char>,
> {
    match action {
        Ok(action) => Ok(action@),
        Err(message) => Err(message@),
    }
}

/// Decides the operation, given what the call is about.
fn plan_action(
    profile: &SftpProfile,
    args: &CallArguments,
    resource_path: &Option<String>,
    path_arg: &str,
) -> (r: Result<SftpAction, String>)
    requires
        opt_text(*resource_path) == call_resource(*profile, args@),
        path_arg@ == call_path(*profile, args@),
    ensures
        action_view(r) == planned(*profile, args@),
{
    let resource = profile.surface == Surface::Resource;
    let op = if resource {
        SftpOp::Get
    } else {
        profile.op
    };
    if resource && resource_path.is_none() {
        return Err(RESOURCE_URI_REQUIRED.to_owned());
    }
    if op != SftpOp::List && is_blank(path_arg) {
        let mut message = "op '".to_owned();
        message.append(op.as_str());
        message.append("' requires a 'path' argument");
        return Err(message);
    }
    let path = match resolve_path(profile.root.as_str(), path_arg) {
        Ok(path) => path,
        Err(message) => {
            return Err(message);
        },
    };
    match op {
        SftpOp::List => Ok(SftpAction::List { path }),
        SftpOp::Get => Ok(SftpAction::Get { path }),
        SftpOp::Put => match extract_put_content(args) {
            Ok(content) => if content.len() > profile.max_bytes {
                Err(cap_exceeded("content", profile.max_bytes))
            } else {
                Ok(SftpAction::Put { path, content })
            },
            Err(message) => Err(message),
        },
    }
}

impl CallPlan {
    /// The plan is that of a call with these arguments under a profile.
    pub open spec fn is_for(self, profile: SftpProfile, args: ArgumentsView) -> bool {
        &&& opt_text(self.resource_path) == call_resource(profile, args)
        &&& self.path_arg@ == call_path(profile, args)
        &&& action_view(self.action) == planned(profile, args)
    }
}

/// Decides what a call is about and what it is to do.
pub fn plan_call(profile: &SftpProfile, args: &CallArguments) -> (r: CallPlan)
    ensures
        r.is_for(*profile, args@),
{
    let resource_path: Option<String> = if profile.surface == Surface::Resource {
        let pinned: Option<&str> = match &profile.static_uri {
            Some(uri) => Some(uri.as_str()),
            None => None,
        };
        resolve_resource_path(profile.uri_template.as_str(), pinned, args)
    } else {
        None
    };
    let path_arg = match &resource_path {
        Some(path) => path.clone(),
        None => match &args.path {
            Some(path) => path.clone(),
            None => "".to_owned(),
        },
    };
    let action = plan_action(profile, args, &resource_path, path_arg.as_str());
    CallPlan { resource_path, path_arg, action }
}

// ------------------------------------------------------------------- answering

/// What the server answered to an operation.
#[derive(Debug)]
pub enum SftpReply {
    /// The entries of the listed directory.
    Entries(Vec<Json>),
    /// The bytes of the file that was read.
    Data(Vec<u8>),
    /// How many bytes were written.
    Written(usize),
}

/// What a reply says.
pub enum ReplyView {
    Entries(Seq<JsonView>),
    Data(Seq<u8>),
    Written(nat),
}

impl View for SftpReply {
    type V = ReplyView;

    open spec fn view(&self) -> ReplyView {
        match *self {
            SftpReply::Entries(entries) => ReplyView::Entries(items_view(entries@)),
            SftpReply::Data(data) => ReplyView::Data(data@),
            SftpReply::Written(n) => ReplyView::Written(n as nat),
        }
    }
}

/// The outcome of an operation that was answered.
pub open spec fn outcome_of(reply: ReplyView) -> OutcomeView {
    let nothing = OutcomeView { entries: None, content: None, size: None, written: None };
    match reply {
        ReplyView::Entries(entries) => OutcomeView { entries: Some(entries), ..nothing },
        ReplyView::Data(data) => OutcomeView {
            content: Some(content_view(data)),
            size: Some(data.len()),
            ..nothing
        },
        ReplyView::Written(n) => OutcomeView { written: Some(n), ..nothing },
    }
}

/// The reply can be shown.
pub open spec fn presentable_reply(reply: ReplyView) -> bool {
    reply matches ReplyView::Data(data) ==> presentable(data)
}

/// The outcome of an operation that was answered.
pub fn reply_outcome(reply: SftpReply) -> (r: SftpOutcome)
    requires
        presentable_reply(reply@),
    ensures
        r@ == outcome_of(reply@),
        reply@ matches ReplyView::Data(data) ==> r.content is Some && put_content(
            written_back(r.content->0@),
        ) == Ok::<Seq<u8>, Seq<char>>(data) && r.size == Some(data.len() as usize),
{
    match reply {
        SftpReply::Entries(entries) => SftpOutcome {
            entries: Some(entries),
            content: None,
            size: None,
            written: None,
        },
        SftpReply::Data(data) => SftpOutcome {
            entries: None,
            content: Some(decode_content(data.as_slice())),
            size: Some(data.len()),
            written: None,
        },
        SftpReply::Written(n) => SftpOutcome {
            entries: None,
            content: None,
            size: None,
            written: Some(n),
        },
    }
}

/// A call under way: all that its answer will need.
#[derive(Debug)]
pub struct PendingCall {
    pub tool_name: String,
    pub backend_name: String,
    pub profile: SftpProfile,
    pub plan: CallPlan,
}

/// What is answered to a call, and how it is counted and audited.
#[derive(Debug)]
pub struct CallConclusion {
    /// The body of the response.
    pub envelope: Json,
    /// The label that the call is counted and audited under.
    pub outcome: &'static str,
    /// Why the call failed.
    pub reason: Option<String>,
}

/// What came of running a call.
#[derive(Debug)]
pub enum CallEvent {
    /// The server answered.
    Replied(SftpReply),
    /// The operation failed, with this message.
    Failed(String),
    /// The call ran into its timeout.
    TimedOut,
}

/// The view of a result.
pub open spec fn result_view(result: Result<SftpReply, String>) -> Result<ReplyView, Seq<char>> {
    match result {
        Ok(reply) => Ok(reply@),
        Err(message) => Err(message@),
    }
}

impl PendingCall {
    /// What the call comes to. A call that is refused comes to its refusal: nothing
    /// is run for it.
    pub open spec fn result_of(self, event: CallEvent) -> Result<ReplyView, Seq<char>> {
        match (self.plan.action, event) {
            (Err(message), _) => Err(message@),
            (Ok(_), CallEvent::Replied(reply)) => Ok(reply@),
            (Ok(_), CallEvent::Failed(message)) => Err(message@),
            (Ok(_), CallEvent::TimedOut) => Err(OPERATION_TIMED_OUT@),
        }
    }

    /// What the call comes to.
    fn settle(&self, event: CallEvent) -> (r: Result<SftpReply, String>)
        ensures
            result_view(r) == self.result_of(event),
    {
        match &self.plan.action {
            Err(message) => Err(message.clone()),
            Ok(_) => match event {
                CallEvent::Replied(reply) => Ok(reply),
                CallEvent::Failed(message) => Err(message),
                CallEvent::TimedOut => Err(OPERATION_TIMED_OUT.to_owned()),
            },
        }
    }

    /// The body that answers the call: on the resource surface the contents of the
    /// file, on the tool surface the envelope of the outcome, and on failure the
    /// envelope of the error.
    pub open spec fn answer(
        self,
        result: Result<ReplyView, Seq<char>>,
        duration_ms: nat,
    ) -> JsonView {
        match result {
            Ok(reply) => if self.profile.surface is Resource {
                contents_body(
                    match self.plan.resource_path {
                        Some(path) => filled(self.profile.uri_template@, path@),
                        None => ""@,
                    },
                    self.plan.path_arg@,
                    match outcome_of(reply).content {
                        Some(content) => content,
                        None => JsonView::Object(map!["text"@ => JsonView::Text(""@)]),
                    },
                )
            } else {
                self.envelope(Some(outcome_of(reply)), duration_ms, None)
            },
            Err(message) => self.envelope(None, duration_ms, Some(message)),
        }
    }

    /// The envelope of the call with an outcome, or with a failure.
    pub open spec fn envelope(
        self,
        outcome: Option<OutcomeView>,
        duration_ms: nat,
        failure: Option<Seq<char>>,
    ) -> JsonView {
        envelope_view(
            self.tool_name@,
            self.backend_name@,
            self.profile.op.name(),
            self.profile.conn.host@,
            self.plan.path_arg@,
            outcome,
            duration_ms,
            match failure {
                Some(message) => Some(classified(message)),
                None => None,
            },
            failure,
        )
    }

    /// Concludes the call with what came of running it.
    pub fn conclude(&self, event: CallEvent, duration_ms: u128) -> (r: CallConclusion)
        requires
            self.result_of(event) is Ok && self.profile.surface is Tool ==> duration_ms
                <= u64::MAX,
            self.result_of(event) matches Ok(reply) ==> presentable_reply(reply),
        ensures
            r.envelope@ == self.answer(self.result_of(event), duration_ms as nat),
            match self.result_of(event) {
                Ok(_) => r.outcome@ == "ok"@ && r.reason is None,
                Err(message) => r.outcome@ == failure_label(message) && opt_text(r.reason) == Some(
                    message,
                ),
            },
    {
        match self.settle(event) {
            Ok(reply) => {
                let outcome = reply_outcome(reply);
                if self.profile.surface == Surface::Resource {
                    let uri = match &self.plan.resource_path {
                        Some(path) => uri_for_path(
                            self.profile.uri_template.as_str(),
                            path.as_str(),
                        ),
                        None => "".to_owned(),
                    };
                    let content = match outcome.content {
                        Some(content) => content,
                        None => {
                            let mut members: Vec<(String, Json)> = Vec::new();
                            put(&mut members, "text", text(""));
                            Json::Object(members)
                        },
                    };
                    CallConclusion {
                        envelope: resource_contents_body(
                            uri.as_str(),
                            self.plan.path_arg.as_str(),
                            &content,
                        ),
                        outcome: "ok",
                        reason: None,
                    }
                } else {
                    CallConclusion {
                        envelope: build_result_envelope(
                            self.tool_name.as_str(),
                            self.backend_name.as_str(),
                            self.profile.op.as_str(),
                            self.profile.conn.host.as_str(),
                            self.plan.path_arg.as_str(),
                            Some(&outcome),
                            duration_ms,
                            None,
                            None,
                        ),
                        outcome: "ok",
                        reason: None,
                    }
                }
            },
            Err(message) => {
                let downstream = classify_error(message.as_str());
                CallConclusion {
                    envelope: build_result_envelope(
                        self.tool_name.as_str(),
                        self.backend_name.as_str(),
                        self.profile.op.as_str(),
                        self.profile.conn.host.as_str(),
                        self.plan.path_arg.as_str(),
                        None,
                        duration_ms,
                        Some(&downstream),
                        Some(message.as_str()),
                    ),
                    outcome: label_for_failure(message.as_str()),
                    reason: Some(message),
                }
            },
        }
    }
}

/// What the gateway gets back.
#[derive(Debug, PartialEq, Eq)]
pub struct BackendResponse {
    pub payload: Vec<u8>,
    pub truncated: bool,
}

/// Writes an envelope as the payload of a response.
pub fn finalize_payload(envelope: &Json) -> (r: Result<BackendResponse, BackendError>)
    ensures
        r matches Ok(response) && response.payload@ == json_encoding(envelope@)
            && !response.truncated,
{
    match envelope.encode() {
        Ok(payload) => Ok(BackendResponse { payload, truncated: false }),
        Err(reason) => {
            let mut message = "SFTP plugin envelope serialization failed: ".to_owned();
            message.append(reason.as_str());
            Err(BackendError::Transport { message })
        },
    }
}

// ----------------------------------------------------------------------- laws

/// The path of an operation.
pub open spec fn action_path(action: ActionView) -> Seq<char> {
    match action {
        ActionView::List(path) => path,
        ActionView::Get(path) => path,
        ActionView::Put(path, _) => path,
    }
}

/// No call leaves the binding's root: whatever a caller asks for, the operation is
/// on the root itself or on a path under it, and without a root on a relative path
/// that never leaves the login's directory.
pub proof fn law_no_call_leaves_the_root(profile: SftpProfile, args: ArgumentsView)
    requires
        planned(profile, args) is Ok,
    ensures
        ({
            let path = action_path(planned(profile, args)->Ok_0);
            if blank(profile.root@) {
                path.len() > 0 && path[0] != '/' && never_leaves(segments(path, '/'))
            } else {
                lies_under(profile.root@, path)
            }
        }),
{
    law_resolved_path_stays_under_root(profile.root@, call_path(profile, args));
}

/// A path with a `..` segment is refused, whatever the operation.
pub proof fn law_climbing_paths_are_refused(profile: SftpProfile, args: ArgumentsView)
    requires
        climbs(call_path(profile, args)),
    ensures
        planned(profile, args) is Err,
{
}

/// The resource surface only reads: it never lists and never writes, whatever the
/// binding declares, and reads nothing where no resource is named.
pub proof fn law_resource_surface_only_reads(profile: SftpProfile, args: ArgumentsView)
    requires
        profile.surface is Resource,
    ensures
        planned(profile, args) matches Ok(action) ==> action is Get,
        call_resource(profile, args) is None ==> planned(profile, args) == Err::<
            ActionView,
            Seq<char>,
        >(RESOURCE_URI_REQUIRED@),
{
}

/// A binding whose `uri` pins a resource reads that one, whatever is asked.
pub proof fn law_pinned_resource_is_read(
    profile: SftpProfile,
    args: ArgumentsView,
    others: ArgumentsView,
)
    requires
        profile.valid(),
        profile.surface is Resource,
        profile.static_uri is Some,
    ensures
        call_resource(profile, args) == opt_text(profile.static_uri),
        planned(profile, args) == planned(profile, others),
{
    lemma_find_from(profile.uri_template@, "{path}"@, 0);
}

/// Only a `put` binding on the tool surface writes, and never more than its cap.
pub proof fn law_writes_are_capped(profile: SftpProfile, args: ArgumentsView)
    ensures
        planned(profile, args) matches Ok(ActionView::Put(_, content)) ==> content.len()
            <= profile.max_bytes && profile.op is Put && profile.surface is Tool,
{
}

/// A `get` names the file that a `put` with the same path wrote.
pub proof fn law_get_finds_what_put_wrote(
    writer: SftpProfile,
    reader: SftpProfile,
    args: ArgumentsView,
)
    requires
        writer.surface is Tool,
        reader.surface is Tool,
        writer.op is Put,
        reader.op is Get,
        writer.root@ == reader.root@,
        planned(writer, args) is Ok,
    ensures
        planned(reader, args) == Ok::<ActionView, Seq<char>>(
            ActionView::Get(action_path(planned(writer, args)->Ok_0)),
        ),
{
}

/// Text that is put is read as that text.
pub proof fn law_text_reads_back(args: ArgumentsView, text: Seq<char>)
    requires
        args.content is None,
        args.text == Some(text),
    ensures
        put_content(args) matches Ok(bytes) && content_view(bytes) == JsonView::Object(
            map!["text"@ => JsonView::Text(text)],
        ),
{
    encode_utf8_valid_utf8(text);
    encode_utf8_decode_utf8(text);
}

/// What the answer to a call says of failure: a call that failed has its message
/// as `error` and its classification as the one `downstreamError`, and no
/// `response`; one that succeeded on the tool surface has neither error, and the
/// outcome as its `response`.
pub proof fn law_answer_tells_failure(
    call: PendingCall,
    result: Result<ReplyView, Seq<char>>,
    duration_ms: nat,
)
    ensures
        ({
            let answer = call.answer(result, duration_ms);
            match result {
                Err(message) => {
                    &&& answer.member("error"@) == Some(JsonView::Text(message))
                    &&& answer.member("downstreamError"@) == Some(classified(message))
                    &&& answer.member("downstreamErrors"@) == Some(
                        JsonView::Array(seq![classified(message)]),
                    )
                    &&& answer.member("response"@) == Some(JsonView::Null)
                },
                Ok(reply) => call.profile.surface is Tool ==> {
                    &&& answer.member("error"@) == Some(JsonView::Null)
                    &&& answer.member("downstreamError"@) == Some(JsonView::Null)
                    &&& answer.member("downstreamErrors"@) == Some(
                        JsonView::Array(Seq::empty()),
                    )
                    &&& answer.member("response"@) == Some(
                        response_view(outcome_of(reply), duration_ms),
                    )
                },
            }
        }),
{
    reveal_strlit("toolName");
    reveal_strlit("profile");
    reveal_strlit("request");
    reveal_strlit("response");
    reveal_strlit("downstreamError");
    reveal_strlit("downstreamErrors");
    reveal_strlit("error");
    assert("toolName"@[0] == 't' && "response"@[0] == 'r');
    assert("toolName"@.len() == 8 && "profile"@.len() == 7 && "request"@.len() == 7
        && "response"@.len() == 8 && "downstreamError"@.len() == 15 && "downstreamErrors"@.len()
        == 16 && "error"@.len() == 5);
}

/// A refused call is answered with its refusal, whatever is said to have come of it.
pub proof fn law_refused_calls_are_answered(
    call: PendingCall,
    event: CallEvent,
    duration_ms: nat,
)
    requires
        call.plan.action is Err,
    ensures
        ({
            let message = call.plan.action->Err_0@;
            let answer = call.answer(call.result_of(event), duration_ms);
            &&& answer.member("error"@) == Some(JsonView::Text(message))
            &&& answer.member("downstreamError"@) == Some(classified(message))
            &&& answer.member("response"@) == Some(JsonView::Null)
        }),
{
    law_answer_tells_failure(call, call.result_of(event), duration_ms);
}

/// A call that runs into its timeout is answered as retryable, and counted and
/// audited as a timeout.
pub proof fn law_timeouts_are_told(call: PendingCall, duration_ms: nat)
    requires
        call.plan.action is Ok,
    ensures
        ({
            let result = call.result_of(CallEvent::TimedOut);
            &&& result is Err && failure_label(result->Err_0) == "timeout"@
            &&& call.answer(result, duration_ms).member("downstreamError"@) == Some(
                downstream_error_view("transport_error"@, OPERATION_TIMED_OUT@, true),
            )
        }),
{
    reveal_strlit("SFTP operation timed out");
    reveal_strlit("timed out");
    let message = lowered(OPERATION_TIMED_OUT@);
    assert(message.subrange(15, 24) =~= "timed out"@);
    assert(occurs_at(message, "timed out"@, 15));
    lemma_judged_whole(OPERATION_TIMED_OUT@);
    law_answer_tells_failure(call, Err(OPERATION_TIMED_OUT@), duration_ms);
}

}
