//! Laws of JSON values: what a tree of the library stands for, and what is read of it.

use vstd::prelude::*;

use crate::arguments::CallArguments;
use crate::call::ReplyView;
use crate::call::SftpReply;
use crate::envelope::opt_json;
use crate::envelope::opt_outcome;
use crate::envelope::SftpOutcome;
use crate::json::items_view;
use crate::json::lemma_items_index;
use crate::json::members_view;
use crate::json::number_or_null;
use crate::json::opt_text;
use crate::json::text_or_null;
use crate::json::Json;
use crate::json::JsonView;
use crate::order::texts;
use crate::profile::BackendError;
use crate::profile::ErrorView;
use crate::surface::opt_str;
use crate::surface::ListedResource;
use crate::watch::WatchError;
use crate::watch::WatchErrorView;

verus! {

/// A plain tree stands for what it is made of.
pub proof fn law_plain_values_stand_for_themselves(b: bool, n: u64, s: String)
    ensures
        Json::Null@ == JsonView::Null,
        Json::Bool(b)@ == JsonView::Bool(b),
        Json::Number(n)@ == JsonView::Number(n as nat),
        Json::Text(s)@ == JsonView::Text(s@),
{
}

/// A list stands for its items, each at its place.
pub proof fn law_list_keeps_its_items(items: Vec<Json>)
    ensures
        Json::Array(items)@ matches JsonView::Array(values) && values.len() == items@.len()
            && forall|i: int| 0 <= i < items@.len() ==> #[trigger] values[i] == items@[i]@,
        items_view(items@).len() == items@.len(),
        forall|i: int| 0 <= i < items@.len() ==> #[trigger] items_view(items@)[i] == items@[i]@,
{
    lemma_items_index(items@);
}

/// An object holds under a name what its last member of that name holds.
pub proof fn law_object_holds_its_last_members(members: Vec<(String, Json)>, i: int)
    requires
        0 <= i < members@.len(),
        forall|j: int| i < j < members@.len() ==> (#[trigger] members@[j]).0@ != members@[i].0@,
    ensures
        Json::Object(members)@.member(members@[i].0@) == Some(members@[i].1@),
{
    lemma_member_of(members@, i);
}

/// An object holds nothing under a name that no member has.
pub proof fn law_object_holds_no_other_names(members: Vec<(String, Json)>, name: Seq<char>)
    requires
        forall|j: int| 0 <= j < members@.len() ==> (#[trigger] members@[j]).0@ != name,
    ensures
        Json::Object(members)@.member(name) is None,
{
    lemma_no_member(members@, name);
}

proof fn lemma_member_of(members: Seq<(String, Json)>, i: int)
    requires
        0 <= i < members.len(),
        forall|j: int| i < j < members.len() ==> (#[trigger] members[j]).0@ != members[i].0@,
    ensures
        members_view(members).contains_key(members[i].0@),
        members_view(members)[members[i].0@] == members[i].1@,
    decreases members.len(),
{
    if i < members.len() - 1 {
        let init = members.drop_last();
        assert forall|j: int| i < j < init.len() implies (#[trigger] init[j]).0@ != init[i].0@ by {
            assert(init[j] == members[j]);
        }
        lemma_member_of(init, i);
        assert(members[members.len() - 1].0@ != members[i].0@);
    }
}

proof fn lemma_no_member(members: Seq<(String, Json)>, name: Seq<char>)
    requires
        forall|j: int| 0 <= j < members.len() ==> (#[trigger] members[j]).0@ != name,
    ensures
        !members_view(members).contains_key(name),
    decreases members.len(),
{
    if members.len() > 0 {
        let init = members.drop_last();
        assert forall|j: int| 0 <= j < init.len() implies (#[trigger] init[j]).0@ != name by {
            assert(init[j] == members[j]);
        }
        lemma_no_member(init, name);
        assert(members[members.len() - 1].0@ != name);
    }
}

/// What is read of an object under a name is what stands there, if it is of the kind
/// that was asked for; of anything but an object nothing is read.
pub proof fn law_members_are_read_as_they_are(
    members: Map<Seq<char>, JsonView>,
    name: Seq<char>,
    value: JsonView,
    s: Seq<char>,
    n: nat,
)
    ensures
        JsonView::Object(members).member(name) == (if members.contains_key(name) {
            Some(members[name])
        } else {
            None
        }),
        JsonView::Object(members).text_member(name) == Some(s) <==> members.contains_key(name)
            && members[name] == JsonView::Text(s),
        JsonView::Object(members).number_member(name) == Some(n) <==> members.contains_key(name)
            && members[name] == JsonView::Number(n),
        !(value is Object) ==> value.member(name) is None && value.text_member(name) is None
            && value.number_member(name) is None,
{
}

/// The views that contracts speak through are the values themselves: nothing of a
/// string, of bytes, of a list or of an argument is left out or changed.
pub proof fn law_views_leave_nothing_out(
    s: String,
    t: &str,
    args: CallArguments,
    reply: SftpReply,
    outcome: SftpOutcome,
)
    ensures
        opt_text(Some(s)) == Some(s@),
        opt_text(None) is None,
        opt_str(Some(t)) == Some(t@),
        opt_str(None) is None,
        args.path matches Some(p) ==> args@.path == Some(p@),
        args.uri matches Some(p) ==> args@.uri == Some(p@),
        args.content matches Some(p) ==> args@.content == Some(p@),
        args.text matches Some(p) ==> args@.text == Some(p@),
        args.path is None ==> args@.path is None,
        args.uri is None ==> args@.uri is None,
        args.content is None ==> args@.content is None,
        args.text is None ==> args@.text is None,
        reply matches SftpReply::Data(data) ==> reply@ == ReplyView::Data(data@),
        reply matches SftpReply::Written(n) ==> reply@ == ReplyView::Written(n as nat),
        reply matches SftpReply::Entries(entries) ==> reply@ == ReplyView::Entries(
            items_view(entries@),
        ),
        outcome.content matches Some(content) ==> outcome@.content == Some(content@),
        outcome.content is None ==> outcome@.content is None,
        outcome.entries matches Some(entries) ==> outcome@.entries == Some(items_view(entries@)),
        outcome.entries is None ==> outcome@.entries is None,
        outcome.size matches Some(n) ==> outcome@.size == Some(n as nat),
        outcome.size is None ==> outcome@.size is None,
        outcome.written matches Some(n) ==> outcome@.written == Some(n as nat),
        outcome.written is None ==> outcome@.written is None,
{
}

/// What may be missing is `null` where it is, and itself where it is not.
pub proof fn law_optional_values_are_themselves_or_null(
    s: Seq<char>,
    n: nat,
    json: &Json,
    outcome: &SftpOutcome,
)
    ensures
        text_or_null(Some(s)) == JsonView::Text(s),
        text_or_null(None) == JsonView::Null,
        number_or_null(Some(n)) == JsonView::Number(n),
        number_or_null(None) == JsonView::Null,
        opt_json(Some(json)) == Some(json@),
        opt_json(None) is None,
        opt_outcome(Some(outcome)) == Some(outcome@),
        opt_outcome(None) is None,
{
}

/// The texts of strings are their characters, each at its place.
pub proof fn law_texts_of_strings(strings: Seq<String>, i: int)
    requires
        0 <= i < strings.len(),
    ensures
        texts(strings).len() == strings.len(),
        texts(strings)[i] == strings[i]@,
{
}

/// An error's view tells its kind and its whole message.
pub proof fn law_error_views_leave_nothing_out(message: String)
    ensures
        (BackendError::InvalidSpec { message })@ == ErrorView::InvalidSpec(message@),
        (BackendError::Transport { message })@ == ErrorView::Transport(message@),
        (BackendError::ProfileNotFound { backend_name: message })@ == ErrorView::ProfileNotFound(
            message@,
        ),
        (WatchError::InvalidSpec { message })@ == WatchErrorView::InvalidSpec(message@),
        (WatchError::Subscribe { message })@ == WatchErrorView::Subscribe(message@),
{
}

/// A listed resource's view tells all of it.
pub proof fn law_resource_view_leaves_nothing_out(resource: ListedResource)
    ensures
        resource@.uri == resource.uri@,
        resource.name matches Some(s) ==> resource@.name == Some(s@),
        resource.name is None ==> resource@.name is None,
        resource.description matches Some(s) ==> resource@.description == Some(s@),
        resource.description is None ==> resource@.description is None,
        resource.mime_type matches Some(s) ==> resource@.mime_type == Some(s@),
        resource.mime_type is None ==> resource@.mime_type is None,
{
}

}
