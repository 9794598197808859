//! The SFTP binding plugin: its registered profiles, and what it does for each
//! request of the gateway.

use vstd::prelude::*;
use vstd::string::*;

use crate::arguments::payload_arguments;
use crate::arguments::ArgumentsView;
use crate::arguments::CallArguments;
use crate::audit::PLUGIN_ID;
use crate::call::called_tool;
use crate::call::header_views;
use crate::call::plan_call;
use crate::call::planned;
use crate::call::tool_name;
use crate::call::ActionView;
use crate::call::PendingCall;
use crate::json::items_view;
use crate::json::opt_text;
use crate::json::put;
use crate::json::text;
use crate::json::Json;
use crate::json::JsonView;
use crate::profile::build_profile;
use crate::profile::spec_problem;
use crate::profile::BackendError;
use crate::profile::ErrorView;
use crate::profile::SftpProfile;
use crate::sftp::climbs;
use crate::sftp::resolve_path;
use crate::sftp::resolved;
use crate::surface::at_most;
use crate::surface::ends_in_placeholder;
use crate::surface::entries_to_completion_values;
use crate::surface::entries_to_resource_page;
use crate::surface::law_listed_resource_reads_back;
use crate::surface::law_listing_is_whole;
use crate::surface::names_with_prefix;
use crate::surface::resource_of;
use crate::surface::resources_of;
use crate::surface::ResourcePage;
use crate::surface::ResourceView;
use crate::surface::Surface;
use crate::text::blank;
use crate::text::same_text;
use crate::text::segments;
use crate::types::SftpBackendSpec;

verus! {

/// How many completion candidates are given at most.
pub const MAX_COMPLETIONS: usize = 100;

/// What sort of plugin an entity is.
#[derive(Debug, Clone, Copy, PartialEq, Eq, Structural)]
pub enum PluginClass {
    Backend,
    WatchStrategy,
}

/// How an entity presents itself to the gateway.
#[derive(Debug, PartialEq, Eq)]
pub struct PluginManifest {
    pub id: String,
    pub name: String,
    pub plugin_class: PluginClass,
}

impl PluginManifest {
    /// The manifest has this identifier, name and class.
    pub open spec fn says(self, id: Seq<char>, name: Seq<char>, class: PluginClass) -> bool {
        self.id@ == id && self.name@ == name && self.plugin_class == class
    }
}

/// The profiles that are registered, by name.
pub struct SftpBackendPlugin {
    manifest: PluginManifest,
    profiles: Vec<(String, SftpProfile)>,
}

/// The place of a name in the list.
spec fn place_of(profiles: Seq<(String, SftpProfile)>, name: Seq<char>) -> int {
    choose|i: int| 0 <= i < profiles.len() && profiles[i].0@ == name
}

/// The name stands in the list.
spec fn is_listed(profiles: Seq<(String, SftpProfile)>, name: Seq<char>) -> bool {
    exists|i: int| 0 <= i < profiles.len() && profiles[i].0@ == name
}

/// No name stands in the list twice.
spec fn names_distinct(profiles: Seq<(String, SftpProfile)>) -> bool {
    forall|i: int, j: int|
        0 <= i < profiles.len() && 0 <= j < profiles.len() && (#[trigger] profiles[i]).0@ == (
        #[trigger] profiles[j]).0@ ==> i == j
}

/// Where a name stands is where it was found.
proof fn lemma_place(profiles: Seq<(String, SftpProfile)>, i: int)
    requires
        names_distinct(profiles),
        0 <= i < profiles.len(),
    ensures
        is_listed(profiles, profiles[i].0@),
        place_of(profiles, profiles[i].0@) == i,
{
}

/// Putting another profile in the place of a listed name changes that name alone.
proof fn lemma_replaced_profile(
    before: Seq<(String, SftpProfile)>,
    at: int,
    entry: (String, SftpProfile),
)
    requires
        names_distinct(before),
        0 <= at < before.len(),
        before[at].0@ == entry.0@,
    ensures
        names_distinct(before.update(at, entry)),
        forall|name: Seq<char>| #[trigger]
            is_listed(before.update(at, entry), name) == is_listed(before, name),
        forall|name: Seq<char>|
            is_listed(before, name) ==> #[trigger] before.update(at, entry)[place_of(
                before.update(at, entry),
                name,
            )].1 == (if name == entry.0@ {
                entry.1
            } else {
                before[place_of(before, name)].1
            }),
{
    let after = before.update(at, entry);
    assert forall|i: int| 0 <= i < before.len() implies (#[trigger] after[i]).0@
        == before[i].0@ by {}
    assert(names_distinct(after));
    assert forall|name: Seq<char>| #[trigger] is_listed(after, name) == is_listed(
        before,
        name,
    ) by {
        if is_listed(before, name) {
            let i = place_of(before, name);
            assert(after[i].0@ == name);
        }
        if is_listed(after, name) {
            let i = place_of(after, name);
            assert(before[i].0@ == name);
        }
    }
    assert forall|name: Seq<char>| is_listed(before, name) implies #[trigger] after[place_of(
        after,
        name,
    )].1 == (if name == entry.0@ {
        entry.1
    } else {
        before[place_of(before, name)].1
    }) by {
        let i = place_of(before, name);
        assert(after[i].0@ == name);
        lemma_place(after, i);
        lemma_place(before, at);
    }
}

/// Adding a profile under a new name changes that name alone.
proof fn lemma_added_profile(before: Seq<(String, SftpProfile)>, entry: (String, SftpProfile))
    requires
        names_distinct(before),
        !is_listed(before, entry.0@),
    ensures
        names_distinct(before.push(entry)),
        forall|name: Seq<char>| #[trigger]
            is_listed(before.push(entry), name) == (is_listed(before, name) || name == entry.0@),
        forall|name: Seq<char>|
            is_listed(before.push(entry), name) ==> #[trigger] before.push(entry)[place_of(
                before.push(entry),
                name,
            )].1 == (if name == entry.0@ {
                entry.1
            } else {
                before[place_of(before, name)].1
            }),
{
    let after = before.push(entry);
    assert(after[before.len() as int] == entry);
    assert forall|i: int| 0 <= i < before.len() implies (#[trigger] after[i]) == before[i] by {}
    assert(names_distinct(after)) by {
        assert forall|i: int, j: int|
            0 <= i < after.len() && 0 <= j < after.len() && (#[trigger] after[i]).0@ == (
            #[trigger] after[j]).0@ implies i == j by {
            if i < before.len() && j == before.len() {
                assert(before[i].0@ == entry.0@);
            }
            if j < before.len() && i == before.len() {
                assert(before[j].0@ == entry.0@);
            }
        }
    }
    assert forall|name: Seq<char>| #[trigger] is_listed(after, name) == (is_listed(before, name)
        || name == entry.0@) by {
        if is_listed(before, name) {
            let i = place_of(before, name);
            assert(after[i].0@ == name);
        }
        if name == entry.0@ {
            assert(after[before.len() as int].0@ == name);
        }
        if is_listed(after, name) && name != entry.0@ {
            let i = place_of(after, name);
            assert(before[i].0@ == name);
        }
    }
    assert forall|name: Seq<char>| is_listed(after, name) implies #[trigger] after[place_of(
        after,
        name,
    )].1 == (if name == entry.0@ {
        entry.1
    } else {
        before[place_of(before, name)].1
    }) by {
        if name == entry.0@ {
            lemma_place(after, before.len() as int);
        } else {
            let i = place_of(before, name);
            assert(after[i].0@ == name);
            lemma_place(after, i);
        }
    }
}

impl View for SftpBackendPlugin {
    type V = Map<Seq<char>, SftpProfile>;

    closed spec fn view(&self) -> Map<Seq<char>, SftpProfile> {
        let profiles = self.profiles@;
        Map::new(
            |name: Seq<char>| is_listed(profiles, name),
            |name: Seq<char>| profiles[place_of(profiles, name)].1,
        )
    }
}

impl SftpBackendPlugin {
    /// Each name stands for one profile, every profile is valid, and the manifest
    /// is the plugin's.
    pub closed spec fn wf(self) -> bool {
        &&& names_distinct(self.profiles@)
        &&& forall|i: int|
            0 <= i < self.profiles@.len() ==> (#[trigger] self.profiles@[i]).1.valid()
        &&& self.manifest.says(PLUGIN_ID@, "SFTP Binding"@, PluginClass::Backend)
    }

    /// The plugin without profiles.
    pub fn new() -> (r: SftpBackendPlugin)
        ensures
            r.wf(),
            r@ == Map::<Seq<char>, SftpProfile>::empty(),
    {
        let r = SftpBackendPlugin {
            manifest: PluginManifest {
                id: PLUGIN_ID.to_owned(),
                name: "SFTP Binding".to_owned(),
                plugin_class: PluginClass::Backend,
            },
            profiles: Vec::new(),
        };
        assert(r@ =~= Map::<Seq<char>, SftpProfile>::empty());
        r
    }

    /// How the plugin presents itself.
    pub fn manifest(&self) -> (r: &PluginManifest)
        requires
            self.wf(),
        ensures
            r.says(PLUGIN_ID@, "SFTP Binding"@, PluginClass::Backend),
    {
        &self.manifest
    }

    /// The kind of binding that the plugin serves.
    pub fn kind(&self) -> (r: &'static str)
        ensures
            r@ == "sftp"@,
    {
        "sftp"
    }

    /// What the plugin adds to audit records.
    pub fn audit_metadata(&self) -> (r: Json)
        ensures
            r@ == JsonView::Object(map!["sftp.transport"@ => JsonView::Text("plugin"@)]),
    {
        let mut members: Vec<(String, Json)> = Vec::new();
        put(&mut members, "sftp.transport", text("plugin"));
        Json::Object(members)
    }

    /// Where a name stands in the list.
    fn position(&self, name: &str) -> (r: Option<usize>)
        requires
            self.wf(),
        ensures
            match r {
                Some(i) => i < self.profiles@.len() && self.profiles@[i as int].0@ == name@
                    && self@.contains_key(name@) && self@[name@] == self.profiles@[i as int].1,
                None => !self@.contains_key(name@),
            },
    {
        let mut i: usize = 0;
        while i < self.profiles.len()
            invariant
                self.wf(),
                i <= self.profiles@.len(),
                forall|j: int| 0 <= j < i ==> (#[trigger] self.profiles@[j]).0@ != name@,
            decreases self.profiles@.len() - i,
        {
            if same_text(self.profiles[i].0.as_str(), name) {
                assert(is_listed(self.profiles@, name@));
                return Some(i);
            }
            i = i + 1;
        }
        None
    }

    /// The profile of a name.
    pub fn profile(&self, name: &str) -> (r: Option<&SftpProfile>)
        requires
            self.wf(),
        ensures
            match r {
                Some(profile) => self@.contains_key(name@) && *profile == self@[name@]
                    && profile.valid(),
                None => !self@.contains_key(name@),
            },
    {
        match self.position(name) {
            Some(i) => Some(&self.profiles[i].1),
            None => None,
        }
    }

    /// Registers the profile of a spec under a name, in place of the one that had
    /// it. A spec that is not acceptable changes nothing.
    pub fn register_profile(&mut self, backend_name: &str, spec: SftpBackendSpec) -> (r: Result<
        (),
        BackendError,
    >)
        requires
            old(self).wf(),
        ensures
            final(self).wf(),
            match spec_problem(spec) {
                None => {
                    &&& r is Ok
                    &&& final(self)@.contains_key(backend_name@)
                    &&& final(self)@[backend_name@].is_of(spec)
                    &&& final(self)@ == old(self)@.insert(
                        backend_name@,
                        final(self)@[backend_name@],
                    )
                },
                Some(message) => {
                    &&& r matches Err(error) && error@ == ErrorView::InvalidSpec(message)
                    &&& *final(self) == *old(self)
                },
            },
    {
        let profile = match build_profile(spec) {
            Ok(profile) => profile,
            Err(error) => {
                return Err(error);
            },
        };
        let at = self.position(backend_name);
        let ghost before = self.profiles@;
        let entry = (backend_name.to_owned(), profile);
        match at {
            Some(i) => {
                self.profiles.set(i, entry);
                proof {
                    let after = self.profiles@;
                    assert(after =~= before.update(i as int, entry));
                    lemma_replaced_profile(before, i as int, entry);
                    assert(self@ =~= old(self)@.insert(backend_name@, profile));
                }
            },
            None => {
                self.profiles.push(entry);
                proof {
                    lemma_added_profile(before, entry);
                    assert(self@ =~= old(self)@.insert(backend_name@, profile));
                }
            },
        }
        Ok(())
    }

    /// Takes up a call: finds its profile, and decides from its headers and its
    /// payload what it is about and what it is to do.
    pub fn begin_execute(
        &self,
        backend_name: &str,
        headers: &Vec<(String, String)>,
        payload: &[u8],
    ) -> (r: Result<PendingCall, BackendError>)
        requires
            self.wf(),
        ensures
            match r {
                Ok(call) => {
                    &&& self@.contains_key(backend_name@)
                    &&& call.profile == self@[backend_name@]
                    &&& call.profile.valid()
                    &&& call.backend_name@ == backend_name@
                    &&& call.tool_name@ == called_tool(header_views(headers@), backend_name@)
                    &&& call.plan.is_for(call.profile, payload_arguments(payload@))
                },
                Err(error) => {
                    &&& !self@.contains_key(backend_name@)
                    &&& error@ == ErrorView::ProfileNotFound(backend_name@)
                },
            },
    {
        match self.profile(backend_name) {
            Some(profile) => {
                let args = CallArguments::parse(payload);
                Ok(
                    PendingCall {
                        tool_name: tool_name(headers, backend_name),
                        backend_name: backend_name.to_owned(),
                        plan: plan_call(profile, &args),
                        profile: profile.clone(),
                    },
                )
            },
            None => Err(BackendError::ProfileNotFound { backend_name: backend_name.to_owned() }),
        }
    }

    /// Takes up a request for the files of a binding.
    pub fn begin_listing(&self, backend_name: &str) -> (r: Result<ListingPlan, BackendError>)
        requires
            self.wf(),
        ensures
            match r {
                Ok(plan) => {
                    &&& self@.contains_key(backend_name@)
                    &&& plan.profile == self@[backend_name@]
                    &&& plan.profile.valid()
                    &&& opt_text(plan.dir) == listing_dir(plan.profile)
                },
                Err(error) => {
                    &&& !self@.contains_key(backend_name@)
                    &&& error@ == ErrorView::ProfileNotFound(backend_name@)
                },
            },
    {
        match self.profile(backend_name) {
            Some(profile) => {
                if profile.surface != Surface::Resource {
                    return Ok(ListingPlan { profile: profile.clone(), dir: None });
                }
                proof {
                    lemma_root_itself_does_not_climb();
                }
                match resolve_path(profile.root.as_str(), "") {
                    Ok(dir) => Ok(ListingPlan { profile: profile.clone(), dir: Some(dir) }),
                    Err(message) => Err(BackendError::InvalidSpec { message }),
                }
            },
            None => Err(BackendError::ProfileNotFound { backend_name: backend_name.to_owned() }),
        }
    }
}

impl Default for SftpBackendPlugin {
    /// The plugin without profiles.
    fn default() -> (r: SftpBackendPlugin)
        ensures
            r.wf(),
            r@ == Map::<Seq<char>, SftpProfile>::empty(),
    {
        SftpBackendPlugin::new()
    }
}

// ------------------------------------------------------------------- listings

/// The empty path names the root itself and climbs nowhere.
proof fn lemma_root_itself_does_not_climb()
    ensures
        !climbs(""@),
{
    reveal_strlit("");
    reveal_strlit("..");
    assert(""@ =~= Seq::<char>::empty());
    assert(segments(""@, '/') =~= seq![Seq::<char>::empty()]);
    if climbs(""@) {
        let k = choose|k: int|
            0 <= k < segments(""@, '/').len() && segments(""@, '/')[k] == ".."@;
        assert(segments(""@, '/')[k].len() == 0);
    }
}

/// The directory whose files a binding offers: on the resource surface its root,
/// on the tool surface none.
pub open spec fn listing_dir(profile: SftpProfile) -> Option<Seq<char>> {
    if profile.surface is Resource {
        Some(resolved(profile.root@, ""@))
    } else {
        None
    }
}

/// A request for the files of a binding, under way.
#[derive(Debug)]
pub struct ListingPlan {
    pub profile: SftpProfile,
    /// The directory to list; where there is none, nothing is listed.
    pub dir: Option<String>,
}

/// What came of listing a directory. A directory that was not to be listed has no
/// entries.
#[derive(Debug)]
pub enum ListingReply {
    Entries(Vec<Json>),
    Failed(String),
    TimedOut,
}

/// The page that answers a request for the resources of a binding: each file under
/// the URI of its path under the root, which is its name.
pub open spec fn listed_resources(profile: SftpProfile, reply: ListingReply) -> Result<
    Seq<ResourceView>,
    ErrorView,
> {
    if !(profile.surface is Resource) {
        Ok(Seq::empty())
    } else {
        match reply {
            ListingReply::Entries(entries) => Ok(
                resources_of(items_view(entries@), ""@, profile.uri_template@),
            ),
            ListingReply::Failed(message) => Err(ErrorView::Transport(message@)),
            ListingReply::TimedOut => Err(
                ErrorView::Transport("SFTP list_resources timed out"@),
            ),
        }
    }
}

/// The candidates that answer a request to complete a path.
pub open spec fn completions(
    profile: SftpProfile,
    prefix: Seq<char>,
    reply: ListingReply,
) -> Result<Seq<Seq<char>>, ErrorView> {
    if !(profile.surface is Resource) {
        Ok(Seq::empty())
    } else {
        match reply {
            ListingReply::Entries(entries) => Ok(
                at_most(names_with_prefix(items_view(entries@), prefix), MAX_COMPLETIONS as nat),
            ),
            ListingReply::Failed(message) => Err(ErrorView::Transport(message@)),
            ListingReply::TimedOut => Err(
                ErrorView::Transport("SFTP complete_template_variable timed out"@),
            ),
        }
    }
}

impl ListingPlan {
    /// Answers `resources/list`: the files of the root, all on one page.
    pub fn list_resources(&self, reply: ListingReply) -> (r: Result<ResourcePage, BackendError>)
        ensures
            match r {
                Ok(page) => listed_resources(self.profile, reply) == Ok::<
                    Seq<ResourceView>,
                    ErrorView,
                >(page.listed()) && page.next_cursor is None,
                Err(error) => listed_resources(self.profile, reply) == Err::<
                    Seq<ResourceView>,
                    ErrorView,
                >(error@),
            },
    {
        if self.profile.surface != Surface::Resource {
            let page = ResourcePage::empty();
            assert(page.listed() =~= Seq::<ResourceView>::empty());
            return Ok(page);
        }
        match reply {
            ListingReply::Entries(entries) => Ok(
                entries_to_resource_page(
                    entries.as_slice(),
                    "",
                    self.profile.uri_template.as_str(),
                ),
            ),
            ListingReply::Failed(message) => Err(BackendError::Transport { message }),
            ListingReply::TimedOut => Err(
                BackendError::Transport { message: "SFTP list_resources timed out".to_owned() },
            ),
        }
    }

    /// Answers a request to complete a `{path}`: the names in the root that begin
    /// with `prefix`.
    pub fn complete_template_variable(&self, prefix: &str, reply: ListingReply) -> (r: Result<
        Vec<String>,
        BackendError,
    >)
        ensures
            match r {
                Ok(names) => completions(self.profile, prefix@, reply) == Ok::<
                    Seq<Seq<char>>,
                    ErrorView,
                >(names@.map_values(|s: String| s@)),
                Err(error) => completions(self.profile, prefix@, reply) == Err::<
                    Seq<Seq<char>>,
                    ErrorView,
                >(error@),
            },
    {
        if self.profile.surface != Surface::Resource {
            let none: Vec<String> = Vec::new();
            assert(none@.map_values(|s: String| s@) =~= Seq::<Seq<char>>::empty());
            return Ok(none);
        }
        match reply {
            ListingReply::Entries(entries) => Ok(
                entries_to_completion_values(entries.as_slice(), prefix, MAX_COMPLETIONS),
            ),
            ListingReply::Failed(message) => Err(BackendError::Transport { message }),
            ListingReply::TimedOut => Err(
                BackendError::Transport {
                    message: "SFTP complete_template_variable timed out".to_owned(),
                },
            ),
        }
    }
}

// ----------------------------------------------------------------------- laws

/// Every registered profile is usable: its host and user are named, its password
/// is no per-caller credential, it says how server keys are judged, and its
/// timeout and its size cap are not zero.
pub proof fn law_registered_profiles_are_valid(plugin: SftpBackendPlugin, name: Seq<char>)
    requires
        plugin.wf(),
        plugin@.contains_key(name),
    ensures
        plugin@[name].valid(),
        plugin@[name].conn.verifies_host_key(),
{
    let i = place_of(plugin.profiles@, name);
    assert(plugin.profiles@[i].1.valid());
}

/// A spec is accepted exactly where the profile that it amounts to is usable, and
/// its `uri`, if it has one, is not blank and stands on the resource surface.
pub proof fn law_accepted_specs_give_usable_profiles(profile: SftpProfile, spec: SftpBackendSpec)
    requires
        profile.is_of(spec),
    ensures
        spec_problem(spec) is None <==> profile.valid() && (spec.uri matches Some(uri) ==> !blank(
            uri@,
        ) && spec.surface is Resource),
{
}

/// The read of a resource by its URI alone.
pub open spec fn read_of(uri: Seq<char>) -> ArgumentsView {
    ArgumentsView { path: None, uri: Some(uri), content: None, text: None }
}

/// What is listed can be read: a read with the URI of a listed file opens that very
/// file, the one of its name under the root. The template ends in its only `{path}`,
/// and the name is one that a path can end in: not blank, and without a `..`.
pub proof fn law_listed_file_is_read(profile: SftpProfile, entry: JsonView)
    requires
        profile.surface is Resource,
        profile.static_uri is None,
        ends_in_placeholder(profile.uri_template@),
        resource_of(entry, ""@, profile.uri_template@) is Some,
        !blank(resource_of(entry, ""@, profile.uri_template@)->0.name->0),
        !climbs(resource_of(entry, ""@, profile.uri_template@)->0.name->0),
    ensures
        ({
            let resource = resource_of(entry, ""@, profile.uri_template@)->0;
            planned(profile, read_of(resource.uri)) == Ok::<ActionView, Seq<char>>(
                ActionView::Get(resolved(profile.root@, resource.name->0)),
            )
        }),
{
    reveal_strlit("");
    law_listed_resource_reads_back(entry, ""@, profile.uri_template@);
}

/// Every file on a page can be read by its URI, under every root.
pub proof fn law_every_listed_file_is_read(
    profile: SftpProfile,
    reply: ListingReply,
    resource: ResourceView,
)
    requires
        profile.surface is Resource,
        profile.static_uri is None,
        ends_in_placeholder(profile.uri_template@),
        listed_resources(profile, reply) matches Ok(page) && page.contains(resource),
        !blank(resource.name->0),
        !climbs(resource.name->0),
    ensures
        planned(profile, read_of(resource.uri)) == Ok::<ActionView, Seq<char>>(
            ActionView::Get(resolved(profile.root@, resource.name->0)),
        ),
{
    let entries = items_view(reply->Entries_0@);
    let template = profile.uri_template@;
    law_listing_is_whole(entries, ""@, template, resource);
    let i = choose|i: int|
        0 <= i < entries.len() && resource_of(#[trigger] entries[i], ""@, template) == Some(
            resource,
        );
    law_listed_file_is_read(profile, entries[i]);
}

/// On the tool surface nothing is listed and nothing is completed, whatever the
/// server said.
pub proof fn law_tool_surface_lists_nothing(
    profile: SftpProfile,
    prefix: Seq<char>,
    reply: ListingReply,
)
    requires
        profile.surface is Tool,
    ensures
        listing_dir(profile) is None,
        listed_resources(profile, reply) == Ok::<Seq<ResourceView>, ErrorView>(Seq::empty()),
        completions(profile, prefix, reply) == Ok::<Seq<Seq<char>>, ErrorView>(Seq::empty()),
{
}

/// Every name that completes a prefix begins with it and is the name of an entry.
pub proof fn law_completions_extend_the_prefix(
    entries: Seq<JsonView>,
    prefix: Seq<char>,
    max: nat,
    k: int,
)
    requires
        0 <= k < at_most(names_with_prefix(entries, prefix), max).len(),
    ensures
        at_most(names_with_prefix(entries, prefix), max).len() <= max,
        ({
            let name = at_most(names_with_prefix(entries, prefix), max)[k];
            prefix.is_prefix_of(name) && exists|i: int|
                0 <= i < entries.len() && (#[trigger] entries[i]).text_member("name"@) == Some(
                    name,
                )
        }),
    decreases entries.len(),
{
    let names = names_with_prefix(entries, prefix);
    let init = names_with_prefix(entries.drop_last(), prefix);
    if k < init.len() {
        law_completions_extend_the_prefix(entries.drop_last(), prefix, (k + 1) as nat, k);
        let i = choose|i: int|
            0 <= i < entries.drop_last().len() && (
            #[trigger] entries.drop_last()[i]).text_member("name"@) == Some(init[k]);
        assert(entries[i] == entries.drop_last()[i]);
        assert(names[k] == init[k]);
    } else {
        assert(entries[entries.len() - 1].text_member("name"@) == Some(names[k]));
    }
}

}
