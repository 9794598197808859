//! Laws of files as resources, and of directory entries and contents.

use vstd::prelude::*;
use vstd::utf8::*;

use crate::backend::completions;
use crate::backend::listed_resources;
use crate::backend::listing_dir;
use crate::backend::read_of;
use crate::backend::ListingReply;
use crate::call::planned;
use crate::call::ActionView;
use crate::json::items_view;
use crate::json::JsonView;
use crate::laws::calls::stands_for;
use crate::laws::calls::string_under;
use crate::laws::texts::law_replacing_goes_from_the_left;
use crate::laws::texts::law_trimmed_end_keeps_the_rest;
use crate::profile::ErrorView;
use crate::profile::SftpProfile;
use crate::sftp::climbs;
use crate::sftp::content_view;
use crate::sftp::entry_view;
use crate::sftp::limit_of;
use crate::sftp::resolved;
use crate::surface::at_most;
use crate::surface::contents_body;
use crate::surface::ends_in_placeholder;
use crate::surface::filled;
use crate::surface::joined_under;
use crate::surface::mime_of;
use crate::surface::mime_of_extension;
use crate::surface::names_with_prefix;
use crate::surface::recovered;
use crate::surface::resource_of;
use crate::surface::resource_path;
use crate::surface::resources_of;
use crate::surface::ResourcePage;
use crate::surface::ResourceView;
use crate::surface::Surface;
use crate::text::blank;
use crate::text::decimal;
use crate::text::find_from;
use crate::text::lemma_find_from;
use crate::text::lemma_segments_concat;
use crate::text::lemma_segments_plain;
use crate::text::lowered;
use crate::text::occurs;
use crate::text::occurs_at;
use crate::text::segments;
use crate::text::trimmed_end;

verus! {

/// The placeholder begins nowhere in the prefix.
pub open spec fn placeholder_comes_first_after(prefix: Seq<char>, rest: Seq<char>) -> bool {
    forall|j: int|
        0 <= j < prefix.len() ==> #[trigger] (prefix + "{path}"@ + rest).subrange(j, j + 6)
            != "{path}"@
}

/// The URI of a path is the template with exactly the path's characters in place of
/// `{path}`.
pub proof fn law_uri_holds_the_path(prefix: Seq<char>, rest: Seq<char>, path: Seq<char>)
    requires
        placeholder_comes_first_after(prefix, rest),
        !occurs(rest, "{path}"@),
    ensures
        filled(prefix + "{path}"@ + rest, path) == prefix + path + rest,
{
    reveal_strlit("{path}");
    let needle = "{path}"@;
    assert(needle.len() == 6);
    assert forall|j: int| 0 <= j < prefix.len() implies #[trigger] (prefix + needle
        + rest).subrange(j, j + needle.len()) != needle by {
        assert((prefix + needle + rest).subrange(j, j + 6) != needle);
    }
    law_replacing_goes_from_the_left(prefix, needle, rest, path);
}

/// A template without a placeholder is the URI of every path.
pub proof fn law_uri_without_placeholder_is_the_template(template: Seq<char>, path: Seq<char>)
    requires
        !occurs(template, "{path}"@),
    ensures
        filled(template, path) == template,
{
    reveal_strlit("{path}");
    law_replacing_goes_from_the_left(Seq::empty(), "{path}"@, template, path);
}

/// The path of a URI is exactly what follows the template's text before `{path}`, and
/// the whole URI where it does not begin with that, or the template has no `{path}`.
pub proof fn law_path_is_what_follows_the_prefix(
    prefix: Seq<char>,
    rest: Seq<char>,
    path: Seq<char>,
    other: Seq<char>,
)
    requires
        placeholder_comes_first_after(prefix, rest),
        !prefix.is_prefix_of(other),
    ensures
        recovered(prefix + "{path}"@ + rest, prefix + path) == path,
        recovered(prefix + "{path}"@ + rest, other) == other,
{
    lemma_placeholder_found(prefix, rest);
    let template = prefix + "{path}"@ + rest;
    assert(template.take(prefix.len() as int) =~= prefix);
    assert((prefix + path).skip(prefix.len() as int) =~= path);
}

/// Under a template without a placeholder the whole URI is the path.
pub proof fn law_path_without_placeholder_is_the_uri(template: Seq<char>, uri: Seq<char>)
    requires
        !occurs(template, "{path}"@),
    ensures
        recovered(template, uri) == uri,
{
    lemma_find_from(template, "{path}"@, 0);
}

proof fn lemma_placeholder_found(prefix: Seq<char>, rest: Seq<char>)
    requires
        placeholder_comes_first_after(prefix, rest),
    ensures
        find_from(prefix + "{path}"@ + rest, "{path}"@, 0) == Some(prefix.len() as int),
{
    reveal_strlit("{path}");
    let needle = "{path}"@;
    let template = prefix + needle + rest;
    let n = prefix.len() as int;
    assert(template.subrange(n, n + needle.len()) =~= needle);
    assert(occurs_at(template, needle, n));
    assert forall|j: int| 0 <= j < n implies !occurs_at(template, needle, j) by {
        assert(template.subrange(j, j + 6) != needle);
    }
    lemma_find_from(template, needle, 0);
}

/// The resource of an entry: an object whose `type` is `file` and whose `name` is a
/// string has one, with exactly that name, the URI of that name joined under the
/// directory, its size in bytes where it is told, and the media type of its name.
pub proof fn law_resource_is_its_entry(
    members: Map<Seq<char>, JsonView>,
    dir: Seq<char>,
    template: Seq<char>,
)
    ensures
        ({
            let entry = JsonView::Object(members);
            let listed = resource_of(entry, dir, template);
            let name = string_under(members, "name"@);
            &&& listed is Some <==> name is Some && string_under(members, "type"@) == Some("file"@)
            &&& listed matches Some(resource) ==> {
                &&& resource.name == name
                &&& resource.uri == filled(template, joined_under(dir, name->0))
                &&& resource.mime_type == mime_of(name->0)
                &&& members.contains_key("size"@) && members["size"@] is Number
                    ==> resource.description == Some(
                    decimal(members["size"@]->Number_0) + " bytes"@,
                )
                &&& !(members.contains_key("size"@) && members["size"@] is Number)
                    ==> resource.description is None
            }
        }),
{
}

/// What is no object has no resource.
pub proof fn law_no_object_no_resource(entry: JsonView, dir: Seq<char>, template: Seq<char>)
    requires
        !(entry is Object),
    ensures
        resource_of(entry, dir, template) is None,
{
}

/// A name joined under a directory is the directory, one slash and exactly the name;
/// under no directory, or the login's own, it is the name alone.
pub proof fn law_names_are_joined_as_they_are(dir: Seq<char>, name: Seq<char>)
    ensures
        dir.len() == 0 || dir == seq!['.'] ==> joined_under(dir, name) == name,
        dir.len() > 0 && dir.last() != '/' && dir != seq!['.'] ==> joined_under(dir, name) == dir
            + seq!['/'] + name,
        joined_under(dir.push('/'), name) == joined_under(dir, name),
{
    reveal_strlit(".");
    reveal_strlit("/");
    assert("."@ =~= seq!['.']);
    assert("/"@ =~= seq!['/']);
    law_trimmed_end_keeps_the_rest(dir, '/');
    let base = trimmed_end(dir, '/');
    if dir.len() > 0 && dir.last() != '/' {
        if base.len() < dir.len() {
            assert(dir[dir.len() - 1] == '/');
        }
        assert(base =~= dir);
    }
    assert(dir.push('/').drop_last() =~= dir);
}

/// A template that is a prefix and one `{path}` ends in its placeholder.
pub proof fn law_prefix_and_placeholder_is_a_template(prefix: Seq<char>)
    requires
        placeholder_comes_first_after(prefix, Seq::empty()),
    ensures
        ends_in_placeholder(prefix + "{path}"@),
{
    reveal_strlit("{path}");
    lemma_placeholder_found(prefix, Seq::empty());
    assert(prefix + "{path}"@ + Seq::<char>::empty() =~= prefix + "{path}"@);
}

/// A read with the URI of a listed entry opens the path of the entry's own name under
/// the root.
pub proof fn law_reading_a_listed_entry_opens_its_name(
    profile: SftpProfile,
    members: Map<Seq<char>, JsonView>,
    name: Seq<char>,
)
    requires
        profile.surface == Surface::Resource,
        profile.static_uri is None,
        ends_in_placeholder(profile.uri_template@),
        string_under(members, "name"@) == Some(name),
        string_under(members, "type"@) == Some("file"@),
        !blank(name),
        !climbs(name),
    ensures
        resource_of(JsonView::Object(members), ""@, profile.uri_template@) matches Some(resource)
            && resource.name == Some(name) && planned(profile, read_of(resource.uri)) == Ok::<
            ActionView,
            Seq<char>,
        >(ActionView::Get(resolved(profile.root@, name))),
{
    law_resource_is_its_entry(members, ""@, profile.uri_template@);
    crate::backend::law_listed_file_is_read(profile, JsonView::Object(members));
}

/// The media type of a path goes by what follows the last dot of its last segment, in
/// any ASCII case.
pub proof fn law_media_type_goes_by_the_extension(
    dirs: Seq<char>,
    stem: Seq<char>,
    extension: Seq<char>,
)
    requires
        dirs.len() == 0 || dirs.last() == '/',
        !stem.contains('/'),
        !extension.contains('/'),
        !extension.contains('.'),
    ensures
        mime_of(dirs + stem + seq!['.'] + extension) == mime_of_extension(lowered(extension)),
{
    let name = stem + seq!['.'] + extension;
    let path = dirs + stem + seq!['.'] + extension;
    assert(path =~= dirs + name);
    assert(!name.contains('/')) by {
        if name.contains('/') {
            let k = choose|k: int| 0 <= k < name.len() && name[k] == '/';
            if k < stem.len() {
                assert(stem[k] == '/');
            } else if k > stem.len() {
                assert(extension[k - stem.len() - 1] == '/');
            }
        }
    }
    lemma_last_segment(dirs, name);
    lemma_segments_concat(stem, extension, '.');
    lemma_segments_plain(extension, '.');
    let parts = segments(name, '.');
    crate::text::lemma_joined_segments(stem, '.');
    assert(parts.last() == extension);
    assert(parts.len() > 1);
}

/// A path whose last segment has no dot has no media type.
pub proof fn law_no_extension_no_media_type(dirs: Seq<char>, name: Seq<char>)
    requires
        dirs.len() == 0 || dirs.last() == '/',
        !name.contains('/'),
        !name.contains('.'),
    ensures
        mime_of(dirs + name) is None,
{
    lemma_last_segment(dirs, name);
    lemma_segments_plain(name, '.');
}

proof fn lemma_last_segment(dirs: Seq<char>, name: Seq<char>)
    requires
        dirs.len() == 0 || dirs.last() == '/',
        !name.contains('/'),
    ensures
        segments(dirs + name, '/').last() == name,
{
    lemma_segments_plain(name, '/');
    if dirs.len() > 0 {
        let before = dirs.drop_last();
        assert(dirs + name =~= before + seq!['/'] + name);
        lemma_segments_concat(before, name, '/');
    } else {
        assert(dirs + name =~= name);
    }
}

/// The media types that are known, and no others.
pub proof fn law_known_media_types(extension: Seq<char>)
    ensures
        ({
            let e = extension;
            let known = mime_of_extension(e);
            &&& e == "txt"@ || e == "log"@ ==> known == Some("text/plain"@)
            &&& e == "json"@ ==> known == Some("application/json"@)
            &&& e == "csv"@ ==> known == Some("text/csv"@)
            &&& e == "xml"@ ==> known == Some("application/xml"@)
            &&& e == "yaml"@ || e == "yml"@ ==> known == Some("application/yaml"@)
            &&& e == "html"@ || e == "htm"@ ==> known == Some("text/html"@)
            &&& e == "md"@ ==> known == Some("text/markdown"@)
            &&& e == "pdf"@ ==> known == Some("application/pdf"@)
            &&& e == "png"@ ==> known == Some("image/png"@)
            &&& e == "jpg"@ || e == "jpeg"@ ==> known == Some("image/jpeg"@)
            &&& e == "gif"@ ==> known == Some("image/gif"@)
            &&& e == "zip"@ ==> known == Some("application/zip"@)
            &&& e == "gz"@ ==> known == Some("application/gzip"@)
            &&& e == "tar"@ ==> known == Some("application/x-tar"@)
            &&& known is Some ==> e == "txt"@ || e == "log"@ || e == "json"@ || e == "csv"@ || e
                == "xml"@ || e == "yaml"@ || e == "yml"@ || e == "html"@ || e == "htm"@ || e
                == "md"@ || e == "pdf"@ || e == "png"@ || e == "jpg"@ || e == "jpeg"@ || e
                == "gif"@ || e == "zip"@ || e == "gz"@ || e == "tar"@
        }),
{
    reveal_strlit("txt");
    reveal_strlit("log");
    reveal_strlit("json");
    reveal_strlit("csv");
    reveal_strlit("xml");
    reveal_strlit("yaml");
    reveal_strlit("yml");
    reveal_strlit("html");
    reveal_strlit("htm");
    reveal_strlit("md");
    reveal_strlit("pdf");
    reveal_strlit("png");
    reveal_strlit("jpg");
    reveal_strlit("jpeg");
    reveal_strlit("gif");
    reveal_strlit("zip");
    reveal_strlit("gz");
    reveal_strlit("tar");
    assert("txt"@.len() == 3 && "txt"@[0] == 't' && "txt"@[1] == 'x');
    assert("log"@.len() == 3 && "log"@[0] == 'l' && "log"@[1] == 'o');
    assert("json"@.len() == 4 && "json"@[0] == 'j' && "json"@[1] == 's');
    assert("csv"@.len() == 3 && "csv"@[0] == 'c' && "csv"@[1] == 's');
    assert("xml"@.len() == 3 && "xml"@[0] == 'x' && "xml"@[1] == 'm');
    assert("yaml"@.len() == 4 && "yaml"@[0] == 'y' && "yaml"@[1] == 'a');
    assert("yml"@.len() == 3 && "yml"@[0] == 'y' && "yml"@[1] == 'm');
    assert("html"@.len() == 4 && "html"@[0] == 'h' && "html"@[1] == 't');
    assert("htm"@.len() == 3 && "htm"@[0] == 'h' && "htm"@[1] == 't');
    assert("md"@.len() == 2 && "md"@[0] == 'm' && "md"@[1] == 'd');
    assert("pdf"@.len() == 3 && "pdf"@[0] == 'p' && "pdf"@[1] == 'd');
    assert("png"@.len() == 3 && "png"@[0] == 'p' && "png"@[1] == 'n');
    assert("jpg"@.len() == 3 && "jpg"@[0] == 'j' && "jpg"@[1] == 'p');
    assert("jpeg"@.len() == 4 && "jpeg"@[0] == 'j' && "jpeg"@[1] == 'p');
    assert("gif"@.len() == 3 && "gif"@[0] == 'g' && "gif"@[1] == 'i');
    assert("zip"@.len() == 3 && "zip"@[0] == 'z' && "zip"@[1] == 'i');
    assert("gz"@.len() == 2 && "gz"@[0] == 'g' && "gz"@[1] == 'z');
    assert("tar"@.len() == 3 && "tar"@[0] == 't' && "tar"@[1] == 'a');
}

/// A page holds the resources of its entries in their order: entries that come later
/// give what comes later, and each gives its own resource or none.
pub proof fn law_page_follows_its_entries(
    earlier: Seq<JsonView>,
    entry: JsonView,
    later: Seq<JsonView>,
    dir: Seq<char>,
    template: Seq<char>,
)
    ensures
        resources_of(earlier + later, dir, template) == resources_of(earlier, dir, template)
            + resources_of(later, dir, template),
        resource_of(entry, dir, template) matches Some(resource) ==> resources_of(
            seq![entry],
            dir,
            template,
        ) == seq![resource],
        resource_of(entry, dir, template) is None ==> resources_of(
            seq![entry],
            dir,
            template,
        ) == Seq::<ResourceView>::empty(),
    decreases later.len(),
{
    let one = seq![entry];
    assert(one.drop_last() =~= Seq::<JsonView>::empty());
    assert(resources_of(one.drop_last(), dir, template) =~= Seq::<ResourceView>::empty());
    if later.len() > 0 {
        law_page_follows_its_entries(earlier, entry, later.drop_last(), dir, template);
        assert((earlier + later).drop_last() =~= earlier + later.drop_last());
        assert(resources_of(earlier + later, dir, template) =~= resources_of(
            earlier,
            dir,
            template,
        ) + resources_of(later, dir, template));
    } else {
        assert(earlier + later =~= earlier);
        assert(resources_of(earlier, dir, template) + resources_of(later, dir, template)
            =~= resources_of(earlier, dir, template));
    }
}

/// The candidates follow the entries in their order, and each entry whose name is a
/// string that begins with the prefix gives exactly that name.
pub proof fn law_candidates_follow_their_entries(
    earlier: Seq<JsonView>,
    members: Map<Seq<char>, JsonView>,
    later: Seq<JsonView>,
    prefix: Seq<char>,
)
    ensures
        names_with_prefix(earlier + later, prefix) == names_with_prefix(earlier, prefix)
            + names_with_prefix(later, prefix),
        string_under(members, "name"@) matches Some(name) && prefix.is_prefix_of(name)
            ==> names_with_prefix(seq![JsonView::Object(members)], prefix) == seq![
            string_under(members, "name"@)->0,
        ],
        !(string_under(members, "name"@) matches Some(name) && prefix.is_prefix_of(name))
            ==> names_with_prefix(seq![JsonView::Object(members)], prefix) == Seq::<
            Seq<char>,
        >::empty(),
    decreases later.len(),
{
    let one = seq![JsonView::Object(members)];
    assert(one.drop_last() =~= Seq::<JsonView>::empty());
    assert(names_with_prefix(one.drop_last(), prefix) =~= Seq::<Seq<char>>::empty());
    if later.len() > 0 {
        law_candidates_follow_their_entries(earlier, members, later.drop_last(), prefix);
        assert((earlier + later).drop_last() =~= earlier + later.drop_last());
        assert(names_with_prefix(earlier + later, prefix) =~= names_with_prefix(earlier, prefix)
            + names_with_prefix(later, prefix));
    } else {
        assert(earlier + later =~= earlier);
        assert(names_with_prefix(earlier, prefix) + names_with_prefix(later, prefix)
            =~= names_with_prefix(earlier, prefix));
    }
}

/// What is no object gives no candidate.
pub proof fn law_no_object_no_candidate(entry: JsonView, prefix: Seq<char>)
    requires
        !(entry is Object),
    ensures
        names_with_prefix(seq![entry], prefix) == Seq::<Seq<char>>::empty(),
{
    let one = seq![entry];
    assert(one.drop_last() =~= Seq::<JsonView>::empty());
    assert(names_with_prefix(one.drop_last(), prefix) =~= Seq::<Seq<char>>::empty());
}

/// A cap takes the first items, and all of them where there are no more.
pub proof fn law_caps_take_the_first<A>(items: Seq<A>, max: nat)
    ensures
        at_most(items, max).is_prefix_of(items),
        at_most(items, max).len() == (if items.len() <= max {
            items.len()
        } else {
            max
        }),
{
}

/// What answers a request for the files of a binding: on the resource surface what its
/// root, listed, gives; a failure or a timeout is told as such.
pub proof fn law_files_are_listed_from_the_root(
    profile: SftpProfile,
    prefix: Seq<char>,
    reply: ListingReply,
)
    requires
        profile.surface == Surface::Resource,
    ensures
        listing_dir(profile) == Some(resolved(profile.root@, Seq::empty())),
        reply matches ListingReply::Entries(entries) ==> listed_resources(profile, reply) == Ok::<
            Seq<ResourceView>,
            ErrorView,
        >(resources_of(items_view(entries@), Seq::empty(), profile.uri_template@)),
        reply matches ListingReply::Entries(entries) ==> completions(profile, prefix, reply)
            == Ok::<Seq<Seq<char>>, ErrorView>(
            at_most(names_with_prefix(items_view(entries@), prefix), 100),
        ),
        reply matches ListingReply::Failed(why) ==> listed_resources(profile, reply) == Err::<
            Seq<ResourceView>,
            ErrorView,
        >(ErrorView::Transport(why@)) && completions(profile, prefix, reply) == Err::<
            Seq<Seq<char>>,
            ErrorView,
        >(ErrorView::Transport(why@)),
        reply is TimedOut ==> listed_resources(profile, reply) == Err::<
            Seq<ResourceView>,
            ErrorView,
        >(ErrorView::Transport("SFTP list_resources timed out"@)) && completions(
            profile,
            prefix,
            reply,
        ) == Err::<Seq<Seq<char>>, ErrorView>(
            ErrorView::Transport("SFTP complete_template_variable timed out"@),
        ),
{
    reveal_strlit("");
    assert(""@ =~= Seq::<char>::empty());
}

/// A page lists its resources, each at its place.
pub proof fn law_pages_list_their_resources(page: ResourcePage, i: int)
    requires
        0 <= i < page.resources@.len(),
    ensures
        page.listed().len() == page.resources@.len(),
        page.listed()[i] == page.resources@[i]@,
{
}

/// Which path a read is about: that of the pinned URI, else of the URI that is asked
/// for, else the path that is asked for, as it is; what is blank does not count.
pub proof fn law_reads_go_by_pin_uri_path(
    template: Seq<char>,
    pin: Option<Seq<char>>,
    uri: Option<Seq<char>>,
    path: Option<Seq<char>>,
)
    ensures
        ({
            let read = resource_path(template, pin, uri, path);
            let pinned = pin is Some && !blank(pin->0);
            let asked = uri is Some && !blank(uri->0);
            let named = path is Some && !blank(path->0);
            &&& pinned ==> read == Some(recovered(template, pin->0))
            &&& !pinned && asked ==> read == Some(recovered(template, uri->0))
            &&& !pinned && !asked && named ==> read == path
            &&& !pinned && !asked && !named ==> read is None
        }),
{
}

/// The body of a resource read: one entry, with the URI, the media type where the path
/// has one, and the text of the content, else its base64 as `blob`, else no text;
/// nothing else.
pub proof fn law_read_body_holds_the_content(
    uri: Seq<char>,
    path: Seq<char>,
    members: Map<Seq<char>, JsonView>,
)
    ensures
        ({
            let content = JsonView::Object(members);
            let body = contents_body(uri, path, content);
            let text = string_under(members, "text"@);
            let b64 = string_under(members, "base64"@);
            &&& body.member("contents"@) matches Some(JsonView::Array(entries))
            &&& entries.len() == 1
            &&& entries[0].member("uri"@) == Some(JsonView::Text(uri))
            &&& mime_of(path) is None ==> entries[0].member("mimeType"@) is None
            &&& mime_of(path) is Some ==> entries[0].member("mimeType"@) == Some(
                JsonView::Text(mime_of(path)->0),
            )
            &&& text is Some ==> entries[0].member("text"@) == Some(JsonView::Text(text->0))
                && entries[0].member("blob"@) is None
            &&& text is None && b64 is Some ==> entries[0].member("blob"@) == Some(
                JsonView::Text(b64->0),
            ) && entries[0].member("text"@) is None
            &&& text is None && b64 is None ==> entries[0].member("text"@) == Some(
                JsonView::Text(Seq::empty()),
            ) && entries[0].member("blob"@) is None
            &&& forall|name: Seq<char>| #[trigger]
                entries[0].member(name) is Some ==> name == "uri"@ || name == "mimeType"@ || name
                    == "text"@ || name == "blob"@
            &&& forall|name: Seq<char>| #[trigger]
                body.member(name) is Some ==> name == "contents"@
        }),
{
    reveal_strlit("");
    assert(""@ =~= Seq::<char>::empty());
    reveal_strlit("text");
    reveal_strlit("blob");
    reveal_strlit("uri");
    reveal_strlit("mimeType");
    assert("text"@[0] == 't' && "blob"@[0] == 'b');
    assert("text"@.len() == 4 && "blob"@.len() == 4 && "uri"@.len() == 3 && "mimeType"@.len() == 8);
}

/// The bytes of a file as JSON stand for every one of them.
pub proof fn law_content_stands_for_every_byte(data: Seq<u8>)
    ensures
        stands_for(content_view(data).member("text"@), content_view(data).member("base64"@), data),
{
    reveal_strlit("text");
    reveal_strlit("base64");
    assert("text"@.len() == 4 && "base64"@.len() == 6);
    if valid_utf8(data) {
        decode_utf8_encode_utf8(data);
    }
}

/// Of a file one byte more than the cap is read, and no less: a file of exactly the cap
/// is read whole and accepted, a larger one is told.
pub proof fn law_one_byte_more_is_read(max_bytes: usize)
    requires
        max_bytes < u64::MAX,
    ensures
        limit_of(max_bytes as nat) == max_bytes + 1,
{
}

/// A directory entry holds what the server tells: its name as it is, its numbers, and
/// its kind by two bits of its mode; nothing else.
pub proof fn law_entry_holds_what_the_server_tells(
    name: Seq<char>,
    size: Option<u64>,
    permissions: Option<u32>,
    mtime: Option<u32>,
)
    ensures
        ({
            let entry = entry_view(name, size, permissions, mtime);
            let dir = permissions matches Some(mode) && mode & 0x4000 == 0x4000;
            let link = permissions matches Some(mode) && mode & 0xa000 == 0xa000;
            &&& entry.member("name"@) == Some(JsonView::Text(name))
            &&& dir ==> entry.member("type"@) == Some(JsonView::Text("dir"@))
            &&& !dir && link ==> entry.member("type"@) == Some(JsonView::Text("symlink"@))
            &&& !dir && !link ==> entry.member("type"@) == Some(JsonView::Text("file"@))
            &&& size matches Some(n) ==> entry.member("size"@) == Some(JsonView::Number(n as nat))
            &&& size is None ==> entry.member("size"@) == Some(JsonView::Null)
            &&& permissions matches Some(n) ==> entry.member("permissions"@) == Some(
                JsonView::Number(n as nat),
            )
            &&& permissions is None ==> entry.member("permissions"@) == Some(JsonView::Null)
            &&& mtime matches Some(n) ==> entry.member("mtime"@) == Some(JsonView::Number(n as nat))
            &&& mtime is None ==> entry.member("mtime"@) == Some(JsonView::Null)
            &&& forall|key: Seq<char>| #[trigger]
                entry.member(key) is Some ==> key == "name"@ || key == "type"@ || key == "size"@
                    || key == "permissions"@ || key == "mtime"@
        }),
{
    reveal_strlit("name");
    reveal_strlit("type");
    reveal_strlit("size");
    reveal_strlit("permissions");
    reveal_strlit("mtime");
    assert("name"@[0] == 'n' && "type"@[0] == 't' && "size"@[0] == 's' && "permissions"@[0] == 'p'
        && "mtime"@[0] == 'm');
}

}
