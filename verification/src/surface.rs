//! MCP surface shaping for resource bindings.
//!
//! A binding is a tool by default; it may instead serve files as resources. Then
//! each file is one resource: its URI is the binding's template with `{path}`
//! filled by the file's path under the root, its name is the filename, its media type is a
//! guess from the extension, and its size is the description. A read carries the
//! resource URI, which the same template maps back to a path.

use vstd::prelude::*;
use vstd::string::*;
use vstd::utf8::*;

use crate::arguments::CallArguments;
use crate::json::items_view;
use crate::json::lemma_items_index;
use crate::json::lemma_items_push;
use crate::json::opt_text;
use crate::json::put;
use crate::json::text;
use crate::json::Json;
use crate::json::JsonView;
use crate::sftp::base64_encoding;
use crate::sftp::content_view;
use crate::sftp::entry_view;
use crate::sftp::lemma_entry_members;
use crate::sftp::mode_is_dir;
use crate::sftp::mode_is_symlink;
use crate::text::blank;
use crate::text::chars_of;
use crate::text::decimal;
use crate::text::decimal_text;
use crate::text::find_chars;
use crate::text::find_from;
use crate::text::is_blank;
use crate::text::last_segment;
use crate::text::lower_text;
use crate::text::lowered;
use crate::text::occurs_at;
use crate::text::replace_text;
use crate::text::replaced;
use crate::text::same_text;
use crate::text::segments;
use crate::text::starts_with;
use crate::text::string_of;
use crate::text::trim_end;
use crate::text::trimmed_end;

verus! {

/// Default URI template: `{path}` is replaced by the file path under `root`.
pub const DEFAULT_URI_TEMPLATE: &'static str = "sftp://{path}";

/// Which MCP surface a binding serves.
#[derive(Debug, Clone, Copy, PartialEq, Eq, Structural)]
pub enum Surface {
    /// The tool surface.
    Tool,
    /// The `resources/read` surface.
    Resource,
}

impl Default for Surface {
    fn default() -> (r: Surface)
        ensures
            r == Surface::Tool,
    {
        Surface::Tool
    }
}

impl Surface {
    /// The label of the surface in specs and diagnostics.
    pub open spec fn name(self) -> Seq<char> {
        match self {
            Surface::Tool => "tool"@,
            Surface::Resource => "resource"@,
        }
    }

    /// The label of the surface in specs and diagnostics.
    pub fn as_str(self) -> (r: &'static str)
        ensures
            r@ == self.name(),
    {
        match self {
            Surface::Tool => "tool",
            Surface::Resource => "resource",
        }
    }
}

// --------------------------------------------------------------------- URIs

/// The template with each `{path}` filled by the path.
pub open spec fn filled(template: Seq<char>, path: Seq<char>) -> Seq<char> {
    replaced(template, "{path}"@, path)
}

/// The path that a URI stands for under a template: what follows the template's
/// literal prefix, and the whole URI where it does not begin with that.
pub open spec fn recovered(template: Seq<char>, uri: Seq<char>) -> Seq<char> {
    match find_from(template, "{path}"@, 0) {
        Some(at) => if template.take(at).is_prefix_of(uri) {
            uri.skip(at)
        } else {
            uri
        },
        None => uri,
    }
}

/// Fills a URI template's `{path}` placeholder with a concrete file path.
pub fn uri_for_path(template: &str, path: &str) -> (r: String)
    ensures
        r@ == filled(template@, path@),
{
    proof {
        reveal_strlit("{path}");
    }
    replace_text(template, "{path}", path)
}

/// Recovers the file path from a resource URI of the template.
pub fn path_from_uri(template: &str, uri: &str) -> (r: String)
    ensures
        r@ == recovered(template@, uri@),
{
    let pattern = chars_of(template);
    let placeholder = chars_of("{path}");
    match find_chars(&pattern, &placeholder, 0) {
        Some(at) => {
            proof {
                crate::text::lemma_find_from(template@, "{path}"@, 0);
            }
            let prefix = string_of(&pattern, 0, at);
            assert(prefix@ =~= template@.take(at as int));
            if starts_with(uri, prefix.as_str()) {
                let chars = chars_of(uri);
                assert(uri@.skip(at as int) =~= uri@.subrange(at as int, uri@.len() as int));
                string_of(&chars, at, chars.len())
            } else {
                uri.to_owned()
            }
        },
        None => uri.to_owned(),
    }
}

// --------------------------------------------------------------- media types

/// The media type of a lower-case filename extension.
pub open spec fn mime_of_extension(ext: Seq<char>) -> Option<Seq<char>> {
    if ext == "txt"@ || ext == "log"@ {
        Some("text/plain"@)
    } else if ext == "json"@ {
        Some("application/json"@)
    } else if ext == "csv"@ {
        Some("text/csv"@)
    } else if ext == "xml"@ {
        Some("application/xml"@)
    } else if ext == "yaml"@ || ext == "yml"@ {
        Some("application/yaml"@)
    } else if ext == "html"@ || ext == "htm"@ {
        Some("text/html"@)
    } else if ext == "md"@ {
        Some("text/markdown"@)
    } else if ext == "pdf"@ {
        Some("application/pdf"@)
    } else if ext == "png"@ {
        Some("image/png"@)
    } else if ext == "jpg"@ || ext == "jpeg"@ {
        Some("image/jpeg"@)
    } else if ext == "gif"@ {
        Some("image/gif"@)
    } else if ext == "zip"@ {
        Some("application/zip"@)
    } else if ext == "gz"@ {
        Some("application/gzip"@)
    } else if ext == "tar"@ {
        Some("application/x-tar"@)
    } else {
        None
    }
}

/// What follows the last `.` of a path's last segment, lowered; none where that
/// segment has no `.`.
pub open spec fn extension(path: Seq<char>) -> Option<Seq<char>> {
    let parts = segments(segments(path, '/').last(), '.');
    if parts.len() > 1 {
        Some(lowered(parts.last()))
    } else {
        None
    }
}

/// The media type that a path's extension suggests.
pub open spec fn mime_of(path: Seq<char>) -> Option<Seq<char>> {
    match extension(path) {
        Some(ext) => mime_of_extension(ext),
        None => None,
    }
}

/// The view of an optional string slice.
pub open spec fn opt_str(s: Option<&str>) -> Option<Seq<char>> {
    match s {
        Some(s) => Some(s@),
        None => None,
    }
}

/// The media type of a lower-case filename extension.
fn mime_for_extension(ext: &str) -> (r: Option<&'static str>)
    ensures
        opt_str(r) == mime_of_extension(ext@),
{
    if same_text(ext, "txt") || same_text(ext, "log") {
        Some("text/plain")
    } else if same_text(ext, "json") {
        Some("application/json")
    } else if same_text(ext, "csv") {
        Some("text/csv")
    } else if same_text(ext, "xml") {
        Some("application/xml")
    } else if same_text(ext, "yaml") || same_text(ext, "yml") {
        Some("application/yaml")
    } else if same_text(ext, "html") || same_text(ext, "htm") {
        Some("text/html")
    } else if same_text(ext, "md") {
        Some("text/markdown")
    } else if same_text(ext, "pdf") {
        Some("application/pdf")
    } else if same_text(ext, "png") {
        Some("image/png")
    } else if same_text(ext, "jpg") || same_text(ext, "jpeg") {
        Some("image/jpeg")
    } else if same_text(ext, "gif") {
        Some("image/gif")
    } else if same_text(ext, "zip") {
        Some("application/zip")
    } else if same_text(ext, "gz") {
        Some("application/gzip")
    } else if same_text(ext, "tar") {
        Some("application/x-tar")
    } else {
        None
    }
}

/// Best-effort IANA media type from a file path's extension; none where the
/// extension is unknown.
pub fn mime_for_path(path: &str) -> (r: Option<&'static str>)
    ensures
        opt_str(r) == mime_of(path@),
{
    let name = last_segment(path, '/').0;
    let (ext, dotted) = last_segment(name.as_str(), '.');
    if dotted {
        let ext = lower_text(ext.as_str());
        mime_for_extension(ext.as_str())
    } else {
        None
    }
}

// ------------------------------------------------------------------ listings

/// One resource of a `resources/list` page.
#[derive(Debug, PartialEq, Eq)]
pub struct ListedResource {
    pub uri: String,
    pub name: Option<String>,
    pub description: Option<String>,
    pub mime_type: Option<String>,
}

/// One page of `resources/list`.
#[derive(Debug, PartialEq, Eq)]
pub struct ResourcePage {
    pub resources: Vec<ListedResource>,
    pub next_cursor: Option<String>,
}

/// What a listed resource says.
pub struct ResourceView {
    pub uri: Seq<char>,
    pub name: Option<Seq<char>>,
    pub description: Option<Seq<char>>,
    pub mime_type: Option<Seq<char>>,
}

impl View for ListedResource {
    type V = ResourceView;

    open spec fn view(&self) -> ResourceView {
        ResourceView {
            uri: self.uri@,
            name: opt_text(self.name),
            description: opt_text(self.description),
            mime_type: opt_text(self.mime_type),
        }
    }
}

impl ResourcePage {
    /// What the page's resources say, in order.
    pub open spec fn listed(self) -> Seq<ResourceView> {
        self.resources@.map_values(|r: ListedResource| r@)
    }

    /// The page without resources.
    pub fn empty() -> (r: ResourcePage)
        ensures
            r.resources@.len() == 0,
            r.next_cursor is None,
    {
        ResourcePage { resources: Vec::new(), next_cursor: None }
    }
}

/// The path of `name` in `dir`; the bare name where `dir` is the login's default
/// directory.
pub open spec fn joined_under(dir: Seq<char>, name: Seq<char>) -> Seq<char> {
    let base = trimmed_end(dir, '/');
    if base.len() == 0 || base == "."@ {
        name
    } else {
        base + "/"@ + name
    }
}

/// Joins `name` under `dir` for the resource URI's `{path}`.
pub fn join_under(dir: &str, name: &str) -> (r: String)
    ensures
        r@ == joined_under(dir@, name@),
{
    let base = trim_end(dir, '/');
    if base.as_str().is_empty() || same_text(base.as_str(), ".") {
        name.to_owned()
    } else {
        let mut path = base;
        path.append("/");
        path.append(name);
        path
    }
}

/// The resource of a directory entry; none where the entry is no file or
/// has no name.
pub open spec fn resource_of(
    entry: JsonView,
    dir: Seq<char>,
    template: Seq<char>,
) -> Option<ResourceView> {
    match entry.text_member("name"@) {
        Some(name) => if entry.text_member("type"@) == Some("file"@) {
            Some(
                ResourceView {
                    uri: filled(template, joined_under(dir, name)),
                    name: Some(name),
                    description: match entry.number_member("size"@) {
                        Some(size) => Some(decimal(size) + " bytes"@),
                        None => None,
                    },
                    mime_type: mime_of(name),
                },
            )
        } else {
            None
        },
        None => None,
    }
}

/// The resources of a listing, in its order.
pub open spec fn resources_of(
    entries: Seq<JsonView>,
    dir: Seq<char>,
    template: Seq<char>,
) -> Seq<ResourceView>
    decreases entries.len(),
{
    if entries.len() == 0 {
        Seq::empty()
    } else {
        let init = resources_of(entries.drop_last(), dir, template);
        match resource_of(entries.last(), dir, template) {
            Some(resource) => init.push(resource),
            None => init,
        }
    }
}

/// The resource of a directory entry.
fn entry_to_resource(entry: &Json, dir_path: &str, uri_template: &str) -> (r: Option<
    ListedResource,
>)
    ensures
        match r {
            Some(resource) => resource_of(entry@, dir_path@, uri_template@) == Some(resource@),
            None => resource_of(entry@, dir_path@, uri_template@) is None,
        },
{
    let is_file = match entry.get_str("type") {
        Some(kind) => same_text(kind, "file"),
        None => false,
    };
    if !is_file {
        return None;
    }
    match entry.get_str("name") {
        Some(name) => {
            let file_path = join_under(dir_path, name);
            let description: Option<String> = match entry.get_u64("size") {
                Some(size) => {
                    let mut words = decimal_text(size as u128);
                    words.append(" bytes");
                    Some(words)
                },
                None => None,
            };
            let mime_type: Option<String> = match mime_for_path(name) {
                Some(mime) => Some(mime.to_owned()),
                None => None,
            };
            Some(
                ListedResource {
                    uri: uri_for_path(uri_template, file_path.as_str()),
                    name: Some(name.to_owned()),
                    description,
                    mime_type,
                },
            )
        },
        None => None,
    }
}

/// Projects a directory listing into a resource page: one resource per regular
/// file that has a name, all on one page.
pub fn entries_to_resource_page(
    entries: &[Json],
    dir_path: &str,
    uri_template: &str,
) -> (r: ResourcePage)
    ensures
        r.listed() == resources_of(items_view(entries@), dir_path@, uri_template@),
        r.next_cursor is None,
{
    let mut resources: Vec<ListedResource> = Vec::new();
    let mut i: usize = 0;
    let ghost all = items_view(entries@);
    proof {
        lemma_items_index(entries@);
        assert(resources@.map_values(|r: ListedResource| r@) =~= resources_of(
            all.take(0),
            dir_path@,
            uri_template@,
        ));
    }
    while i < entries.len()
        invariant
            i <= entries@.len(),
            all == items_view(entries@),
            all.len() == entries@.len(),
            forall|j: int| 0 <= j < entries@.len() ==> #[trigger] all[j] == entries@[j]@,
            resources@.map_values(|r: ListedResource| r@) == resources_of(
                all.take(i as int),
                dir_path@,
                uri_template@,
            ),
        decreases entries@.len() - i,
    {
        proof {
            assert(all.take(i + 1).drop_last() =~= all.take(i as int));
            assert(all.take(i + 1).last() == entries@[i as int]@);
        }
        let ghost before = resources@;
        match entry_to_resource(&entries[i], dir_path, uri_template) {
            Some(resource) => {
                resources.push(resource);
                assert(resources@.map_values(|r: ListedResource| r@) =~= before.map_values(
                    |r: ListedResource| r@,
                ).push(resource@));
            },
            None => {},
        }
        i = i + 1;
    }
    assert(all.take(i as int) =~= all);
    ResourcePage { resources, next_cursor: None }
}

/// The names in a listing that begin with `prefix`, in its order.
pub open spec fn names_with_prefix(entries: Seq<JsonView>, prefix: Seq<char>) -> Seq<Seq<char>>
    decreases entries.len(),
{
    if entries.len() == 0 {
        Seq::empty()
    } else {
        let init = names_with_prefix(entries.drop_last(), prefix);
        match entries.last().text_member("name"@) {
            Some(name) => if prefix.is_prefix_of(name) {
                init.push(name)
            } else {
                init
            },
            None => init,
        }
    }
}

/// The first `max` items, or all where there are fewer.
pub open spec fn at_most<A>(items: Seq<A>, max: nat) -> Seq<A> {
    if items.len() <= max {
        items
    } else {
        items.take(max as int)
    }
}

/// More entries give more names, after those of the entries before them.
proof fn lemma_names_extend(entries: Seq<JsonView>, prefix: Seq<char>, n: int)
    requires
        0 <= n <= entries.len(),
    ensures
        names_with_prefix(entries.take(n), prefix).is_prefix_of(names_with_prefix(entries, prefix)),
    decreases entries.len() - n,
{
    if n < entries.len() {
        lemma_names_extend(entries, prefix, n + 1);
        assert(entries.take(n + 1).drop_last() =~= entries.take(n));
        let shorter = names_with_prefix(entries.take(n), prefix);
        let longer = names_with_prefix(entries.take(n + 1), prefix);
        let all = names_with_prefix(entries, prefix);
        assert(shorter.is_prefix_of(longer));
        assert(shorter =~= all.take(shorter.len() as int));
    } else {
        assert(entries.take(n) =~= entries);
    }
}

/// Extracts completion candidates for a `{path}` prefix from a listing: the names
/// of files and directories that begin with `prefix`, at most `max` of them.
pub fn entries_to_completion_values(entries: &[Json], prefix: &str, max: usize) -> (r: Vec<String>)
    ensures
        r@.map_values(|s: String| s@) == at_most(
            names_with_prefix(items_view(entries@), prefix@),
            max as nat,
        ),
{
    let mut out: Vec<String> = Vec::new();
    let mut i: usize = 0;
    let ghost all = items_view(entries@);
    proof {
        lemma_items_index(entries@);
        assert(out@.map_values(|s: String| s@) =~= names_with_prefix(all.take(0), prefix@));
    }
    while i < entries.len() && out.len() < max
        invariant
            i <= entries@.len(),
            out@.len() <= max,
            all == items_view(entries@),
            all.len() == entries@.len(),
            forall|j: int| 0 <= j < entries@.len() ==> #[trigger] all[j] == entries@[j]@,
            out@.map_values(|s: String| s@) == names_with_prefix(all.take(i as int), prefix@),
        decreases entries@.len() - i,
    {
        proof {
            assert(all.take(i + 1).drop_last() =~= all.take(i as int));
            assert(all.take(i + 1).last() == entries@[i as int]@);
        }
        let ghost before = out@;
        match entries[i].get_str("name") {
            Some(name) => {
                if starts_with(name, prefix) {
                    let name = name.to_owned();
                    out.push(name);
                    assert(out@.map_values(|s: String| s@) =~= before.map_values(
                        |s: String| s@,
                    ).push(name@));
                }
            },
            None => {},
        }
        i = i + 1;
    }
    proof {
        lemma_names_extend(all, prefix@, i as int);
        let found = out@.map_values(|s: String| s@);
        let names = names_with_prefix(all, prefix@);
        assert(found.is_prefix_of(names));
        if i == entries@.len() {
            assert(all.take(i as int) =~= all);
        } else {
            assert(found =~= names.take(max as int));
        }
        if names.len() <= max && i < entries@.len() {
            assert(names.take(max as int) =~= names);
        }
    }
    out
}

// --------------------------------------------------------------------- reads

/// The candidate, unless it is absent or blank.
pub open spec fn unless_blank(s: Option<Seq<char>>) -> Option<Seq<char>> {
    match s {
        Some(s) => if blank(s) {
            None
        } else {
            Some(s)
        },
        None => None,
    }
}

/// The path that a resource read is about: that of the binding's static URI,
/// else that of the `uri` argument, else the `path` argument; blank ones do not
/// count.
pub open spec fn resource_path(
    template: Seq<char>,
    static_uri: Option<Seq<char>>,
    uri: Option<Seq<char>>,
    path: Option<Seq<char>>,
) -> Option<Seq<char>> {
    match (unless_blank(static_uri), unless_blank(uri)) {
        (Some(pinned), _) => Some(recovered(template, pinned)),
        (None, Some(uri)) => Some(recovered(template, uri)),
        (None, None) => unless_blank(path),
    }
}

/// Resolves the file path for a `resources/read`.
pub fn resolve_resource_path(
    template: &str,
    static_uri: Option<&str>,
    arguments: &CallArguments,
) -> (r: Option<String>)
    ensures
        opt_text(r) == resource_path(
            template@,
            opt_str(static_uri),
            opt_text(arguments.uri),
            opt_text(arguments.path),
        ),
{
    match static_uri {
        Some(uri) => {
            if !is_blank(uri) {
                return Some(path_from_uri(template, uri));
            }
        },
        None => {},
    }
    match &arguments.uri {
        Some(uri) => {
            if !is_blank(uri.as_str()) {
                return Some(path_from_uri(template, uri.as_str()));
            }
        },
        None => {},
    }
    match &arguments.path {
        Some(path) => if is_blank(path.as_str()) {
            None
        } else {
            Some(path.clone())
        },
        None => None,
    }
}

/// The one entry of a read's body: the URI, the media type where it is known,
/// and the content: text, or base64 as `blob`, or an empty text.
pub open spec fn contents_entry(
    uri: Seq<char>,
    path: Seq<char>,
    content: JsonView,
) -> Map<Seq<char>, JsonView> {
    let named = map!["uri"@ => JsonView::Text(uri)];
    let typed = match mime_of(path) {
        Some(mime) => named.insert("mimeType"@, JsonView::Text(mime)),
        None => named,
    };
    match (content.text_member("text"@), content.text_member("base64"@)) {
        (Some(text), _) => typed.insert("text"@, JsonView::Text(text)),
        (None, Some(b64)) => typed.insert("blob"@, JsonView::Text(b64)),
        (None, None) => typed.insert("text"@, JsonView::Text(""@)),
    }
}

/// The body of a `resources/read`.
pub open spec fn contents_body(uri: Seq<char>, path: Seq<char>, content: JsonView) -> JsonView {
    JsonView::Object(
        map![
            "contents"@ => JsonView::Array(
                seq![JsonView::Object(contents_entry(uri, path, content))],
            ),
        ],
    )
}

/// Wraps a fetched file into the body of a `resources/read`.
pub fn resource_contents_body(uri: &str, path: &str, content: &Json) -> (r: Json)
    ensures
        r@ == contents_body(uri@, path@, content@),
{
    let mut entry: Vec<(String, Json)> = Vec::new();
    put(&mut entry, "uri", text(uri));
    match mime_for_path(path) {
        Some(mime) => {
            put(&mut entry, "mimeType", text(mime));
        },
        None => {},
    }
    match content.get_str("text") {
        Some(s) => {
            put(&mut entry, "text", text(s));
        },
        None => match content.get_str("base64") {
            Some(b64) => {
                put(&mut entry, "blob", text(b64));
            },
            None => {
                put(&mut entry, "text", text(""));
            },
        },
    }
    let mut contents: Vec<Json> = Vec::new();
    let item = Json::Object(entry);
    proof {
        lemma_items_push(contents@, item);
        assert(items_view(contents@.push(item)) =~= seq![item@]);
    }
    contents.push(item);
    let mut body: Vec<(String, Json)> = Vec::new();
    put(&mut body, "contents", Json::Array(contents));
    Json::Object(body)
}

// ---------------------------------------------------------------------- laws

/// Up to its first occurrence nothing is replaced.
proof fn lemma_replaced_from_first(s: Seq<char>, needle: Seq<char>, to: Seq<char>, at: int)
    requires
        needle.len() > 0,
        occurs_at(s, needle, at),
        forall|j: int| 0 <= j < at ==> !occurs_at(s, needle, j),
    ensures
        replaced(s, needle, to) == s.take(at) + to + replaced(
            s.skip(at + needle.len()),
            needle,
            to,
        ),
    decreases at,
{
    if at == 0 {
        assert(s.take(0) + to =~= to);
    } else {
        let rest = s.skip(1);
        assert(rest.subrange(at - 1, at - 1 + needle.len()) =~= s.subrange(at, at + needle.len()));
        assert forall|j: int| 0 <= j < at - 1 implies !occurs_at(rest, needle, j) by {
            assert(!occurs_at(s, needle, j + 1));
            if occurs_at(rest, needle, j) {
                assert(rest.subrange(j, j + needle.len()) =~= s.subrange(
                    j + 1,
                    j + 1 + needle.len(),
                ));
            }
        }
        lemma_replaced_from_first(rest, needle, to, at - 1);
        assert(rest.skip(at - 1 + needle.len()) =~= s.skip(at + needle.len()));
        assert(!occurs_at(s, needle, 0));
        assert(seq![s[0]] + (rest.take(at - 1) + to + replaced(
            rest.skip(at - 1 + needle.len()),
            needle,
            to,
        )) =~= s.take(at) + to + replaced(s.skip(at + needle.len()), needle, to));
    }
}

/// The template ends in its only `{path}`.
pub open spec fn ends_in_placeholder(template: Seq<char>) -> bool {
    find_from(template, "{path}"@, 0) == Some(template.len() - "{path}"@.len())
}

/// A template that ends in its only placeholder, filled, is its prefix and the
/// path.
proof fn lemma_filled_at_end(template: Seq<char>, path: Seq<char>)
    requires
        ends_in_placeholder(template),
    ensures
        ({
            let at = template.len() - "{path}"@.len();
            0 <= at <= template.len() && filled(template, path) == template.take(at) + path
        }),
{
    reveal_strlit("{path}");
    let needle = "{path}"@;
    let at = template.len() - needle.len();
    crate::text::lemma_find_from(template, needle, 0);
    lemma_replaced_from_first(template, needle, path, at);
    let tail = template.skip(at + needle.len());
    assert(tail.len() == 0);
    assert(replaced(tail, needle, path) =~= Seq::<char>::empty());
    assert(template.take(at) + path + Seq::<char>::empty() =~= template.take(at) + path);
}

/// A path survives the way into a URI and back, under every template that ends in
/// its only `{path}`.
pub proof fn law_uri_round_trip(template: Seq<char>, path: Seq<char>)
    requires
        ends_in_placeholder(template),
    ensures
        recovered(template, filled(template, path)) == path,
{
    let at = template.len() - "{path}"@.len();
    lemma_filled_at_end(template, path);
    let uri = filled(template, path);
    assert(template.take(at).is_prefix_of(uri));
    assert(uri.skip(at) =~= path);
}

/// A URI survives the way to a path and back: reading a URI of the template answers
/// with that URI.
pub proof fn law_read_answers_the_uri_asked(template: Seq<char>, uri: Seq<char>)
    requires
        ends_in_placeholder(template),
        template.take(template.len() - "{path}"@.len()).is_prefix_of(uri),
    ensures
        filled(template, recovered(template, uri)) == uri,
{
    let at = template.len() - "{path}"@.len();
    let path = recovered(template, uri);
    lemma_filled_at_end(template, path);
    assert(template.take(at) + uri.skip(at) =~= uri);
}

/// A path survives the way into a URI and back under the default template.
pub proof fn law_default_uri_round_trip(path: Seq<char>)
    ensures
        ends_in_placeholder(DEFAULT_URI_TEMPLATE@),
        recovered(DEFAULT_URI_TEMPLATE@, filled(DEFAULT_URI_TEMPLATE@, path)) == path,
{
    reveal_strlit("sftp://{path}");
    reveal_strlit("{path}");
    let t = DEFAULT_URI_TEMPLATE@;
    let needle = "{path}"@;
    assert forall|j: int| 0 <= j < 7 implies !occurs_at(t, needle, j) by {
        if occurs_at(t, needle, j) {
            assert(t.subrange(j, j + needle.len())[0] == t[j]);
        }
    }
    assert(t.subrange(7, 13) =~= needle);
    assert(occurs_at(t, needle, 7));
    crate::text::lemma_find_from(t, needle, 0);
    law_uri_round_trip(t, path);
}

/// The URI of a listed file reads back: with a template that ends in its only
/// `{path}`, reading it is about the file's path joined under the directory.
pub proof fn law_listed_resource_reads_back(entry: JsonView, dir: Seq<char>, template: Seq<char>)
    requires
        ends_in_placeholder(template),
        resource_of(entry, dir, template) is Some,
        !blank(resource_of(entry, dir, template)->0.name->0),
    ensures
        ({
            let resource = resource_of(entry, dir, template)->0;
            resource_path(template, None, Some(resource.uri), None) == Some(
                joined_under(dir, resource.name->0),
            )
        }),
{
    let resource = resource_of(entry, dir, template)->0;
    let name = resource.name->0;
    let path = joined_under(dir, name);
    lemma_filled_at_end(template, path);
    law_uri_round_trip(template, path);
    let at = template.len() - "{path}"@.len();
    let k = choose|k: int| 0 <= k < name.len() && !crate::text::is_white_space(#[trigger] name[k]);
    let skipped = path.len() - name.len();
    assert(path[skipped + k] == name[k]);
    assert(resource.uri[at + skipped + k] == name[k]);
    assert(!blank(resource.uri));
}

/// Directories and symbolic links are skipped; whatever is neither is listed.
pub proof fn law_directories_and_links_are_skipped(
    name: Seq<char>,
    size: Option<u64>,
    permissions: Option<u32>,
    mtime: Option<u32>,
    dir: Seq<char>,
    template: Seq<char>,
)
    ensures
        resource_of(entry_view(name, size, permissions, mtime), dir, template) is Some <==> !(
        mode_is_dir(permissions) || mode_is_symlink(permissions)),
{
    lemma_entry_members(name, size, permissions, mtime);
    reveal_strlit("file");
    reveal_strlit("dir");
    reveal_strlit("symlink");
    assert("file"@.len() != "dir"@.len());
    assert("file"@.len() != "symlink"@.len());
}

/// Every page is listed whole: a resource is on it exactly where an entry gives
/// it.
pub proof fn law_listing_is_whole(
    entries: Seq<JsonView>,
    dir: Seq<char>,
    template: Seq<char>,
    resource: ResourceView,
)
    ensures
        resources_of(entries, dir, template).contains(resource) <==> exists|i: int|
            0 <= i < entries.len() && resource_of(#[trigger] entries[i], dir, template) == Some(
                resource,
            ),
    decreases entries.len(),
{
    if entries.len() > 0 {
        let init = entries.drop_last();
        law_listing_is_whole(init, dir, template, resource);
        let before = resources_of(init, dir, template);
        let after = resources_of(entries, dir, template);
        if after.contains(resource) {
            let k = choose|k: int| 0 <= k < after.len() && after[k] == resource;
            if k < before.len() {
                assert(before[k] == resource);
                let i = choose|i: int|
                    0 <= i < init.len() && resource_of(#[trigger] init[i], dir, template) == Some(
                        resource,
                    );
                assert(entries[i] == init[i]);
            } else {
                assert(resource_of(entries[entries.len() - 1], dir, template) == Some(resource));
            }
        }
        if exists|i: int|
            0 <= i < entries.len() && resource_of(#[trigger] entries[i], dir, template) == Some(
                resource,
            ) {
            let i = choose|i: int|
                0 <= i < entries.len() && resource_of(#[trigger] entries[i], dir, template)
                    == Some(resource);
            if i < init.len() {
                assert(init[i] == entries[i]);
                assert(before.contains(resource));
                let k = choose|k: int| 0 <= k < before.len() && before[k] == resource;
                assert(after[k] == resource);
            } else {
                assert(after[after.len() - 1] == resource);
            }
        }
    }
}

/// A read's body shows UTF-8 bytes as `text` and others as a base64 `blob`, and
/// never both.
pub proof fn law_read_body_of_bytes(uri: Seq<char>, path: Seq<char>, data: Seq<u8>)
    ensures
        ({
            let entry = contents_entry(uri, path, content_view(data));
            if valid_utf8(data) {
                &&& entry.contains_key("text"@)
                &&& entry["text"@] == JsonView::Text(decode_utf8(data))
                &&& !entry.contains_key("blob"@)
            } else {
                &&& entry.contains_key("blob"@)
                &&& entry["blob"@] == JsonView::Text(base64_encoding(data))
                &&& !entry.contains_key("text"@)
            }
        }),
{
    reveal_strlit("uri");
    reveal_strlit("mimeType");
    reveal_strlit("text");
    reveal_strlit("blob");
    reveal_strlit("base64");
    assert("text"@[0] == 't' && "blob"@[0] == 'b');
    assert("base64"@.len() == 6 && "text"@.len() == 4 && "blob"@.len() == 4 && "uri"@.len() == 3
        && "mimeType"@.len() == 8);
}

}
