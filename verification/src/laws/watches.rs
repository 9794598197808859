//! Laws of watches: what a fingerprint is made of, and what polls come to.

use vstd::prelude::*;
use vstd::utf8::*;

use crate::backend::ListingReply;
use crate::json::json_text;
use crate::json::JsonView;
use crate::laws::calls::string_under;
use crate::laws::texts::law_sorting_orders_by_bytes;
use crate::order::bytes_le;
use crate::order::in_order;
use crate::order::lemma_permutation_of_in_order;
use crate::text::decimal;
use crate::text::lemma_segments_of_joined;
use crate::text::segments;
use crate::watch::fingerprint;
use crate::watch::lemma_sorted_lines;
use crate::watch::lines;
use crate::watch::listing_failure;
use crate::watch::scalar_text;
use crate::watch::tellable;
use crate::watch::watched;
use crate::watch::WatchCursor;

verus! {

/// A member in a fingerprint: a string or a number as it is, `null` and what is missing
/// as nothing, anything else as its JSON text.
pub proof fn law_scalars_are_written_as_they_are(value: JsonView)
    ensures
        value matches JsonView::Text(s) ==> scalar_text(value) == s,
        value matches JsonView::Number(n) ==> scalar_text(value) == decimal(n),
        value is Null ==> scalar_text(value).len() == 0,
        value is Bool || value is Array || value is Object ==> scalar_text(value) == json_text(
            value,
        ),
{
}

/// A directory of one entry has the fingerprint name, bar, size, bar, modification time,
/// each as it is.
pub proof fn law_fingerprint_of_one_entry(members: Map<Seq<char>, JsonView>)
    requires
        members.contains_key("name"@) && members["name"@] is Text,
        members.contains_key("size"@),
        members.contains_key("mtime"@),
    ensures
        fingerprint(seq![JsonView::Object(members)]) == members["name"@]->Text_0 + seq!['|']
            + scalar_text(members["size"@]) + seq!['|'] + scalar_text(members["mtime"@]),
{
    reveal_strlit("|");
    assert("|"@ =~= seq!['|']);
    let entries = seq![JsonView::Object(members)];
    let all = lines(entries);
    assert(all =~= seq![watched(JsonView::Object(members)).line()]);
    lemma_permutation_of_in_order(all, all);
    crate::order::lemma_in_order_keeps(all, 0);
    assert(in_order(all) =~= all);
}

/// A fingerprint is one line for each entry, sorted by bytes: split at its line breaks
/// it is the same lines, each as often, and no line is above the next.
pub proof fn law_fingerprint_is_its_sorted_lines(entries: Seq<JsonView>, i: int, j: int)
    requires
        forall|k: int| 0 <= k < entries.len() ==> tellable(#[trigger] entries[k]),
        0 <= i < j < entries.len(),
    ensures
        ({
            let split = segments(fingerprint(entries), '\n');
            &&& split.len() == entries.len()
            &&& split.to_multiset() == entries.map_values(
                |e: JsonView| watched(e).name + seq!['|'] + watched(e).size + seq!['|'] + watched(
                    e,
                ).mtime,
            ).to_multiset()
            &&& bytes_le(encode_utf8(split[i]), encode_utf8(split[j]))
        }),
{
    reveal_strlit("|");
    reveal_strlit("\n");
    assert("|"@ =~= seq!['|']);
    assert("\n"@ =~= seq!['\n']);
    let all = lines(entries);
    lemma_permutation_of_in_order(all, all);
    lemma_sorted_lines(entries);
    lemma_segments_of_joined(in_order(all), '\n');
    law_sorting_orders_by_bytes(all, i, j);
    assert(all =~= entries.map_values(
        |e: JsonView| watched(e).name + seq!['|'] + watched(e).size + seq!['|'] + watched(e).mtime,
    ));
}

/// What of an entry is watched: its name, its size and its modification time, and
/// nothing else of it.
pub proof fn law_watched_are_name_size_and_time(members: Map<Seq<char>, JsonView>)
    ensures
        ({
            let seen = watched(JsonView::Object(members));
            &&& string_under(members, "name"@) is Some ==> seen.name == string_under(
                members,
                "name"@,
            )->0
            &&& string_under(members, "name"@) is None ==> seen.name.len() == 0
            &&& members.contains_key("size"@) ==> seen.size == scalar_text(members["size"@])
            &&& !members.contains_key("size"@) ==> seen.size.len() == 0
            &&& members.contains_key("mtime"@) ==> seen.mtime == scalar_text(members["mtime"@])
            &&& !members.contains_key("mtime"@) ==> seen.mtime.len() == 0
        }),
{
}

/// Entries are told apart by their lines where no line break stands in them and no bar
/// in their numbers.
pub proof fn law_tellable_entries(entry: JsonView)
    ensures
        tellable(entry) <==> {
            &&& !watched(entry).name.contains('\n')
            &&& !watched(entry).size.contains('\n')
            &&& !watched(entry).size.contains('|')
            &&& !watched(entry).mtime.contains('\n')
            &&& !watched(entry).mtime.contains('|')
        },
{
}

/// A poll tells a change exactly where there was one before it and it saw another
/// fingerprint.
pub proof fn law_polls_tell_another_fingerprint(cursor: WatchCursor, seen: Seq<char>)
    ensures
        cursor.last is None ==> !cursor.tells(seen) && cursor@ is None,
        cursor.last matches Some(last) ==> cursor@ == Some(last@) && (cursor.tells(seen) <==> last@
            != seen),
{
}

/// Why a listing gave nothing: its own message, or that it was late.
pub proof fn law_failed_listings_tell_why(reply: ListingReply, late: Seq<char>)
    ensures
        reply is Entries ==> listing_failure(reply, late) is None,
        reply matches ListingReply::Failed(why) ==> listing_failure(reply, late) == Some(why@),
        reply is TimedOut ==> listing_failure(reply, late) == Some(late),
{
}

}
