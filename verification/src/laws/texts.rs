//! Laws of texts.

use vstd::prelude::*;
use vstd::utf8::*;

use crate::order::bytes_le;
use crate::order::in_order;
use crate::order::lemma_text_order_is_total;
use crate::order::text_le;
use crate::order::text_order;
use crate::text::after_last;
use crate::text::blank;
use crate::text::decimal;
use crate::text::joined;
use crate::text::last_at;
use crate::text::lemma_joined_segments;
use crate::text::lemma_last_at;
use crate::text::lowered;
use crate::text::occurs;
use crate::text::occurs_at;
use crate::text::replaced;
use crate::text::segments;
use crate::text::trimmed_end;
use crate::text::trimmed_start;

verus! {

/// White space is what Unicode calls so, by code point, and a text is blank where it
/// holds nothing else.
pub proof fn law_blank_texts(a: Seq<char>, c: char, b: Seq<char>)
    ensures
        blank(Seq::empty()),
        blank(a + seq![c] + b) <==> blank(a) && blank(b) && {
            let n = c as u32;
            ||| 9 <= n <= 13
            ||| n == 0x20 || n == 0x85 || n == 0xa0 || n == 0x1680
            ||| 0x2000 <= n <= 0x200a
            ||| n == 0x2028 || n == 0x2029 || n == 0x202f || n == 0x205f || n == 0x3000
        },
{
    let whole = a + seq![c] + b;
    assert(whole[a.len() as int] == c);
    if blank(whole) {
        assert forall|i: int| 0 <= i < a.len() implies crate::text::is_white_space(
            #[trigger] a[i],
        ) by {
            assert(whole[i] == a[i]);
        }
        assert forall|i: int| 0 <= i < b.len() implies crate::text::is_white_space(
            #[trigger] b[i],
        ) by {
            assert(whole[a.len() + 1 + i] == b[i]);
        }
    }
}

/// Lowering moves the twenty-six ASCII capitals by thirty-two and leaves every other
/// character where and what it is.
pub proof fn law_lowering_moves_capitals_alone(s: Seq<char>, i: int)
    requires
        0 <= i < s.len(),
    ensures
        lowered(s).len() == s.len(),
        65 <= s[i] as u32 <= 90 ==> lowered(s)[i] as u32 == s[i] as u32 + 32,
        !(65 <= s[i] as u32 <= 90) ==> lowered(s)[i] == s[i],
{
}

/// A needle occurs in a text exactly where the text is something, the needle, and
/// something.
pub proof fn law_occurrence_splits_the_text(s: Seq<char>, needle: Seq<char>)
    ensures
        occurs(s, needle) <==> exists|a: Seq<char>, b: Seq<char>| s == #[trigger] (a + needle + b),
{
    if occurs(s, needle) {
        let i = choose|i: int| occurs_at(s, needle, i);
        let a = s.take(i);
        let b = s.skip(i + needle.len());
        assert(s =~= a + needle + b);
    }
    if exists|a: Seq<char>, b: Seq<char>| s == #[trigger] (a + needle + b) {
        let (a, b) = choose|a: Seq<char>, b: Seq<char>| s == #[trigger] (a + needle + b);
        assert(s.subrange(a.len() as int, (a.len() + needle.len()) as int) =~= needle);
        assert(occurs_at(s, needle, a.len() as int));
    }
}

/// Trimming the start takes away that character alone, all there is of it, and nothing
/// from the rest.
pub proof fn law_trimmed_start_keeps_the_rest(s: Seq<char>, c: char)
    ensures
        ({
            let rest = trimmed_start(s, c);
            let cut = s.len() - rest.len();
            &&& cut >= 0 && s.skip(cut) == rest
            &&& forall|i: int| 0 <= i < cut ==> #[trigger] s[i] == c
            &&& rest.len() > 0 ==> rest[0] != c
        }),
    decreases s.len(),
{
    if s.len() > 0 && s[0] == c {
        law_trimmed_start_keeps_the_rest(s.skip(1), c);
        let rest = trimmed_start(s, c);
        let cut = s.len() - rest.len();
        assert(s.skip(1).skip(cut - 1) =~= s.skip(cut));
        assert forall|i: int| 0 <= i < cut implies #[trigger] s[i] == c by {
            if i > 0 {
                assert(s.skip(1)[i - 1] == c);
            }
        }
    } else {
        assert(s.skip(0) =~= s);
    }
}

/// Trimming the end takes away that character alone, all there is of it, and nothing
/// from the rest.
pub proof fn law_trimmed_end_keeps_the_rest(s: Seq<char>, c: char)
    ensures
        ({
            let rest = trimmed_end(s, c);
            &&& rest.len() <= s.len() && s.take(rest.len() as int) == rest
            &&& forall|i: int| rest.len() <= i < s.len() ==> #[trigger] s[i] == c
            &&& rest.len() > 0 ==> rest.last() != c
        }),
    decreases s.len(),
{
    if s.len() > 0 && s.last() == c {
        law_trimmed_end_keeps_the_rest(s.drop_last(), c);
        let rest = trimmed_end(s, c);
        assert(s.drop_last().take(rest.len() as int) =~= s.take(rest.len() as int));
        assert forall|i: int| rest.len() <= i < s.len() implies #[trigger] s[i] == c by {
            if i < s.len() - 1 {
                assert(s.drop_last()[i] == c);
            }
        }
    } else {
        assert(s.take(s.len() as int) =~= s);
    }
}

/// Joining puts the parts one after the other, whole, with the separator between them.
pub proof fn law_joining_keeps_the_parts(parts: Seq<Seq<char>>, part: Seq<char>, sep: Seq<char>)
    ensures
        joined(Seq::empty(), sep) == Seq::<char>::empty(),
        joined(seq![part], sep) == part,
        parts.len() > 0 ==> joined(parts.push(part), sep) == joined(parts, sep) + sep + part,
{
    assert(parts.push(part).drop_last() =~= parts);
}

/// Splitting cuts at every separator and loses nothing: the parts, joined, are the
/// text, and no part holds a separator.
pub proof fn law_splitting_loses_nothing(s: Seq<char>, sep: char, i: int)
    requires
        0 <= i < segments(s, sep).len(),
    ensures
        joined(segments(s, sep), seq![sep]) == s,
        !segments(s, sep)[i].contains(sep),
    decreases s.len(),
{
    lemma_joined_segments(s, sep);
    if s.len() > 0 {
        let init = segments(s.drop_last(), sep);
        lemma_joined_segments(s.drop_last(), sep);
        if i < init.len() {
            law_splitting_loses_nothing(s.drop_last(), sep, i);
            let part = segments(s, sep)[i];
            if part.contains(sep) {
                let k = choose|k: int| 0 <= k < part.len() && part[k] == sep;
                assert(init[i][k] == sep);
            }
        }
    }
}

/// Replacing puts the new text for the first occurrence, keeps what stands before it,
/// and goes on behind it; a text without an occurrence stays as it is.
pub proof fn law_replacing_goes_from_the_left(
    a: Seq<char>,
    needle: Seq<char>,
    b: Seq<char>,
    to: Seq<char>,
)
    requires
        needle.len() > 0,
        forall|j: int|
            0 <= j < a.len() ==> #[trigger] (a + needle + b).subrange(j, j + needle.len())
                != needle,
    ensures
        replaced(a + needle + b, needle, to) == a + to + replaced(b, needle, to),
        !occurs(b, needle) ==> replaced(b, needle, to) == b,
    decreases a.len(),
{
    let s = a + needle + b;
    if a.len() == 0 {
        assert(s.subrange(0, needle.len() as int) =~= needle);
        assert(occurs_at(s, needle, 0));
        assert(s.skip(needle.len() as int) =~= b);
        assert(a + to =~= to);
    } else {
        let rest = a.skip(1);
        assert(s.subrange(0int, 0int + needle.len()) != needle);
        assert(!occurs_at(s, needle, 0));
        assert(s.skip(1) =~= rest + needle + b);
        assert forall|j: int| 0 <= j < rest.len() implies #[trigger] (rest + needle + b).subrange(
            j,
            j + needle.len(),
        ) != needle by {
            assert(s.subrange(j + 1, j + 1 + needle.len()) =~= (rest + needle + b).subrange(
                j,
                j + needle.len(),
            ));
        }
        law_replacing_goes_from_the_left(rest, needle, b, to);
        assert(seq![s[0]] + (rest + to + replaced(b, needle, to)) =~= a + to + replaced(
            b,
            needle,
            to,
        ));
    }
    if !occurs(b, needle) {
        lemma_nothing_to_replace(b, needle, to);
    }
}

/// A text without an occurrence stays as it is.
proof fn lemma_nothing_to_replace(s: Seq<char>, needle: Seq<char>, to: Seq<char>)
    requires
        needle.len() > 0,
        !occurs(s, needle),
    ensures
        replaced(s, needle, to) == s,
    decreases s.len(),
{
    if s.len() > 0 {
        assert(!occurs_at(s, needle, 0));
        let rest = s.skip(1);
        if occurs(rest, needle) {
            let i = choose|i: int| occurs_at(rest, needle, i);
            assert(s.subrange(i + 1, i + 1 + needle.len()) =~= rest.subrange(
                i,
                i + needle.len(),
            ));
            assert(occurs_at(s, needle, i + 1));
        }
        lemma_nothing_to_replace(rest, needle, to);
        assert(seq![s[0]] + rest =~= s);
    }
}

/// A number in decimal: one digit more at the end is ten times the number and the
/// digit, and a number below ten is its digit.
pub proof fn law_decimal_reads_as_the_number(n: nat, d: nat)
    requires
        d < 10,
    ensures
        decimal(d).len() == 1 && decimal(d)[0] as u32 == 48 + d,
        n > 0 ==> decimal(10 * n + d).len() == decimal(n).len() + 1 && decimal(
            10 * n + d,
        ).drop_last() == decimal(n) && decimal(10 * n + d).last() as u32 == 48 + d,
{
    if n > 0 {
        let m = 10 * n + d;
        assert(m / 10 == n && m % 10 == d);
        assert(decimal(m) == decimal(n).push(crate::text::digit(d)));
        assert(decimal(m).drop_last() =~= decimal(n));
    }
}

/// What follows the last needle: the text ends in the needle and it, and the needle
/// begins at no later place.
pub proof fn law_after_the_last_needle(s: Seq<char>, needle: Seq<char>)
    ensures
        after_last(s, needle) is None <==> !occurs(s, needle),
        after_last(s, needle) matches Some(rest) ==> {
            let at = s.len() - rest.len() - needle.len();
            &&& 0 <= at && s == s.take(at) + needle + rest
            &&& forall|j: int|
                at < j <= s.len() - needle.len() ==> #[trigger] s.subrange(j, j + needle.len())
                    != needle
        },
{
    lemma_last_at(s, needle, s.len() as int);
    match last_at(s, needle, s.len() as int) {
        Some(at) => {
            let rest = s.skip(at + needle.len());
            assert(s =~= s.take(at) + needle + rest);
            assert forall|j: int| at < j <= s.len() - needle.len() implies #[trigger] s.subrange(
                j,
                j + needle.len(),
            ) != needle by {
                assert(!occurs_at(s, needle, j));
            }
            assert(occurs_at(s, needle, at));
        },
        None => {
            if occurs(s, needle) {
                let i = choose|i: int| occurs_at(s, needle, i);
                assert(!occurs_at(s, needle, i));
            }
        },
    }
}

/// Bytes are ordered by the first place where they differ, and what goes on is above
/// what ends.
pub proof fn law_bytes_differ_at_one_place(
    common: Seq<u8>,
    x: u8,
    a: Seq<u8>,
    y: u8,
    b: Seq<u8>,
)
    ensures
        x < y ==> bytes_le(common + seq![x] + a, common + seq![y] + b),
        x < y ==> !bytes_le(common + seq![y] + b, common + seq![x] + a),
        bytes_le(common, common + seq![x] + a),
        !bytes_le(common + seq![x] + a, common),
    decreases common.len(),
{
    let p = common + seq![x] + a;
    let q = common + seq![y] + b;
    if common.len() > 0 {
        let rest = common.skip(1);
        law_bytes_differ_at_one_place(rest, x, a, y, b);
        assert(p.skip(1) =~= rest + seq![x] + a);
        assert(q.skip(1) =~= rest + seq![y] + b);
    }
}

/// Texts are ordered as their UTF-8 bytes are.
pub proof fn law_texts_are_ordered_by_bytes(a: Seq<char>, b: Seq<char>)
    ensures
        text_le(a, b) <==> bytes_le(encode_utf8(a), encode_utf8(b)),
{
}

/// Sorting gives the same texts, each as often, in the order of their UTF-8 bytes.
pub proof fn law_sorting_orders_by_bytes(texts: Seq<Seq<char>>, i: int, j: int)
    requires
        0 <= i < j < in_order(texts).len(),
    ensures
        in_order(texts).to_multiset() == texts.to_multiset(),
        bytes_le(encode_utf8(in_order(texts)[i]), encode_utf8(in_order(texts)[j])),
{
    lemma_text_order_is_total();
    texts.lemma_sort_by_ensures(text_order());
    let order = text_order();
    assert(order(in_order(texts)[i], in_order(texts)[j]));
}

}
