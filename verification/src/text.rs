//! Text as sequences of characters: the string predicates and transformations
//! that the rest of the library is specified with, and their executable forms.

use vstd::prelude::*;
use vstd::string::*;

verus! {

// ------------------------------------------------------------- characters

/// The characters with the Unicode `White_Space` property.
pub open spec fn is_white_space(c: char) -> bool {
    ||| '\u{9}' <= c && c <= '\u{d}'
    ||| c == ' ' || c == '\u{85}' || c == '\u{a0}' || c == '\u{1680}'
    ||| '\u{2000}' <= c && c <= '\u{200a}'
    ||| c == '\u{2028}' || c == '\u{2029}' || c == '\u{202f}' || c == '\u{205f}' || c == '\u{3000}'
}

/// The lower-case form of an ASCII letter; every other character is itself.
pub open spec fn ascii_lower(c: char) -> char {
    if 'A' <= c && c <= 'Z' {
        (c as u32 + 32) as char
    } else {
        c
    }
}

/// Whether `c` has the Unicode `White_Space` property.
pub fn is_white_space_char(c: char) -> (r: bool)
    ensures
        r == is_white_space(c),
{
    ('\u{9}' <= c && c <= '\u{d}') || c == ' ' || c == '\u{85}' || c == '\u{a0}' || c == '\u{1680}'
        || ('\u{2000}' <= c && c <= '\u{200a}') || c == '\u{2028}' || c == '\u{2029}'
        || c == '\u{202f}' || c == '\u{205f}' || c == '\u{3000}'
}

/// Lowers one ASCII letter.
pub fn ascii_lower_char(c: char) -> (r: char)
    ensures
        r == ascii_lower(c),
{
    if 'A' <= c && c <= 'Z' {
        (c as u8 + 32) as char
    } else {
        c
    }
}

/// `String::push` appends the character at the end.
pub assume_specification[ std::string::String::push ](string: &mut std::string::String, ch: char)
    ensures
        final(string)@ == old(string)@.push(ch),
;

/// The characters of a string, in order.
pub fn chars_of(s: &str) -> (r: Vec<char>)
    ensures
        r@ == s@,
{
    let mut out: Vec<char> = Vec::new();
    for c in it: s.chars()
        invariant
            it.seq() == s@,
            out@ == it.seq().take(it.index() as int),
    {
        out.push(c);
    }
    out
}

/// The string of the characters from `from` up to `to`.
pub fn string_of(chars: &Vec<char>, from: usize, to: usize) -> (r: String)
    requires
        from <= to <= chars@.len(),
    ensures
        r@ == chars@.subrange(from as int, to as int),
{
    let mut out = String::new();
    let mut i: usize = from;
    while i < to
        invariant
            from <= i <= to <= chars@.len(),
            out@ == chars@.subrange(from as int, i as int),
        decreases to - i,
    {
        out.push(chars[i]);
        i = i + 1;
    }
    out
}

// ------------------------------------------------------------- predicates

/// Nothing but white space: what trimming leaves empty.
pub open spec fn blank(s: Seq<char>) -> bool {
    forall|i: int| 0 <= i < s.len() ==> is_white_space(#[trigger] s[i])
}

/// `needle` stands in `s` at position `i`.
pub open spec fn occurs_at(s: Seq<char>, needle: Seq<char>, i: int) -> bool {
    0 <= i && i + needle.len() <= s.len() && s.subrange(i, i + needle.len()) == needle
}

/// `needle` stands somewhere in `s`.
pub open spec fn occurs(s: Seq<char>, needle: Seq<char>) -> bool {
    exists|i: int| occurs_at(s, needle, i)
}

/// The first position at or after `from` where `needle` stands in `s`.
pub open spec fn find_from(s: Seq<char>, needle: Seq<char>, from: int) -> Option<int>
    decreases s.len() - from + 1,
{
    if from < 0 || from + needle.len() > s.len() {
        None
    } else if occurs_at(s, needle, from) {
        Some(from)
    } else {
        find_from(s, needle, from + 1)
    }
}

/// The two strings hold the same characters.
pub fn same_text(a: &str, b: &str) -> (r: bool)
    ensures
        r == (a@ == b@),
{
    let x = chars_of(a);
    let y = chars_of(b);
    if x.len() != y.len() {
        return false;
    }
    assert(a@.subrange(0, a@.len() as int) =~= a@);
    matches_at(&x, &y, 0)
}

/// Whether `needle` stands in `chars` at position `i`.
pub fn matches_at(chars: &Vec<char>, needle: &Vec<char>, i: usize) -> (r: bool)
    ensures
        r == occurs_at(chars@, needle@, i as int),
{
    if i > chars.len() || chars.len() - i < needle.len() {
        return false;
    }
    let count: usize = chars.len();
    let mut k: usize = 0;
    while k < needle.len()
        invariant
            k <= needle@.len(),
            count == chars@.len(),
            i + needle@.len() <= count,
            forall|j: int| 0 <= j < k ==> chars@[i + j] == needle@[j],
        decreases needle@.len() - k,
    {
        if chars[i + k] != needle[k] {
            proof {
                assert(chars@.subrange(i as int, i + needle@.len())[k as int] != needle@[k as int]);
            }
            return false;
        }
        k = k + 1;
    }
    assert(chars@.subrange(i as int, i + needle@.len()) =~= needle@);
    true
}

/// Whether `s` begins with `prefix`.
pub fn starts_with(s: &str, prefix: &str) -> (r: bool)
    ensures
        r == prefix@.is_prefix_of(s@),
{
    let chars = chars_of(s);
    let needle = chars_of(prefix);
    matches_at(&chars, &needle, 0)
}

/// The first position at or after `from` where `needle` stands in `chars`.
pub fn find_chars(chars: &Vec<char>, needle: &Vec<char>, from: usize) -> (r: Option<usize>)
    ensures
        match r {
            Some(i) => find_from(chars@, needle@, from as int) == Some(i as int),
            None => find_from(chars@, needle@, from as int) is None,
        },
{
    if needle.len() > chars.len() {
        return None;
    }
    let last: usize = chars.len() - needle.len();
    let mut i: usize = from;
    while i <= last
        invariant
            from <= i,
            last == chars@.len() - needle@.len(),
            find_from(chars@, needle@, from as int) == find_from(chars@, needle@, i as int),
        decreases last - i,
    {
        if matches_at(chars, needle, i) {
            return Some(i);
        }
        if i == last {
            assert(find_from(chars@, needle@, i + 1) is None);
            return None;
        }
        i = i + 1;
    }
    None
}

/// What `find_from` gives: the first occurrence, or none at all.
pub proof fn lemma_find_from(s: Seq<char>, needle: Seq<char>, from: int)
    requires
        0 <= from,
    ensures
        match find_from(s, needle, from) {
            Some(i) => from <= i && occurs_at(s, needle, i) && (forall|j: int|
                from <= j < i ==> !occurs_at(s, needle, j)),
            None => forall|j: int| from <= j ==> !occurs_at(s, needle, j),
        },
    decreases s.len() - from + 1,
{
    if from + needle.len() <= s.len() && !occurs_at(s, needle, from) {
        lemma_find_from(s, needle, from + 1);
    }
}

/// The last position at or before `at` where `needle` stands in `s`.
pub open spec fn last_at(s: Seq<char>, needle: Seq<char>, at: int) -> Option<int>
    decreases at + 1,
{
    if at < 0 {
        None
    } else if occurs_at(s, needle, at) {
        Some(at)
    } else {
        last_at(s, needle, at - 1)
    }
}

/// What follows the last `needle` in `s`.
pub open spec fn after_last(s: Seq<char>, needle: Seq<char>) -> Option<Seq<char>> {
    match last_at(s, needle, s.len() as int) {
        Some(at) => Some(s.skip(at + needle.len())),
        None => None,
    }
}

/// What `last_at` gives: the last occurrence, or none at all.
pub proof fn lemma_last_at(s: Seq<char>, needle: Seq<char>, at: int)
    ensures
        match last_at(s, needle, at) {
            Some(i) => i <= at && occurs_at(s, needle, i) && (forall|j: int|
                i < j <= at ==> !occurs_at(s, needle, j)),
            None => forall|j: int| j <= at ==> !occurs_at(s, needle, j),
        },
    decreases at + 1,
{
    if at >= 0 && !occurs_at(s, needle, at) {
        lemma_last_at(s, needle, at - 1);
    }
}

/// Takes what follows the last `needle` in `s`.
pub fn text_after_last(s: &str, needle: &str) -> (r: Option<String>)
    ensures
        match r {
            Some(rest) => after_last(s@, needle@) == Some(rest@),
            None => after_last(s@, needle@) is None,
        },
{
    let chars = chars_of(s);
    let wanted = chars_of(needle);
    let mut i: usize = chars.len();
    while !matches_at(&chars, &wanted, i)
        invariant
            chars@ == s@,
            wanted@ == needle@,
            i <= chars@.len(),
            last_at(s@, needle@, s@.len() as int) == last_at(s@, needle@, i as int),
        decreases i,
    {
        if i == 0 {
            assert(last_at(s@, needle@, -1) is None);
            return None;
        }
        i = i - 1;
    }
    let rest = string_of(&chars, i + wanted.len(), chars.len());
    assert(rest@ =~= s@.skip(i + needle@.len()));
    Some(rest)
}

/// Whether `needle` stands somewhere in `s`.
pub fn contains_text(s: &str, needle: &str) -> (r: bool)
    ensures
        r == occurs(s@, needle@),
{
    let chars = chars_of(s);
    let wanted = chars_of(needle);
    proof {
        lemma_find_from(s@, needle@, 0);
    }
    find_chars(&chars, &wanted, 0).is_some()
}

/// Whether `s` is empty once white space is trimmed.
pub fn is_blank(s: &str) -> (r: bool)
    ensures
        r == blank(s@),
{
    let chars = chars_of(s);
    let mut i: usize = 0;
    while i < chars.len()
        invariant
            i <= chars@.len(),
            chars@ == s@,
            forall|j: int| 0 <= j < i ==> is_white_space(#[trigger] s@[j]),
        decreases chars@.len() - i,
    {
        if !is_white_space_char(chars[i]) {
            return false;
        }
        i = i + 1;
    }
    true
}

// -------------------------------------------------------- transformations

/// `s` with its ASCII letters lowered.
pub open spec fn lowered(s: Seq<char>) -> Seq<char> {
    s.map_values(|c: char| ascii_lower(c))
}

/// `s` without its leading run of `c`.
pub open spec fn trimmed_start(s: Seq<char>, c: char) -> Seq<char>
    decreases s.len(),
{
    if s.len() > 0 && s[0] == c {
        trimmed_start(s.skip(1), c)
    } else {
        s
    }
}

/// `s` without its trailing run of `c`.
pub open spec fn trimmed_end(s: Seq<char>, c: char) -> Seq<char>
    decreases s.len(),
{
    if s.len() > 0 && s.last() == c {
        trimmed_end(s.drop_last(), c)
    } else {
        s
    }
}

/// `s` with each occurrence of `needle`, found from the left without overlap,
/// replaced by `to`.
pub open spec fn replaced(s: Seq<char>, needle: Seq<char>, to: Seq<char>) -> Seq<char>
    decreases s.len(),
{
    if s.len() == 0 || needle.len() == 0 {
        s
    } else if occurs_at(s, needle, 0) {
        to + replaced(s.skip(needle.len() as int), needle, to)
    } else {
        seq![s[0]] + replaced(s.skip(1), needle, to)
    }
}

/// The parts of `s` between occurrences of `sep`, in order; one more than
/// there are occurrences.
pub open spec fn segments(s: Seq<char>, sep: char) -> Seq<Seq<char>>
    decreases s.len(),
{
    if s.len() == 0 {
        seq![Seq::<char>::empty()]
    } else {
        let init = segments(s.drop_last(), sep);
        if s.last() == sep {
            init.push(Seq::<char>::empty())
        } else {
            init.update(init.len() - 1, init.last().push(s.last()))
        }
    }
}

/// The parts, put one after the other with `sep` between them.
pub open spec fn joined(parts: Seq<Seq<char>>, sep: Seq<char>) -> Seq<char>
    decreases parts.len(),
{
    if parts.len() == 0 {
        Seq::empty()
    } else if parts.len() == 1 {
        parts[0]
    } else {
        joined(parts.drop_last(), sep) + sep + parts.last()
    }
}

/// The decimal digit of a number below ten.
pub open spec fn digit(n: nat) -> char {
    (48 + n) as char
}

/// A number in decimal, without leading zeros.
pub open spec fn decimal(n: nat) -> Seq<char>
    decreases n,
{
    if n < 10 {
        seq![digit(n)]
    } else {
        decimal(n / 10).push(digit(n % 10))
    }
}

/// Lowers the ASCII letters of `s`.
pub fn lower_text(s: &str) -> (r: String)
    ensures
        r@ == lowered(s@),
{
    let mut out = String::new();
    for c in it: s.chars()
        invariant
            it.seq() == s@,
            out@ == lowered(it.seq().take(it.index() as int)),
    {
        out.push(ascii_lower_char(c));
        assert(lowered(s@.take(it.index() as int + 1)) =~= lowered(s@.take(it.index() as int)).push(
            ascii_lower(c),
        ));
    }
    assert(s@.take(s@.len() as int) =~= s@);
    out
}

/// Drops the leading run of `c`.
pub fn trim_start(s: &str, c: char) -> (r: String)
    ensures
        r@ == trimmed_start(s@, c),
{
    let chars = chars_of(s);
    let mut i: usize = 0;
    assert(s@.skip(0) =~= s@);
    while i < chars.len() && chars[i] == c
        invariant
            i <= chars@.len(),
            chars@ == s@,
            trimmed_start(s@, c) == trimmed_start(s@.skip(i as int), c),
        decreases chars@.len() - i,
    {
        assert(s@.skip(i as int).skip(1) =~= s@.skip(i + 1));
        i = i + 1;
    }
    assert(s@.skip(i as int) =~= s@.subrange(i as int, s@.len() as int));
    string_of(&chars, i, chars.len())
}

/// Drops the trailing run of `c`.
pub fn trim_end(s: &str, c: char) -> (r: String)
    ensures
        r@ == trimmed_end(s@, c),
{
    let chars = chars_of(s);
    let mut n: usize = chars.len();
    assert(s@.take(n as int) =~= s@);
    while n > 0 && chars[n - 1] == c
        invariant
            n <= chars@.len(),
            chars@ == s@,
            trimmed_end(s@, c) == trimmed_end(s@.take(n as int), c),
        decreases n,
    {
        assert(s@.take(n as int).drop_last() =~= s@.take(n - 1));
        n = n - 1;
    }
    assert(s@.take(n as int) =~= s@.subrange(0, n as int));
    string_of(&chars, 0, n)
}

/// Replaces each occurrence of `needle` by `to`.
pub fn replace_text(s: &str, needle: &str, to: &str) -> (r: String)
    requires
        needle@.len() > 0,
    ensures
        r@ == replaced(s@, needle@, to@),
{
    let chars = chars_of(s);
    let wanted = chars_of(needle);
    let mut out = String::new();
    let mut i: usize = 0;
    assert(s@.skip(0) =~= s@);
    while i < chars.len()
        invariant
            i <= chars@.len(),
            chars@ == s@,
            wanted@ == needle@,
            needle@.len() > 0,
            replaced(s@, needle@, to@) == out@ + replaced(s@.skip(i as int), needle@, to@),
        decreases chars@.len() - i,
    {
        let ghost rest = s@.skip(i as int);
        if matches_at(&chars, &wanted, i) {
            proof {
                assert(rest.subrange(0, needle@.len() as int) =~= s@.subrange(
                    i as int,
                    i + needle@.len(),
                ));
                assert(rest.skip(needle@.len() as int) =~= s@.skip(i + needle@.len()));
            }
            out.append(to);
            i = i + wanted.len();
        } else {
            proof {
                if occurs_at(rest, needle@, 0) {
                    assert(rest.subrange(0, needle@.len() as int) =~= s@.subrange(
                        i as int,
                        i + needle@.len(),
                    ));
                }
                assert(rest.skip(1) =~= s@.skip(i + 1));
            }
            out.push(chars[i]);
            i = i + 1;
        }
    }
    out
}

/// Whether one of the parts of `s` between `sep`s is `wanted`.
pub fn has_segment(s: &str, sep: char, wanted: &str) -> (r: bool)
    ensures
        r == segments(s@, sep).contains(wanted@),
{
    let chars = chars_of(s);
    let mut found = false;
    let mut current = String::new();
    let mut i: usize = 0;
    while i < chars.len()
        invariant
            i <= chars@.len(),
            chars@ == s@,
            segments(s@.take(i as int), sep).len() > 0,
            segments(s@.take(i as int), sep).last() == current@,
            found == segments(s@.take(i as int), sep).drop_last().contains(wanted@),
        decreases chars@.len() - i,
    {
        let ghost before = segments(s@.take(i as int), sep);
        let ghost after = segments(s@.take(i + 1), sep);
        assert(s@.take(i + 1).drop_last() =~= s@.take(i as int));
        let c = chars[i];
        if c == sep {
            proof {
                assert(after.drop_last() =~= before);
                assert(before =~= before.drop_last().push(current@));
                if before.drop_last().contains(wanted@) {
                    let k = choose|k: int|
                        0 <= k < before.drop_last().len() && before.drop_last()[k] == wanted@;
                    assert(before[k] == wanted@);
                }
                if before.contains(wanted@) && current@ != wanted@ {
                    let k = choose|k: int| 0 <= k < before.len() && before[k] == wanted@;
                    assert(before.drop_last()[k] == wanted@);
                }
                if current@ == wanted@ {
                    assert(before[before.len() - 1] == wanted@);
                }
            }
            if same_text(current.as_str(), wanted) {
                found = true;
            }
            current = String::new();
        } else {
            proof {
                assert(after.drop_last() =~= before.drop_last());
            }
            current.push(c);
        }
        i = i + 1;
    }
    assert(s@.take(i as int) =~= s@);
    let last = same_text(current.as_str(), wanted);
    proof {
        let all = segments(s@, sep);
        if found {
            let k = choose|k: int| 0 <= k < all.drop_last().len() && all.drop_last()[k] == wanted@;
            assert(all[k] == wanted@);
        }
        if all.contains(wanted@) && !last {
            let k = choose|k: int| 0 <= k < all.len() && all[k] == wanted@;
            assert(all.drop_last()[k] == wanted@);
        }
        if last {
            assert(all[all.len() - 1] == wanted@);
        }
    }
    found || last
}

/// The last part of `s` between `sep`s, and whether `sep` occurs at all.
pub fn last_segment(s: &str, sep: char) -> (r: (String, bool))
    ensures
        segments(s@, sep).len() > 0,
        r.0@ == segments(s@, sep).last(),
        r.1 == (segments(s@, sep).len() > 1),
{
    let chars = chars_of(s);
    let mut found = false;
    let mut current = String::new();
    let mut i: usize = 0;
    while i < chars.len()
        invariant
            i <= chars@.len(),
            chars@ == s@,
            segments(s@.take(i as int), sep).len() > 0,
            segments(s@.take(i as int), sep).last() == current@,
            found == (segments(s@.take(i as int), sep).len() > 1),
        decreases chars@.len() - i,
    {
        assert(s@.take(i + 1).drop_last() =~= s@.take(i as int));
        let c = chars[i];
        if c == sep {
            found = true;
            current = String::new();
        } else {
            current.push(c);
        }
        i = i + 1;
    }
    assert(s@.take(i as int) =~= s@);
    (current, found)
}

/// Puts the parts one after the other with `sep` between them.
pub fn join_text(parts: &Vec<String>, sep: &str) -> (r: String)
    ensures
        r@ == joined(parts@.map_values(|p: String| p@), sep@),
{
    let ghost views = parts@.map_values(|p: String| p@);
    let mut out = String::new();
    let mut i: usize = 0;
    while i < parts.len()
        invariant
            i <= parts@.len(),
            views == parts@.map_values(|p: String| p@),
            out@ == joined(views.take(i as int), sep@),
        decreases parts@.len() - i,
    {
        assert(views.take(i + 1).drop_last() =~= views.take(i as int));
        if i > 0 {
            out.append(sep);
        }
        out.append(parts[i].as_str());
        i = i + 1;
    }
    assert(views.take(i as int) =~= views);
    out
}

/// A number in decimal.
pub fn decimal_text(n: u128) -> (r: String)
    ensures
        r@ == decimal(n as nat),
    decreases n,
{
    let d: u8 = (n % 10) as u8;
    let c: char = (48 + d) as char;
    let mut out = if n < 10 {
        String::new()
    } else {
        decimal_text(n / 10)
    };
    out.push(c);
    out
}

/// The segments of two texts joined by the separator are those of the one,
/// then those of the other.
pub proof fn lemma_segments_concat(a: Seq<char>, b: Seq<char>, sep: char)
    ensures
        segments(a + seq![sep] + b, sep) == segments(a, sep) + segments(b, sep),
        segments(b, sep).len() > 0,
    decreases b.len(),
{
    let whole = a + seq![sep] + b;
    if b.len() == 0 {
        assert(whole.drop_last() =~= a);
        assert(segments(whole, sep) =~= segments(a, sep) + segments(b, sep));
    } else {
        lemma_segments_concat(a, b.drop_last(), sep);
        assert(whole.drop_last() =~= a + seq![sep] + b.drop_last());
        assert(segments(whole, sep) =~= segments(a, sep) + segments(b, sep));
    }
}

/// A text without the separator is its own only segment.
pub proof fn lemma_segments_plain(s: Seq<char>, sep: char)
    requires
        !s.contains(sep),
    ensures
        segments(s, sep) == seq![s],
    decreases s.len(),
{
    if s.len() > 0 {
        let init = s.drop_last();
        assert(!init.contains(sep)) by {
            if init.contains(sep) {
                let k = choose|k: int| 0 <= k < init.len() && init[k] == sep;
                assert(s[k] == sep);
            }
        }
        lemma_segments_plain(init, sep);
        assert(s[s.len() - 1] != sep);
        assert(segments(s, sep) =~= seq![s]) by {
            assert(init.push(s.last()) =~= s);
        }
    } else {
        assert(s =~= Seq::<char>::empty());
    }
}

/// Parts without the separator come back from what joins them.
pub proof fn lemma_segments_of_joined(parts: Seq<Seq<char>>, sep: char)
    requires
        parts.len() > 0,
        forall|i: int| 0 <= i < parts.len() ==> !(#[trigger] parts[i]).contains(sep),
    ensures
        segments(joined(parts, seq![sep]), sep) == parts,
    decreases parts.len(),
{
    lemma_segments_plain(parts.last(), sep);
    if parts.len() > 1 {
        lemma_segments_of_joined(parts.drop_last(), sep);
        lemma_segments_concat(joined(parts.drop_last(), seq![sep]), parts.last(), sep);
        assert(parts =~= parts.drop_last() + seq![parts.last()]);
    } else {
        assert(parts =~= seq![parts[0]]);
    }
}

/// The segments of a text, joined, are the text.
pub proof fn lemma_joined_segments(s: Seq<char>, sep: char)
    ensures
        segments(s, sep).len() > 0,
        joined(segments(s, sep), seq![sep]) == s,
    decreases s.len(),
{
    if s.len() > 0 {
        let init = segments(s.drop_last(), sep);
        let all = segments(s, sep);
        lemma_joined_segments(s.drop_last(), sep);
        assert(s =~= s.drop_last().push(s.last()));
        if s.last() == sep {
            assert(all.drop_last() =~= init);
            assert(joined(all, seq![sep]) =~= s);
        } else {
            assert(all.drop_last() =~= init.drop_last());
            assert(joined(all, seq![sep]) =~= s);
        }
    } else {
        assert(s =~= Seq::<char>::empty());
    }
}

/// The decimal form of a number is made of digits.
pub proof fn lemma_decimal_is_digits(n: nat)
    ensures
        decimal(n).len() > 0,
        forall|i: int| 0 <= i < decimal(n).len() ==> '0' <= #[trigger] decimal(n)[i] <= '9',
    decreases n,
{
    if n >= 10 {
        lemma_decimal_is_digits(n / 10);
    }
}

/// Numbers of the same decimal form are the same.
pub proof fn lemma_decimal_is_injective(a: nat, b: nat)
    requires
        decimal(a) == decimal(b),
    ensures
        a == b,
    decreases a,
{
    lemma_decimal_is_digits(a / 10);
    lemma_decimal_is_digits(b / 10);
    if a >= 10 && b >= 10 {
        assert(decimal(a).drop_last() =~= decimal(a / 10));
        assert(decimal(b).drop_last() =~= decimal(b / 10));
        assert(decimal(a).last() == digit(a % 10));
        assert(decimal(b).last() == digit(b % 10));
        assert(digit(a % 10) as int == 48 + a % 10);
        assert(digit(b % 10) as int == 48 + b % 10);
        lemma_decimal_is_injective(a / 10, b / 10);
    } else if a < 10 && b < 10 {
        assert(decimal(a)[0] == digit(a));
        assert(decimal(b)[0] == digit(b));
        assert(digit(a) as int == 48 + a);
        assert(digit(b) as int == 48 + b);
    } else if a < 10 {
        assert(decimal(a).len() == 1);
        assert(decimal(b).len() == decimal(b / 10).len() + 1);
    } else {
        assert(decimal(b).len() == 1);
        assert(decimal(a).len() == decimal(a / 10).len() + 1);
    }
}

}
