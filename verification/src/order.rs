//! The order of texts by their UTF-8 bytes, and sorting by it.

use vstd::prelude::*;
use vstd::relations::*;
use vstd::seq_lib::*;
use vstd::string::*;
use vstd::utf8::*;

verus! {

/// The lexicographic order of byte strings.
pub open spec fn bytes_le(a: Seq<u8>, b: Seq<u8>) -> bool
    decreases a.len(),
{
    if a.len() == 0 {
        true
    } else if b.len() == 0 {
        false
    } else {
        a[0] < b[0] || (a[0] == b[0] && bytes_le(a.skip(1), b.skip(1)))
    }
}

/// The order of texts by their UTF-8 bytes.
pub open spec fn text_le(a: Seq<char>, b: Seq<char>) -> bool {
    bytes_le(encode_utf8(a), encode_utf8(b))
}

/// The order of texts as a relation.
pub open spec fn text_order() -> spec_fn(Seq<char>, Seq<char>) -> bool {
    |a: Seq<char>, b: Seq<char>| text_le(a, b)
}

/// The texts in ascending order.
pub open spec fn in_order(texts: Seq<Seq<char>>) -> Seq<Seq<char>> {
    texts.sort_by(text_order())
}

proof fn lemma_bytes_le_reflexive(a: Seq<u8>)
    ensures
        bytes_le(a, a),
    decreases a.len(),
{
    if a.len() > 0 {
        lemma_bytes_le_reflexive(a.skip(1));
    }
}

proof fn lemma_bytes_le_antisymmetric(a: Seq<u8>, b: Seq<u8>)
    requires
        bytes_le(a, b),
        bytes_le(b, a),
    ensures
        a == b,
    decreases a.len(),
{
    if a.len() > 0 && b.len() > 0 {
        lemma_bytes_le_antisymmetric(a.skip(1), b.skip(1));
        assert(a =~= seq![a[0]] + a.skip(1));
        assert(b =~= seq![b[0]] + b.skip(1));
    } else {
        assert(a =~= b);
    }
}

proof fn lemma_bytes_le_transitive(a: Seq<u8>, b: Seq<u8>, c: Seq<u8>)
    requires
        bytes_le(a, b),
        bytes_le(b, c),
    ensures
        bytes_le(a, c),
    decreases a.len(),
{
    if a.len() > 0 && b.len() > 0 && c.len() > 0 && a[0] == b[0] && b[0] == c[0] {
        lemma_bytes_le_transitive(a.skip(1), b.skip(1), c.skip(1));
    }
}

proof fn lemma_bytes_le_connected(a: Seq<u8>, b: Seq<u8>)
    ensures
        bytes_le(a, b) || bytes_le(b, a),
    decreases a.len(),
{
    if a.len() > 0 && b.len() > 0 {
        lemma_bytes_le_connected(a.skip(1), b.skip(1));
    }
}

/// The order of texts is total.
pub proof fn lemma_text_order_is_total()
    ensures
        total_ordering(text_order()),
{
    let r = text_order();
    assert forall|a: Seq<char>| #[trigger] r(a, a) by {
        lemma_bytes_le_reflexive(encode_utf8(a));
    }
    assert forall|a: Seq<char>, b: Seq<char>| #[trigger] r(a, b) && #[trigger] r(b, a) implies a
        == b by {
        lemma_bytes_le_antisymmetric(encode_utf8(a), encode_utf8(b));
        encode_utf8_decode_utf8(a);
        encode_utf8_decode_utf8(b);
    }
    assert forall|a: Seq<char>, b: Seq<char>, c: Seq<char>| #[trigger]
        r(a, b) && #[trigger] r(b, c) implies r(a, c) by {
        lemma_bytes_le_transitive(encode_utf8(a), encode_utf8(b), encode_utf8(c));
    }
    assert forall|a: Seq<char>, b: Seq<char>| #[trigger] r(a, b) || #[trigger] r(b, a) by {
        lemma_bytes_le_connected(encode_utf8(a), encode_utf8(b));
    }
}

/// Sorting forgets in which order the texts came.
pub proof fn lemma_in_order_of_permutation(a: Seq<Seq<char>>, b: Seq<Seq<char>>)
    requires
        a.to_multiset() == b.to_multiset(),
    ensures
        in_order(a) == in_order(b),
{
    lemma_text_order_is_total();
    a.lemma_sort_by_ensures(text_order());
    b.lemma_sort_by_ensures(text_order());
    lemma_sorted_unique(in_order(a), in_order(b), text_order());
}

/// Texts that sort to the same were the same, in some order.
pub proof fn lemma_permutation_of_in_order(a: Seq<Seq<char>>, b: Seq<Seq<char>>)
    requires
        in_order(a) == in_order(b),
    ensures
        a.to_multiset() == b.to_multiset(),
        in_order(a).len() == a.len(),
{
    lemma_text_order_is_total();
    a.lemma_sort_by_ensures(text_order());
    b.lemma_sort_by_ensures(text_order());
    a.to_multiset_ensures();
    in_order(a).to_multiset_ensures();
}

/// Sorting keeps each text.
pub proof fn lemma_in_order_keeps(a: Seq<Seq<char>>, i: int)
    requires
        0 <= i < in_order(a).len(),
    ensures
        a.contains(in_order(a)[i]),
{
    lemma_text_order_is_total();
    a.lemma_sort_by_ensures(text_order());
    a.to_multiset_ensures();
    in_order(a).to_multiset_ensures();
    assert(in_order(a).contains(in_order(a)[i]));
}

/// The last item of a sequence stands somewhere in each sequence of the same items.
proof fn lemma_find_last<A>(a: Seq<A>, b: Seq<A>) -> (j: int)
    requires
        a.len() > 0,
        a.to_multiset() == b.to_multiset(),
    ensures
        0 <= j < b.len(),
        b[j] == a.last(),
        a.drop_last().to_multiset() == b.remove(j).to_multiset(),
{
    a.to_multiset_ensures();
    b.to_multiset_ensures();
    assert(a.contains(a[a.len() - 1]));
    assert(a.to_multiset().count(a.last()) > 0);
    assert(b.contains(a.last()));
    let j = choose|j: int| 0 <= j < b.len() && b[j] == a.last();
    assert(a.remove(a.len() - 1) =~= a.drop_last());
    j
}

/// The same items, each taken to another, give the same items.
pub proof fn lemma_map_same_items<A, B>(a: Seq<A>, b: Seq<A>, f: spec_fn(A) -> B)
    requires
        a.to_multiset() == b.to_multiset(),
    ensures
        a.map_values(f).to_multiset() == b.map_values(f).to_multiset(),
    decreases a.len(),
{
    a.to_multiset_ensures();
    b.to_multiset_ensures();
    assert(a.len() == b.len());
    let fa = a.map_values(f);
    let fb = b.map_values(f);
    if a.len() == 0 {
        assert(a =~= b);
    } else {
        let j = lemma_find_last(a, b);
        lemma_map_same_items(a.drop_last(), b.remove(j), f);
        assert(fa.drop_last() =~= a.drop_last().map_values(f));
        assert(fb.remove(j) =~= b.remove(j).map_values(f));
        lemma_insert_to_multiset(fa.drop_last(), fa.len() - 1, fa.last());
        lemma_insert_to_multiset(fb.remove(j), j, fb[j]);
        assert(fa.drop_last().insert(fa.len() - 1, fa.last()) =~= fa);
        assert(fb.remove(j).insert(j, fb[j]) =~= fb);
    }
}

/// Items taken to the same items by a function that tells them apart are the same.
pub proof fn lemma_same_items_of_map<A, B>(a: Seq<A>, b: Seq<A>, f: spec_fn(A) -> B)
    requires
        a.map_values(f).to_multiset() == b.map_values(f).to_multiset(),
        forall|i: int, j: int|
            0 <= i < a.len() && 0 <= j < b.len() && f(#[trigger] a[i]) == f(#[trigger] b[j])
                ==> a[i] == b[j],
    ensures
        a.to_multiset() == b.to_multiset(),
    decreases a.len(),
{
    let fa = a.map_values(f);
    let fb = b.map_values(f);
    fa.to_multiset_ensures();
    fb.to_multiset_ensures();
    assert(fa.len() == fb.len());
    if a.len() == 0 {
        assert(a =~= b);
    } else {
        let j = lemma_find_last(fa, fb);
        assert(a[a.len() - 1] == b[j]);
        assert(fa.drop_last() =~= a.drop_last().map_values(f));
        assert(fb.remove(j) =~= b.remove(j).map_values(f));
        lemma_same_items_of_map(a.drop_last(), b.remove(j), f);
        lemma_insert_to_multiset(a.drop_last(), a.len() - 1, a.last());
        lemma_insert_to_multiset(b.remove(j), j, b[j]);
        assert(a.drop_last().insert(a.len() - 1, a.last()) =~= a);
        assert(b.remove(j).insert(j, b[j]) =~= b);
    }
}

/// Whether the text `a` is at most the text `b`.
pub fn text_at_most(a: &str, b: &str) -> (r: bool)
    ensures
        r == text_le(a@, b@),
{
    let x = a.as_bytes();
    let y = b.as_bytes();
    let mut i: usize = 0;
    assert(x@.skip(0) =~= x@);
    assert(y@.skip(0) =~= y@);
    while i < x.len()
        invariant
            i <= x@.len(),
            i <= y@.len(),
            x@ == encode_utf8(a@),
            y@ == encode_utf8(b@),
            bytes_le(x@, y@) == bytes_le(x@.skip(i as int), y@.skip(i as int)),
        decreases x@.len() - i,
    {
        if i == y.len() {
            return false;
        }
        if x[i] < y[i] {
            return true;
        }
        if x[i] > y[i] {
            return false;
        }
        assert(x@.skip(i as int).skip(1) =~= x@.skip(i + 1));
        assert(y@.skip(i as int).skip(1) =~= y@.skip(i + 1));
        i = i + 1;
    }
    true
}

/// The texts of a list of strings.
pub open spec fn texts(strings: Seq<String>) -> Seq<Seq<char>> {
    strings.map_values(|s: String| s@)
}

/// Where `item` goes into an ascending list: after all that are at most it.
fn insertion_point(sorted: &Vec<String>, item: &str) -> (r: usize)
    requires
        sorted_by(texts(sorted@), text_order()),
    ensures
        r <= sorted@.len(),
        forall|j: int| 0 <= j < r ==> text_le(#[trigger] sorted@[j]@, item@),
        forall|j: int| r <= j < sorted@.len() ==> text_le(item@, #[trigger] sorted@[j]@),
{
    proof {
        lemma_text_order_is_total();
    }
    let ghost order = text_order();
    let mut low: usize = 0;
    let mut high: usize = sorted.len();
    while low < high
        invariant
            low <= high <= sorted@.len(),
            order == text_order(),
            total_ordering(order),
            sorted_by(texts(sorted@), order),
            forall|j: int| 0 <= j < low ==> text_le(#[trigger] sorted@[j]@, item@),
            forall|j: int| high <= j < sorted@.len() ==> text_le(item@, #[trigger] sorted@[j]@),
        decreases high - low,
    {
        let mid: usize = low + (high - low) / 2;
        let ghost views = texts(sorted@);
        if text_at_most(sorted[mid].as_str(), item) {
            assert forall|j: int| 0 <= j <= mid implies text_le(#[trigger] sorted@[j]@, item@) by {
                if j < mid {
                    assert(order(views[j], views[mid as int]));
                    assert(order(views[mid as int], item@));
                    assert(order(views[j], item@));
                }
            }
            low = mid + 1;
        } else {
            assert forall|j: int| mid <= j < sorted@.len() implies text_le(
                item@,
                #[trigger] sorted@[j]@,
            ) by {
                assert(order(item@, views[mid as int]) || order(views[mid as int], item@));
                if j > mid {
                    assert(order(views[mid as int], views[j]));
                    assert(order(item@, views[mid as int]));
                    assert(order(item@, views[j]));
                }
            }
            high = mid;
        }
    }
    low
}

/// Inserting an item anywhere adds it once.
proof fn lemma_insert_to_multiset<A>(s: Seq<A>, i: int, a: A)
    requires
        0 <= i <= s.len(),
    ensures
        s.insert(i, a).to_multiset() == s.to_multiset().insert(a),
{
    let t = s.insert(i, a);
    t.to_multiset_ensures();
    assert(t[i] == a);
    assert(t.remove(i) =~= s);
    assert(t.contains(a));
    assert(t.to_multiset() =~= s.to_multiset().insert(a));
}

/// Sorts the strings in ascending order.
pub fn sort_texts(strings: &Vec<String>) -> (r: Vec<String>)
    ensures
        texts(r@) == in_order(texts(strings@)),
{
    let ghost order = text_order();
    let mut out: Vec<String> = Vec::new();
    let mut i: usize = 0;
    proof {
        assert(texts(out@) =~= texts(strings@.take(0)));
    }
    while i < strings.len()
        invariant
            i <= strings@.len(),
            order == text_order(),
            sorted_by(texts(out@), order),
            texts(out@).to_multiset() == texts(strings@.take(i as int)).to_multiset(),
        decreases strings@.len() - i,
    {
        let at = insertion_point(&out, strings[i].as_str());
        let ghost before = texts(out@);
        let item = strings[i].clone();
        out.insert(at, item);
        proof {
            let after = texts(out@);
            assert(after =~= before.insert(at as int, item@));
            lemma_insert_to_multiset(before, at as int, item@);
            assert(texts(strings@.take(i + 1)) =~= texts(strings@.take(i as int)).push(item@));
            texts(strings@.take(i as int)).to_multiset_ensures();
            assert forall|a: int, b: int| 0 <= a < b < after.len() implies #[trigger] order(
                after[a],
                after[b],
            ) by {
                if b < at {
                    assert(order(before[a], before[b]));
                } else if a > at {
                    assert(order(before[a - 1], before[b - 1]));
                } else if a < at && b > at {
                    assert(order(before[a], before[b - 1]));
                }
            }
        }
        i = i + 1;
    }
    proof {
        assert(strings@.take(i as int) =~= strings@);
        lemma_text_order_is_total();
        texts(strings@).lemma_sort_by_ensures(order);
        lemma_sorted_unique(texts(out@), in_order(texts(strings@)), order);
    }
    out
}

}
