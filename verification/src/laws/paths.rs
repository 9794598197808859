//! Laws of paths: what a caller names is what the server is asked for.

use vstd::prelude::*;

use crate::laws::texts::law_trimmed_end_keeps_the_rest;
use crate::laws::texts::law_trimmed_start_keeps_the_rest;
use crate::sftp::climbs;
use crate::sftp::resolved;
use crate::text::blank;
use crate::text::lemma_segments_concat;
use crate::text::lemma_segments_plain;
use crate::text::segments;
use crate::text::trimmed_end;
use crate::text::trimmed_start;

verus! {

/// The path that is asked for is the root, one slash, and exactly the caller's
/// characters.
pub proof fn law_path_is_root_slash_caller(root: Seq<char>, caller: Seq<char>)
    requires
        !blank(root),
        root.last() != '/',
        caller.len() > 0,
        caller[0] != '/',
    ensures
        resolved(root, caller) == root + seq!['/'] + caller,
{
    reveal_strlit("/");
    assert("/"@ =~= seq!['/']);
    lemma_nothing_trimmed(root, caller);
}

/// Without a root, the path that is asked for is exactly what the caller names.
pub proof fn law_path_without_root_is_caller(root: Seq<char>, caller: Seq<char>)
    requires
        blank(root),
        caller.len() > 0,
        caller[0] != '/',
    ensures
        resolved(root, caller) == caller,
{
    lemma_nothing_trimmed(root, caller);
}

/// Different paths of a caller lead to different places.
pub proof fn law_different_paths_stay_different(
    root: Seq<char>,
    one: Seq<char>,
    other: Seq<char>,
)
    requires
        one != other,
        one.len() == 0 || one[0] != '/',
        other.len() == 0 || other[0] != '/',
        !(blank(root) && (one == seq!['.'] || other == seq!['.'])),
    ensures
        resolved(root, one) != resolved(root, other),
{
    reveal_strlit(".");
    reveal_strlit("/");
    law_trimmed_start_keeps_the_rest(one, '/');
    law_trimmed_start_keeps_the_rest(other, '/');
    lemma_start_untouched(one);
    lemma_start_untouched(other);
    assert("."@ =~= seq!['.']);
    let base = trimmed_end(root, '/');
    let p = resolved(root, one);
    let q = resolved(root, other);
    if blank(root) {
        if one.len() == 0 {
            assert(p == "."@ && q == other);
        } else if other.len() == 0 {
            assert(q == "."@ && p == one);
        }
    } else if one.len() > 0 && other.len() > 0 {
        assert(p.skip(base.len() as int + 1) =~= one);
        assert(q.skip(base.len() as int + 1) =~= other);
    } else if one.len() > 0 {
        assert(p.len() > q.len());
    } else {
        assert(other.len() > 0) by {
            if other.len() == 0 {
                assert(one =~= other);
            }
        }
        assert(q.len() > p.len());
    }
}

/// The empty path names the root itself: as it is written, but for the slashes at its
/// end; the root of the server is one slash, and no root at all is where the login is.
pub proof fn law_empty_path_is_the_root(root: Seq<char>)
    ensures
        blank(root) ==> resolved(root, Seq::empty()) == seq!['.'],
        !blank(root) && root.last() != '/' ==> resolved(root, Seq::empty()) == root,
        !blank(root) && (forall|i: int| 0 <= i < root.len() ==> #[trigger] root[i] == '/')
            ==> resolved(root, Seq::empty()) == seq!['/'],
{
    reveal_strlit(".");
    reveal_strlit("/");
    assert("."@ =~= seq!['.']);
    assert("/"@ =~= seq!['/']);
    law_trimmed_end_keeps_the_rest(root, '/');
    let base = trimmed_end(root, '/');
    if !blank(root) && root.last() != '/' {
        assert(base.len() == root.len()) by {
            if base.len() < root.len() {
                assert(root[root.len() - 1] == '/');
            }
        }
        assert(base =~= root);
    }
    if forall|i: int| 0 <= i < root.len() ==> #[trigger] root[i] == '/' {
        if base.len() > 0 {
            assert(base.last() == root[base.len() - 1]);
        }
    }
}

/// Only the segment `..` itself is refused: a path climbs exactly where two dots stand
/// in it with nothing or a slash on either side.
pub proof fn law_only_parent_segments_climb(path: Seq<char>)
    ensures
        climbs(path) <==> exists|a: Seq<char>, b: Seq<char>|
            path == #[trigger] (a + ".."@ + b) && (a.len() == 0 || a.last() == '/') && (
            b.len() == 0 || b[0] == '/'),
{
    reveal_strlit("..");
    let dots = ".."@;
    assert(dots =~= seq!['.', '.']);
    let parts = segments(path, '/');
    if climbs(path) {
        let k = choose|k: int| 0 <= k < parts.len() && parts[k] == dots;
        let (a, b) = lemma_segment_in_place(path, '/', k);
        assert(path == a + dots + b);
    }
    if exists|a: Seq<char>, b: Seq<char>|
        path == #[trigger] (a + dots + b) && (a.len() == 0 || a.last() == '/') && (b.len() == 0
            || b[0] == '/') {
        let (a, b) = choose|a: Seq<char>, b: Seq<char>|
            path == #[trigger] (a + dots + b) && (a.len() == 0 || a.last() == '/') && (b.len()
                == 0 || b[0] == '/');
        lemma_segments_plain(dots, '/');
        let tail = dots + b;
        if b.len() > 0 {
            let rest = b.skip(1);
            assert(tail =~= dots + seq!['/'] + rest);
            lemma_segments_concat(dots, rest, '/');
        } else {
            assert(tail =~= dots);
        }
        assert(segments(tail, '/')[0] == dots);
        if a.len() > 0 {
            let before = a.drop_last();
            assert(path =~= before + seq!['/'] + tail);
            lemma_segments_concat(before, tail, '/');
            let n = segments(before, '/').len() as int;
            assert(parts[n] == segments(tail, '/')[0]);
        } else {
            assert(path =~= tail);
        }
    }
}

/// A segment stands in its text between separators or the ends.
proof fn lemma_segment_in_place(s: Seq<char>, sep: char, k: int) -> (r: (Seq<char>, Seq<char>))
    requires
        0 <= k < segments(s, sep).len(),
    ensures
        s == r.0 + segments(s, sep)[k] + r.1,
        r.0.len() == 0 || r.0.last() == sep,
        r.1.len() == 0 || r.1[0] == sep,
        r.1.len() == 0 <==> k == segments(s, sep).len() - 1,
    decreases s.len(),
{
    let all = segments(s, sep);
    if s.len() == 0 {
        let nothing = Seq::<char>::empty();
        assert(s =~= nothing + all[k] + nothing);
        (nothing, nothing)
    } else {
        let init = segments(s.drop_last(), sep);
        crate::text::lemma_joined_segments(s.drop_last(), sep);
        let c = s.last();
        assert(s =~= s.drop_last().push(c));
        if c == sep && k == init.len() {
            let nothing = Seq::<char>::empty();
            assert(s =~= s + all[k] + nothing);
            (s, nothing)
        } else {
            let (a, b) = lemma_segment_in_place(s.drop_last(), sep, k);
            if c == sep {
                assert(s =~= a + all[k] + b.push(c));
                (a, b.push(c))
            } else if k == init.len() - 1 {
                assert(s =~= a + all[k] + b);
                (a, b)
            } else {
                assert(s =~= a + all[k] + b.push(c));
                (a, b.push(c))
            }
        }
    }
}

proof fn lemma_start_untouched(caller: Seq<char>)
    requires
        caller.len() == 0 || caller[0] != '/',
    ensures
        trimmed_start(caller, '/') == caller,
{
    law_trimmed_start_keeps_the_rest(caller, '/');
    let rest = trimmed_start(caller, '/');
    let cut = caller.len() - rest.len();
    if cut > 0 {
        assert(caller[0] == '/');
    }
    assert(caller.skip(0) =~= caller);
}

proof fn lemma_nothing_trimmed(root: Seq<char>, caller: Seq<char>)
    requires
        caller.len() > 0 && caller[0] != '/',
    ensures
        trimmed_start(caller, '/') == caller,
        root.len() > 0 && root.last() != '/' ==> trimmed_end(root, '/') == root,
{
    lemma_start_untouched(caller);
    law_trimmed_end_keeps_the_rest(root, '/');
    let base = trimmed_end(root, '/');
    if root.len() > 0 && root.last() != '/' {
        if base.len() < root.len() {
            assert(root[root.len() - 1] == '/');
        }
        assert(base =~= root);
    }
}

}
