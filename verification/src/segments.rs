//! Splitting a URL path into its segments.

use vstd::prelude::*;
use vstd::string::StrSliceExecFns;

use crate::text::chars_of;

verus! {

/// The character sequences of a sequence of string segments.
pub open spec fn seg_views(segs: Seq<&str>) -> Seq<Seq<char>> {
    segs.map_values(|s: &str| s@)
}

/// The segments of a path: its maximal non-empty runs of characters other
/// than `/`, in order. Leading, trailing and repeated slashes yield no segment.
pub open spec fn path_segments(s: Seq<char>) -> Seq<Seq<char>>
    decreases s.len(),
{
    if s.len() == 0 {
        seq![]
    } else {
        let init = path_segments(s.drop_last());
        if s.last() == '/' {
            init
        } else if s.len() == 1 || s[s.len() - 2] == '/' {
            init.push(seq![s.last()])
        } else {
            init.update(init.len() - 1, init.last().push(s.last()))
        }
    }
}

/// The segment still being read: characters `start..i` of `s`, if any.
spec fn open_segment(s: Seq<char>, start: int, i: int) -> Seq<Seq<char>> {
    if start < i {
        seq![s.subrange(start, i)]
    } else {
        seq![]
    }
}

/// Splits `s` at `/` and drops the empty pieces.
pub fn split_segments(s: &str) -> (segs: Vec<&str>)
    ensures
        seg_views(segs@) == path_segments(s@),
{
    let chars = chars_of(s);
    let n = chars.len();
    let mut segs: Vec<&str> = Vec::new();
    let mut start: usize = 0;
    let mut i: usize = 0;
    assert(s@.take(0) =~= Seq::<char>::empty());
    assert(seg_views(segs@) =~= Seq::<Seq<char>>::empty());
    while i < n
        invariant
            chars@ == s@,
            n == s@.len(),
            start <= i <= n,
            forall|k: int| start <= k < i ==> s@[k] != '/',
            start > 0 ==> s@[start - 1] == '/',
            seg_views(segs@) + open_segment(s@, start as int, i as int) == path_segments(
                s@.take(i as int),
            ),
        decreases n - i,
    {
        let ghost before = seg_views(segs@);
        let ghost t = s@.take(i + 1);
        assert(t.drop_last() =~= s@.take(i as int));
        assert(t.last() == s@[i as int]);
        if chars[i] == '/' {
            if start < i {
                let seg = s.substring_char(start, i);
                segs.push(seg);
                assert(seg_views(segs@) =~= before.push(seg@));
                assert(before + open_segment(s@, start as int, i as int) =~= before.push(seg@));
            } else {
                assert(before + open_segment(s@, start as int, i as int) =~= before);
            }
            start = i + 1;
            assert(seg_views(segs@) + open_segment(s@, start as int, (i + 1) as int)
                =~= seg_views(segs@));
        } else {
            if start < i {
                assert(t[i - 1] == s@[i - 1]);
                let ghost init = path_segments(s@.take(i as int));
                assert(init =~= before.push(s@.subrange(start as int, i as int)));
                assert(s@.subrange(start as int, i as int).push(s@[i as int]) =~= s@.subrange(
                    start as int,
                    (i + 1) as int,
                ));
                assert(init.update(init.len() - 1, init.last().push(s@[i as int])) =~= before
                    + open_segment(s@, start as int, (i + 1) as int));
            } else {
                assert(before + open_segment(s@, start as int, i as int) =~= before);
                assert(seq![s@[i as int]] =~= s@.subrange(i as int, (i + 1) as int));
                assert(before.push(seq![s@[i as int]]) =~= before + open_segment(
                    s@,
                    start as int,
                    (i + 1) as int,
                ));
            }
        }
        i += 1;
    }
    assert(s@.take(n as int) =~= s@);
    let ghost before = seg_views(segs@);
    if start < n {
        let seg = s.substring_char(start, n);
        segs.push(seg);
        assert(seg_views(segs@) =~= before.push(seg@));
        assert(before + open_segment(s@, start as int, n as int) =~= before.push(seg@));
    } else {
        assert(before + open_segment(s@, start as int, n as int) =~= before);
    }
    segs
}

} // verus!

verus! {

/// A trailing `/` adds no segment.
pub proof fn law_trailing_slash_ignored(s: Seq<char>)
    ensures
        path_segments(s.push('/')) == path_segments(s),
{
    assert(s.push('/').drop_last() =~= s);
}

/// A leading `/` adds no segment.
pub proof fn law_leading_slash_ignored(s: Seq<char>)
    ensures
        path_segments(seq!['/'] + s) == path_segments(s),
    decreases s.len(),
{
    let t = seq!['/'] + s;
    if s.len() > 0 {
        law_leading_slash_ignored(s.drop_last());
        assert(t.drop_last() =~= seq!['/'] + s.drop_last());
        assert(t.last() == s.last());
        assert(t.len() == s.len() + 1);
        if s.len() >= 2 {
            assert(t[t.len() - 2] == s[s.len() - 2]);
        } else {
            assert(t[t.len() - 2] == '/');
        }
        assert(path_segments(t.drop_last()) == path_segments(s.drop_last()));
    } else {
        assert(t.drop_last() =~= Seq::<char>::empty());
        assert(t.last() == '/');
        assert(path_segments(t.drop_last()) =~= Seq::<Seq<char>>::empty());
    }
}

/// A run of two slashes separates segments exactly as one slash does.
pub proof fn law_repeated_slash_collapses(a: Seq<char>, b: Seq<char>)
    ensures
        path_segments(a + seq!['/'] + b) == path_segments(a + seq!['/', '/'] + b),
    decreases b.len(),
{
    let l = a + seq!['/'] + b;
    let r = a + seq!['/', '/'] + b;
    if b.len() == 0 {
        assert(l.drop_last() =~= a);
        assert(r.drop_last() =~= a + seq!['/']);
        assert((a + seq!['/']).drop_last() =~= a);
        assert(l.last() == '/');
        assert(r.last() == '/');
        assert((a + seq!['/']).last() == '/');
    } else {
        law_repeated_slash_collapses(a, b.drop_last());
        assert(l.drop_last() =~= a + seq!['/'] + b.drop_last());
        assert(r.drop_last() =~= a + seq!['/', '/'] + b.drop_last());
        assert(l.last() == b.last());
        assert(r.last() == b.last());
        if b.len() == 1 {
            assert(l[l.len() - 2] == '/');
            assert(r[r.len() - 2] == '/');
        } else {
            assert(l[l.len() - 2] == b[b.len() - 2]);
            assert(r[r.len() - 2] == b[b.len() - 2]);
        }
    }
}

} // verus!

verus! {

/// The empty path has no segments.
pub proof fn law_empty_path_has_no_segments()
    ensures
        path_segments(Seq::<char>::empty()) == Seq::<Seq<char>>::empty(),
{
}

/// A path that ends in a character other than `/` has at least one segment.
pub proof fn lemma_segments_nonempty(s: Seq<char>)
    requires
        s.len() > 0,
        s.last() != '/',
    ensures
        path_segments(s).len() > 0,
    decreases s.len(),
{
    if !(s.len() == 1 || s[s.len() - 2] == '/') {
        let t = s.drop_last();
        assert(t.last() == s[s.len() - 2]);
        lemma_segments_nonempty(t);
    }
}

/// A non-empty text without `/` is a single segment, itself: only `/`
/// separates segments.
pub proof fn law_slash_free_text_is_one_segment(s: Seq<char>)
    requires
        s.len() > 0,
        !s.contains('/'),
    ensures
        path_segments(s) == seq![s],
    decreases s.len(),
{
    assert(s.last() == s[s.len() - 1]);
    assert(s[s.len() - 1] != '/') by {
        if s[s.len() - 1] == '/' {
            assert(s.contains('/'));
        }
    }
    if s.len() == 1 {
        assert(s.drop_last() =~= Seq::<char>::empty());
        assert(path_segments(s.drop_last()) =~= Seq::<Seq<char>>::empty());
        assert(seq![s.last()] =~= s);
        assert(Seq::<Seq<char>>::empty().push(seq![s.last()]) =~= seq![s]);
    } else {
        let t = s.drop_last();
        assert forall|k: int| 0 <= k < t.len() implies t[k] != '/' by {
            assert(t[k] == s[k]);
            if s[k] == '/' {
                assert(s.contains('/'));
            }
        }
        assert(!t.contains('/'));
        law_slash_free_text_is_one_segment(t);
        assert(s[s.len() - 2] == t[t.len() - 1]);
        assert(s[s.len() - 2] != '/');
        assert(t.push(s.last()) =~= s);
        assert(seq![t].update(0, t.push(s.last())) =~= seq![s]);
    }
}

/// A `/` splits a path into the segments before it followed by the
/// segments after it.
pub proof fn law_slash_splits_segments(a: Seq<char>, b: Seq<char>)
    ensures
        path_segments(a + seq!['/'] + b) == path_segments(a) + path_segments(b),
    decreases b.len(),
{
    let t = a + seq!['/'] + b;
    if b.len() == 0 {
        assert(t.drop_last() =~= a);
        assert(t.last() == '/');
        assert(path_segments(a) + path_segments(b) =~= path_segments(a));
    } else {
        let bi = b.drop_last();
        law_slash_splits_segments(a, bi);
        assert(t.drop_last() =~= a + seq!['/'] + bi);
        assert(t.last() == b.last());
        let sa = path_segments(a);
        let sb = path_segments(bi);
        let c = b.last();
        if c == '/' {
        } else if b.len() == 1 || b[b.len() - 2] == '/' {
            if b.len() == 1 {
                assert(t[t.len() - 2] == '/');
            } else {
                assert(t[t.len() - 2] == b[b.len() - 2]);
            }
            assert((sa + sb).push(seq![c]) =~= sa + sb.push(seq![c]));
        } else {
            assert(t[t.len() - 2] == b[b.len() - 2]);
            assert(bi.last() == b[b.len() - 2]);
            lemma_segments_nonempty(bi);
            let init = sa + sb;
            assert(init.last() == sb.last());
            assert(init.update(init.len() - 1, init.last().push(c)) =~= sa + sb.update(
                sb.len() - 1,
                sb.last().push(c),
            ));
        }
    }
}

} // verus!
