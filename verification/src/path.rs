//! Slash-delimited paths over the archive namespace.
//!
//! A path addresses a node relative to a root: segments separated by `/`,
//! matched against children by exact name, with no case folding and no
//! backtracking. The empty path denotes the root itself.

use vstd::prelude::*;

verus! {

/// The path delimiter.
pub open spec fn delim() -> char {
    '/'
}

/// Splits a non-empty character sequence into its `/`-separated segments.
/// Every sequence yields at least one segment; delimiters at the ends or
/// doubled delimiters yield empty segments, which no child can match unless
/// it carries an empty name.
pub open spec fn split_segments(p: Seq<char>) -> Seq<Seq<char>>
    decreases p.len(),
{
    if p.len() == 0 {
        seq![Seq::empty()]
    } else if p[0] == delim() {
        seq![Seq::<char>::empty()] + split_segments(p.skip(1))
    } else {
        let r = split_segments(p.skip(1));
        r.update(0, seq![p[0]] + r[0])
    }
}

/// The segments a path string denotes: none for the empty path (the root),
/// its `/`-separated pieces otherwise.
pub open spec fn spec_split(p: Seq<char>) -> Seq<Seq<char>> {
    if p.len() == 0 {
        Seq::empty()
    } else {
        split_segments(p)
    }
}

/// Splitting never yields an empty segment list.
pub proof fn lemma_split_nonempty(p: Seq<char>)
    ensures
        split_segments(p).len() >= 1,
    decreases p.len(),
{
    if p.len() != 0 && p[0] != delim() {
        lemma_split_nonempty(p.skip(1));
    }
}

/// A sequence without the delimiter is a single segment.
pub proof fn lemma_split_no_delim(p: Seq<char>)
    requires
        forall|k: int| 0 <= k < p.len() ==> p[k] != delim(),
    ensures
        split_segments(p) == seq![p],
    decreases p.len(),
{
    if p.len() == 0 {
        assert(split_segments(p) =~~= seq![p]);
    } else {
        lemma_split_no_delim(p.skip(1));
        lemma_split_nonempty(p.skip(1));
        assert(seq![p[0]] + p.skip(1) =~= p);
        assert(split_segments(p) =~~= seq![p]);
    }
}

/// Splitting at the first delimiter: the piece before it is the first
/// segment, and the rest splits on its own.
pub proof fn lemma_split_at_delim(p: Seq<char>, i: int)
    requires
        0 <= i < p.len(),
        p[i] == delim(),
        forall|k: int| 0 <= k < i ==> p[k] != delim(),
    ensures
        split_segments(p) == seq![p.take(i)] + split_segments(p.skip(i + 1)),
    decreases i,
{
    if i == 0 {
        assert(p.take(0) =~= Seq::<char>::empty());
        assert(split_segments(p) =~~= seq![p.take(0)] + split_segments(p.skip(1)));
    } else {
        let q = p.skip(1);
        assert(q[i - 1] == delim());
        assert(forall|k: int| 0 <= k < i - 1 ==> q[k] != delim());
        lemma_split_at_delim(q, i - 1);
        lemma_split_nonempty(q.skip(i));
        assert(q.take(i - 1) =~= p.subrange(1, i));
        assert(q.skip(i) =~= p.skip(i + 1));
        assert(seq![p[0]] + p.subrange(1, i) =~= p.take(i));
        assert(split_segments(p) =~~= seq![p.take(i)] + split_segments(p.skip(i + 1)));
    }
}

/// Splits a path string into its segments: none for the empty path, its
/// `/`-separated pieces otherwise.
pub fn split_path(path: &str) -> (segs: Vec<String>)
    ensures
        segs.deep_view() == spec_split(path@),
{
    let n = path.unicode_len();
    let mut segs: Vec<String> = Vec::new();
    if n == 0 {
        proof {
            assert(segs.deep_view() =~~= spec_split(path@));
        }
        return segs;
    }
    let ghost p = path@;
    let mut start: usize = 0;
    let mut i: usize = 0;
    proof {
        assert(p.skip(0) =~= p);
        assert(segs.deep_view() + split_segments(p) =~~= split_segments(p));
    }
    while i < n
        invariant
            path@ == p,
            n == p.len(),
            0 < n,
            0 <= start <= i <= n,
            forall|k: int| start <= k < i ==> p[k] != delim(),
            split_segments(p) == segs.deep_view() + split_segments(p.skip(start as int)),
        decreases n - i,
    {
        let c = path.get_char(i);
        if c == '/' {
            let piece = path.substring_char(start, i);
            let seg = piece.to_owned();
            proof {
                let q = p.skip(start as int);
                assert(forall|k: int| 0 <= k < i - start ==> q[k] != delim());
                lemma_split_at_delim(q, i - start);
                assert(q.take(i - start) =~= p.subrange(start as int, i as int));
                assert(q.skip(i - start + 1) =~= p.skip(i as int + 1));
            }
            let ghost old_segs = segs.deep_view();
            segs.push(seg);
            proof {
                assert(segs.deep_view() =~~= old_segs + seq![seg@]);
                assert(segs.deep_view() + split_segments(p.skip(i as int + 1)) =~~=
                    old_segs + (seq![p.subrange(start as int, i as int)] + split_segments(
                    p.skip(i as int + 1),
                )));
            }
            start = i + 1;
        }
        i += 1;
    }
    let piece = path.substring_char(start, n);
    let seg = piece.to_owned();
    proof {
        let q = p.skip(start as int);
        assert(forall|k: int| 0 <= k < q.len() ==> q[k] != delim());
        lemma_split_no_delim(q);
        assert(q =~= p.subrange(start as int, n as int));
    }
    let ghost old_segs = segs.deep_view();
    segs.push(seg);
    proof {
        assert(segs.deep_view() =~~= old_segs + seq![seg@]);
        assert(segs.deep_view() =~~= spec_split(p));
    }
    segs
}

} // verus!
