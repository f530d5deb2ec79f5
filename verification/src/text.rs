//! Text preparation for synthesis: whitespace trimming and splitting a
//! request's text into sentence segments.
//!
//! A text is split on the sentence-terminator character `'.'`; each piece is
//! trimmed and empty pieces are dropped, so an all-whitespace text yields no
//! segments at all.

use vstd::prelude::*;
use vstd::string::StrSliceExecFns;

verus! {

/// Whitespace characters recognized when trimming.
pub open spec fn is_space(c: char) -> bool {
    c == ' ' || c == '\t' || c == '\n' || c == '\r' || c == '\u{0b}' || c == '\u{0c}'
}

/// Whitespace test, executably.
pub fn is_space_char(c: char) -> (b: bool)
    ensures
        b == is_space(c),
{
    c == ' ' || c == '\t' || c == '\n' || c == '\r' || c == '\u{0b}' || c == '\u{0c}'
}

/// The sequence with its leading whitespace removed.
pub open spec fn trim_front(s: Seq<char>) -> Seq<char>
    decreases s.len(),
{
    if s.len() > 0 && is_space(s[0]) {
        trim_front(s.skip(1))
    } else {
        s
    }
}

/// The sequence with its trailing whitespace removed.
pub open spec fn trim_back(s: Seq<char>) -> Seq<char>
    decreases s.len(),
{
    if s.len() > 0 && is_space(s.last()) {
        trim_back(s.drop_last())
    } else {
        s
    }
}

/// The sequence with whitespace removed from both ends.
pub open spec fn trimmed(s: Seq<char>) -> Seq<char> {
    trim_back(trim_front(s))
}

/// Remove leading and trailing whitespace from a string.
pub fn trim_str(s: &str) -> (t: String)
    ensures
        t@ == trimmed(s@),
{
    let n = s.unicode_len();
    let mut i: usize = 0;
    proof {
        assert(s@.skip(0) =~= s@);
    }
    while i < n && is_space_char(s.get_char(i))
        invariant
            i <= n,
            n == s@.len(),
            trim_front(s@) == trim_front(s@.skip(i as int)),
        decreases n - i,
    {
        proof {
            assert(s@.skip(i as int).skip(1) =~= s@.skip(i as int + 1));
        }
        i = i + 1;
    }
    proof {
        assert(trim_front(s@.skip(i as int)) == s@.skip(i as int));
    }
    let mut j: usize = n;
    while j > i && is_space_char(s.get_char(j - 1))
        invariant
            i <= j <= n,
            n == s@.len(),
            trim_front(s@) == s@.skip(i as int),
            trim_back(s@.skip(i as int)) == trim_back(s@.subrange(i as int, j as int)),
        decreases j,
    {
        proof {
            assert(s@.subrange(i as int, j as int).drop_last() =~= s@.subrange(
                i as int,
                j as int - 1,
            ));
        }
        j = j - 1;
    }
    proof {
        assert(trim_back(s@.subrange(i as int, j as int)) == s@.subrange(i as int, j as int));
    }
    let piece = s.substring_char(i, j);
    piece.to_owned()
}

/// The sentence segments of a text, accumulated from a piece already read:
/// pieces are cut at each `'.'`, trimmed, and kept only when non-empty.
pub open spec fn split_segments(s: Seq<char>, cur: Seq<char>) -> Seq<Seq<char>>
    decreases s.len(),
{
    if s.len() == 0 {
        if trimmed(cur).len() > 0 {
            seq![trimmed(cur)]
        } else {
            Seq::<Seq<char>>::empty()
        }
    } else if s[0] == '.' {
        let rest = split_segments(s.skip(1), Seq::<char>::empty());
        if trimmed(cur).len() > 0 {
            seq![trimmed(cur)] + rest
        } else {
            rest
        }
    } else {
        split_segments(s.skip(1), cur.push(s[0]))
    }
}

/// The sentence segments of a text: split on `'.'`, trimmed, empties dropped.
pub open spec fn segments_of(s: Seq<char>) -> Seq<Seq<char>> {
    split_segments(s, Seq::<char>::empty())
}

proof fn lemma_trim_front_no_leading(s: Seq<char>)
    ensures
        trim_front(s).len() > 0 ==> !is_space(trim_front(s)[0]),
    decreases s.len(),
{
    if s.len() > 0 && is_space(s[0]) {
        lemma_trim_front_no_leading(s.skip(1));
    }
}

proof fn lemma_trim_back_no_trailing(s: Seq<char>)
    ensures
        trim_back(s).len() > 0 ==> !is_space(trim_back(s).last()),
    decreases s.len(),
{
    if s.len() > 0 && is_space(s.last()) {
        lemma_trim_back_no_trailing(s.drop_last());
    }
}

proof fn lemma_trim_back_is_prefix(s: Seq<char>)
    ensures
        trim_back(s).len() <= s.len(),
        forall|i: int| 0 <= i < trim_back(s).len() ==> #[trigger] trim_back(s)[i] == s[i],
    decreases s.len(),
{
    if s.len() > 0 && is_space(s.last()) {
        lemma_trim_back_is_prefix(s.drop_last());
        assert forall|i: int| 0 <= i < trim_back(s).len() implies #[trigger] trim_back(s)[i]
            == s[i] by {
            assert(trim_back(s)[i] == trim_back(s.drop_last())[i]);
            assert(s.drop_last()[i] == s[i]);
        }
    }
}

/// Trimming is idempotent: a trimmed sequence trims to itself.
pub proof fn lemma_trimmed_idempotent(s: Seq<char>)
    ensures
        trimmed(trimmed(s)) == trimmed(s),
{
    let y = trim_front(s);
    let z = trim_back(y);
    lemma_trim_front_no_leading(s);
    lemma_trim_back_no_trailing(y);
    lemma_trim_back_is_prefix(y);
    if z.len() > 0 {
        assert(z[0] == y[0]);
        assert(!is_space(z[0]));
        assert(trim_front(z) == z);
        assert(trim_back(z) == z);
    } else {
        assert(trim_front(z) == z);
        assert(trim_back(z) == z);
    }
}

proof fn lemma_split_segments_wf(s: Seq<char>, cur: Seq<char>)
    ensures
        forall|i: int|
            0 <= i < split_segments(s, cur).len() ==> (#[trigger] split_segments(s, cur)[i]).len()
                > 0 && trimmed(split_segments(s, cur)[i]) == split_segments(s, cur)[i],
    decreases s.len(),
{
    lemma_trimmed_idempotent(cur);
    let segs = split_segments(s, cur);
    if s.len() == 0 {
        assert forall|i: int| 0 <= i < segs.len() implies (#[trigger] segs[i]).len() > 0
            && trimmed(segs[i]) == segs[i] by {
            assert(segs[i] == trimmed(cur));
        }
    } else if s[0] == '.' {
        lemma_split_segments_wf(s.skip(1), Seq::<char>::empty());
        let rest = split_segments(s.skip(1), Seq::<char>::empty());
        assert forall|i: int| 0 <= i < segs.len() implies (#[trigger] segs[i]).len() > 0
            && trimmed(segs[i]) == segs[i] by {
            if trimmed(cur).len() > 0 {
                if i == 0 {
                    assert(segs[i] == trimmed(cur));
                } else {
                    assert(segs[i] == rest[i - 1]);
                }
            } else {
                assert(segs[i] == rest[i]);
            }
        }
    } else {
        lemma_split_segments_wf(s.skip(1), cur.push(s[0]));
        let inner = split_segments(s.skip(1), cur.push(s[0]));
        assert forall|i: int| 0 <= i < segs.len() implies (#[trigger] segs[i]).len() > 0
            && trimmed(segs[i]) == segs[i] by {
            assert(segs[i] == inner[i]);
        }
    }
}

/// Well-formedness of segmentation: every sentence segment of any text is
/// non-empty and carries no leading or trailing whitespace.
pub proof fn lemma_segments_wf(s: Seq<char>)
    ensures
        forall|i: int|
            0 <= i < segments_of(s).len() ==> (#[trigger] segments_of(s)[i]).len() > 0 && trimmed(
                segments_of(s)[i],
            ) == segments_of(s)[i],
{
    lemma_split_segments_wf(s, Seq::<char>::empty());
}

/// Split a text into its sentence segments.
///
/// Every returned segment is non-empty and carries no surrounding
/// whitespace; an all-whitespace or empty text yields no segments.
pub fn segment_text(text: &str) -> (segs: Vec<String>)
    ensures
        segs@.map_values(|t: String| t@) == segments_of(text@),
{
    let n = text.unicode_len();
    let mut segs: Vec<String> = Vec::new();
    let mut start: usize = 0;
    let mut i: usize = 0;
    proof {
        assert(text@.skip(0) =~= text@);
        assert(text@.subrange(0, 0) =~= Seq::<char>::empty());
        assert(segs@.map_values(|t: String| t@) =~= Seq::<Seq<char>>::empty());
        assert(Seq::<Seq<char>>::empty() + split_segments(text@, Seq::<char>::empty())
            =~= split_segments(text@, Seq::<char>::empty()));
    }
    while i < n
        invariant
            start <= i <= n,
            n == text@.len(),
            segments_of(text@) == segs@.map_values(|t: String| t@) + split_segments(
                text@.skip(i as int),
                text@.subrange(start as int, i as int),
            ),
        decreases n - i,
    {
        let c = text.get_char(i);
        if c == '.' {
            let piece = text.substring_char(start, i);
            let t = trim_str(piece);
            proof {
                assert(text@.skip(i as int).skip(1) =~= text@.skip(i as int + 1));
                assert(text@.subrange(i as int + 1, i as int + 1) =~= Seq::<char>::empty());
            }
            if t.unicode_len() > 0 {
                let ghost old_segs = segs@;
                segs.push(t);
                proof {
                    assert(segs@.map_values(|t: String| t@) =~= old_segs.map_values(
                        |t: String| t@,
                    ).push(t@));
                }
            }
            start = i + 1;
        } else {
            proof {
                assert(text@.skip(i as int).skip(1) =~= text@.skip(i as int + 1));
                assert(text@.subrange(start as int, i as int).push(text@[i as int]) =~= text@
                    .subrange(start as int, i as int + 1));
            }
        }
        i = i + 1;
    }
    let piece = text.substring_char(start, n);
    let t = trim_str(piece);
    proof {
        assert(text@.skip(n as int) =~= Seq::<char>::empty());
    }
    if t.unicode_len() > 0 {
        let ghost old_segs = segs@;
        segs.push(t);
        proof {
            assert(segs@.map_values(|t: String| t@) =~= old_segs.map_values(|t: String| t@).push(
                t@,
            ));
        }
    }
    segs
}

} // verus!
