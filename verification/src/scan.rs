//! Delimiter search over byte sequences.
//!
//! `find_delim` is the mathematical account of locating a frame boundary:
//! the executable scanners in the buffer and splitter are proved to return
//! exactly its result. The lemmas here pin the first occurrence down and
//! show that it is stable when more bytes arrive, which is what makes
//! frame extraction independent of how the input was chunked.

use vstd::prelude::*;

verus! {

/// The delimiter `d` occurs in `s` starting at index `i`.
pub open spec fn matches_at(s: Seq<u8>, d: Seq<u8>, i: int) -> bool {
    0 <= i && i + d.len() <= s.len() && s.subrange(i, i + d.len()) == d
}

/// Index of the first occurrence of `d` in `s`, if there is one.
pub open spec fn find_delim(s: Seq<u8>, d: Seq<u8>) -> Option<int>
    decreases s.len(),
{
    if matches_at(s, d, 0) {
        Some(0)
    } else if s.len() == 0 {
        None
    } else {
        match find_delim(s.skip(1), d) {
            Some(i) => Some(i + 1),
            None => None,
        }
    }
}

/// Occurrences in the tail of `s` are occurrences of `s`, shifted by one.
proof fn lemma_matches_at_shift(s: Seq<u8>, d: Seq<u8>, j: int)
    requires
        s.len() >= 1,
        0 <= j,
    ensures
        matches_at(s.skip(1), d, j) == matches_at(s, d, j + 1),
{
    if j + 1 + d.len() <= s.len() {
        assert(s.skip(1).subrange(j, j + d.len()) =~= s.subrange(j + 1, j + 1 + d.len()));
    }
}

/// `find_delim` returns the first occurrence: a match at the returned
/// index, no match before it, and no match at all when it returns `None`.
pub proof fn lemma_find_delim_spec(s: Seq<u8>, d: Seq<u8>)
    ensures
        match find_delim(s, d) {
            Option::Some(i) => matches_at(s, d, i) && forall|j: int|
                0 <= j < i ==> !matches_at(s, d, j),
            Option::None => forall|j: int| !matches_at(s, d, j),
        },
    decreases s.len(),
{
    if matches_at(s, d, 0) {
    } else if s.len() == 0 {
        assert forall|j: int| !matches_at(s, d, j) by {
            if 0 <= j && j + d.len() <= s.len() {
                assert(j == 0);
            }
        }
    } else {
        lemma_find_delim_spec(s.skip(1), d);
        match find_delim(s.skip(1), d) {
            Option::Some(i) => {
                lemma_matches_at_shift(s, d, i);
                assert forall|j: int| 0 <= j < i + 1 implies !matches_at(s, d, j) by {
                    if j >= 1 {
                        lemma_matches_at_shift(s, d, j - 1);
                    }
                }
            },
            Option::None => {
                assert forall|j: int| !matches_at(s, d, j) by {
                    if j >= 1 {
                        lemma_matches_at_shift(s, d, j - 1);
                    }
                }
            },
        }
    }
}

/// Conversely, a first occurrence determines the result of `find_delim`.
pub proof fn lemma_find_delim_first(s: Seq<u8>, d: Seq<u8>, i: int)
    requires
        matches_at(s, d, i),
        forall|j: int| 0 <= j < i ==> !matches_at(s, d, j),
    ensures
        find_delim(s, d) == Option::<int>::Some(i),
{
    lemma_find_delim_spec(s, d);
    match find_delim(s, d) {
        Option::Some(k) => {
            if k < i {
                assert(!matches_at(s, d, k));
            } else if k > i {
                assert(!matches_at(s, d, i));
            }
        },
        Option::None => {
            assert(!matches_at(s, d, i));
        },
    }
}

/// An occurrence that lies wholly inside `s` is unaffected by appending `t`.
pub proof fn lemma_matches_at_append(s: Seq<u8>, t: Seq<u8>, d: Seq<u8>, j: int)
    requires
        0 <= j,
        j + d.len() <= s.len(),
    ensures
        matches_at(s + t, d, j) == matches_at(s, d, j),
{
    assert((s + t).subrange(j, j + d.len()) =~= s.subrange(j, j + d.len()));
}

/// Once a delimiter has been found, appending further bytes cannot move it:
/// the first occurrence in `s + t` is the first occurrence in `s`.
pub proof fn lemma_find_delim_append(s: Seq<u8>, t: Seq<u8>, d: Seq<u8>)
    requires
        find_delim(s, d) is Some,
    ensures
        find_delim(s + t, d) == find_delim(s, d),
{
    lemma_find_delim_spec(s, d);
    let i = find_delim(s, d)->Some_0;
    lemma_matches_at_append(s, t, d, i);
    assert forall|j: int| 0 <= j < i implies !matches_at(s + t, d, j) by {
        lemma_matches_at_append(s, t, d, j);
    }
    lemma_find_delim_first(s + t, d, i);
}

/// Taking a prefix that ends inside `s` ignores the appended tail.
pub proof fn lemma_take_append(s: Seq<u8>, t: Seq<u8>, i: int)
    requires
        0 <= i <= s.len(),
    ensures
        (s + t).take(i) == s.take(i),
{
    assert((s + t).take(i) =~= s.take(i));
}

/// Skipping a prefix that ends inside `s` keeps the appended tail intact.
pub proof fn lemma_skip_append(s: Seq<u8>, t: Seq<u8>, i: int)
    requires
        0 <= i <= s.len(),
    ensures
        (s + t).skip(i) == s.skip(i) + t,
{
    assert((s + t).skip(i) =~= s.skip(i) + t);
}

/// Concatenation of byte sequences is associative.
pub proof fn lemma_add_assoc(a: Seq<u8>, b: Seq<u8>, c: Seq<u8>)
    ensures
        (a + b) + c == a + (b + c),
{
    assert((a + b) + c =~= a + (b + c));
}

/// The complete, delimiter-terminated frames of `s`, in order.
pub open spec fn raw_frames_of(s: Seq<u8>, d: Seq<u8>) -> Seq<Seq<u8>>
    decreases s.len() via raw_frames_of_dec
{
    if d.len() == 0 {
        Seq::empty()
    } else {
        match find_delim(s, d) {
            Option::Some(i) => seq![s.take(i)] + raw_frames_of(s.skip(i + d.len()), d),
            Option::None => Seq::empty(),
        }
    }
}

#[via_fn]
proof fn raw_frames_of_dec(s: Seq<u8>, d: Seq<u8>) {
    if d.len() > 0 {
        lemma_find_delim_spec(s, d);
    }
}

/// What is left of `s` after its last complete frame.
pub open spec fn residue_of(s: Seq<u8>, d: Seq<u8>) -> Seq<u8>
    decreases s.len() via residue_of_dec
{
    if d.len() == 0 {
        s
    } else {
        match find_delim(s, d) {
            Option::Some(i) => residue_of(s.skip(i + d.len()), d),
            Option::None => s,
        }
    }
}

#[via_fn]
proof fn residue_of_dec(s: Seq<u8>, d: Seq<u8>) {
    if d.len() > 0 {
        lemma_find_delim_spec(s, d);
    }
}

/// The residue never holds more bytes than the input it came from.
pub proof fn lemma_residue_len(s: Seq<u8>, d: Seq<u8>)
    requires
        d.len() > 0,
    ensures
        residue_of(s, d).len() <= s.len(),
    decreases s.len(),
{
    lemma_find_delim_spec(s, d);
    match find_delim(s, d) {
        Option::Some(i) => {
            lemma_residue_len(s.skip(i + d.len()), d);
        },
        Option::None => {
        },
    }
}

/// Frames glued back together with the delimiter after each one.
pub open spec fn join_frames(frames: Seq<Seq<u8>>, d: Seq<u8>) -> Seq<u8>
    decreases frames.len(),
{
    if frames.len() == 0 {
        Seq::empty()
    } else {
        frames[0] + d + join_frames(frames.skip(1), d)
    }
}

/// Splitting consumes every byte exactly once: rejoining the complete
/// frames, each followed by one delimiter, and appending the residue
/// reconstructs the input unchanged.
pub proof fn lemma_split_accounts_for_all_bytes(s: Seq<u8>, d: Seq<u8>)
    requires
        d.len() > 0,
    ensures
        join_frames(raw_frames_of(s, d), d) + residue_of(s, d) == s,
    decreases s.len(),
{
    lemma_find_delim_spec(s, d);
    match find_delim(s, d) {
        Option::Some(i) => {
            let rest = s.skip(i + d.len());
            lemma_split_accounts_for_all_bytes(rest, d);
            let frames = raw_frames_of(s, d);
            assert(frames.skip(1) =~= raw_frames_of(rest, d));
            assert(join_frames(frames, d) == s.take(i) + d + join_frames(
                raw_frames_of(rest, d),
                d,
            ));
            assert(join_frames(frames, d) + residue_of(s, d) =~= s.take(i) + d + (join_frames(
                raw_frames_of(rest, d),
                d,
            ) + residue_of(rest, d)));
            assert(s.take(i) + d + rest =~= s) by {
                assert(forall|k: int|
                    i <= k < i + d.len() ==> d[k - i] == #[trigger] s.subrange(
                        i,
                        i + d.len(),
                    )[k - i]);
            }
        },
        Option::None => {
            assert(join_frames(raw_frames_of(s, d), d) + residue_of(s, d) =~= s);
        },
    }
}

} // verus!
