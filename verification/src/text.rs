//! ASCII whitespace trimming over byte slices.
//!
//! Frames extracted from the wire are trimmed before they are decoded; the
//! spec functions here are the mathematical account of that trimming, and
//! the executable functions are proved against them.

use vstd::prelude::*;

verus! {

/// ASCII whitespace, as `u8::is_ascii_whitespace` recognises it:
/// space, tab, line feed, form feed and carriage return.
pub open spec fn is_ws(b: u8) -> bool {
    b == 32 || b == 9 || b == 10 || b == 12 || b == 13
}

/// `s` without its longest all-whitespace prefix.
pub open spec fn trim_start_spec(s: Seq<u8>) -> Seq<u8>
    decreases s.len(),
{
    if s.len() > 0 && is_ws(s[0]) {
        trim_start_spec(s.skip(1))
    } else {
        s
    }
}

/// `s` without its longest all-whitespace suffix.
pub open spec fn trim_end_spec(s: Seq<u8>) -> Seq<u8>
    decreases s.len(),
{
    if s.len() > 0 && is_ws(s[s.len() - 1]) {
        trim_end_spec(s.take(s.len() - 1))
    } else {
        s
    }
}

/// `s` without leading and trailing ASCII whitespace.
pub open spec fn trim_spec(s: Seq<u8>) -> Seq<u8> {
    trim_end_spec(trim_start_spec(s))
}

/// A cut position `i` with only whitespace on its left and a
/// non-whitespace byte (or nothing) at it determines `trim_start_spec`.
pub proof fn lemma_trim_start_at(s: Seq<u8>, i: int)
    requires
        0 <= i <= s.len(),
        forall|j: int| 0 <= j < i ==> is_ws(s[j]),
        i == s.len() || !is_ws(s[i]),
    ensures
        trim_start_spec(s) == s.skip(i),
    decreases i,
{
    if i == 0 {
        assert(s.skip(0) =~= s);
    } else {
        assert(is_ws(s[0]));
        let tail = s.skip(1);
        assert(forall|j: int| 0 <= j < i - 1 ==> tail[j] == s[j + 1] && is_ws(tail[j]));
        assert(i - 1 == tail.len() || !is_ws(tail[i - 1]));
        lemma_trim_start_at(tail, i - 1);
        assert(tail.skip(i - 1) =~= s.skip(i));
    }
}

/// The matching characterisation for `trim_end_spec`.
pub proof fn lemma_trim_end_at(s: Seq<u8>, i: int)
    requires
        0 <= i <= s.len(),
        forall|j: int| i <= j < s.len() ==> is_ws(s[j]),
        i == 0 || !is_ws(s[i - 1]),
    ensures
        trim_end_spec(s) == s.take(i),
    decreases s.len() - i,
{
    if i == s.len() {
        if s.len() > 0 {
            assert(!is_ws(s[s.len() - 1]));
        }
        assert(s.take(i) =~= s);
    } else {
        assert(is_ws(s[s.len() - 1]));
        let front = s.take(s.len() - 1);
        assert(forall|j: int| i <= j < front.len() ==> front[j] == s[j] && is_ws(front[j]));
        lemma_trim_end_at(front, i);
        assert(front.take(i) =~= s.take(i));
    }
}

/// How many whitespace bytes `trim_start_spec` removes, and that the rest
/// of the sequence is kept unchanged.
pub proof fn lemma_trim_start_decomposition(s: Seq<u8>)
    ensures
        trim_start_spec(s).len() <= s.len(),
        trim_start_spec(s) =~= s.skip(s.len() - trim_start_spec(s).len()),
        forall|j: int| 0 <= j < s.len() - trim_start_spec(s).len() ==> is_ws(s[j]),
    decreases s.len(),
{
    if s.len() > 0 && is_ws(s[0]) {
        let tail = s.skip(1);
        lemma_trim_start_decomposition(tail);
        let dropped = s.len() - trim_start_spec(s).len();
        assert(tail.skip(dropped - 1) =~= s.skip(dropped));
        assert forall|j: int| 0 <= j < dropped implies is_ws(s[j]) by {
            if j >= 1 {
                assert(s[j] == tail[j - 1]);
            }
        }
    } else {
        assert(s.skip(0) =~= s);
    }
}

/// The matching decomposition for `trim_end_spec`.
pub proof fn lemma_trim_end_decomposition(s: Seq<u8>)
    ensures
        trim_end_spec(s).len() <= s.len(),
        trim_end_spec(s) =~= s.take(trim_end_spec(s).len() as int),
        forall|j: int| trim_end_spec(s).len() <= j < s.len() ==> is_ws(s[j]),
    decreases s.len(),
{
    if s.len() > 0 && is_ws(s[s.len() - 1]) {
        let front = s.take(s.len() - 1);
        lemma_trim_end_decomposition(front);
        assert(front.take(trim_end_spec(s).len() as int) =~= s.take(
            trim_end_spec(s).len() as int,
        ));
        assert forall|j: int| trim_end_spec(s).len() <= j < s.len() implies is_ws(s[j]) by {
            if j < s.len() - 1 {
                assert(s[j] == front[j]);
            }
        }
    } else {
        assert(s.take(s.len() as int) =~= s);
    }
}

/// A trim never invents bytes: the trimmed frame is a contiguous subrange
/// of the original, and every byte the trim drops is ASCII whitespace.
pub proof fn lemma_trim_accounts_for_all_bytes(s: Seq<u8>)
    ensures
        trim_spec(s).len() <= s.len(),
        ({
            let low = s.len() - trim_start_spec(s).len();
            let high = low + trim_spec(s).len();
            &&& 0 <= low <= high <= s.len()
            &&& trim_spec(s) =~= s.subrange(low, high)
            &&& forall|j: int| 0 <= j < low ==> is_ws(s[j])
            &&& forall|j: int| high <= j < s.len() ==> is_ws(s[j])
        }),
{
    lemma_trim_start_decomposition(s);
    let started = trim_start_spec(s);
    lemma_trim_end_decomposition(started);
    let low = s.len() - started.len();
    let high = low + trim_spec(s).len();
    assert(trim_spec(s) =~= s.subrange(low, high));
    assert forall|j: int| high <= j < s.len() implies is_ws(s[j]) by {
        assert(s[j] == started[j - low]);
    }
}

/// Executable test for [`is_ws`].
pub fn is_ascii_ws(b: u8) -> (r: bool)
    ensures
        r == is_ws(b),
{
    b == 32 || b == 9 || b == 10 || b == 12 || b == 13
}

/// Drops leading ASCII whitespace, returning the tail of the slice.
pub fn trim_ascii_start(ascii: &[u8]) -> (r: &[u8])
    ensures
        r@ == trim_start_spec(ascii@),
{
    let len: usize = ascii.len();
    let mut i: usize = 0;
    while i < len && is_ascii_ws(*vstd::slice::slice_index_get(ascii, i))
        invariant
            0 <= i <= len,
            len == ascii@.len(),
            forall|j: int| 0 <= j < i ==> is_ws(ascii@[j]),
        decreases len - i,
    {
        i = i + 1;
    }
    proof {
        lemma_trim_start_at(ascii@, i as int);
        assert(ascii@.skip(i as int) =~= ascii@.subrange(i as int, len as int));
    }
    vstd::slice::slice_subrange(ascii, i, len)
}

/// Drops trailing ASCII whitespace, returning the front of the slice.
pub fn trim_ascii_end(ascii: &[u8]) -> (r: &[u8])
    ensures
        r@ == trim_end_spec(ascii@),
{
    let len: usize = ascii.len();
    let mut j: usize = len;
    while j > 0 && is_ascii_ws(*vstd::slice::slice_index_get(ascii, j - 1))
        invariant
            0 <= j <= len,
            len == ascii@.len(),
            forall|k: int| j <= k < len ==> is_ws(ascii@[k]),
        decreases j,
    {
        j = j - 1;
    }
    proof {
        lemma_trim_end_at(ascii@, j as int);
        assert(ascii@.take(j as int) =~= ascii@.subrange(0, j as int));
    }
    vstd::slice::slice_subrange(ascii, 0, j)
}

/// Drops leading and trailing ASCII whitespace.
pub fn trim_ascii(ascii: &[u8]) -> (r: &[u8])
    ensures
        r@ == trim_spec(ascii@),
{
    trim_ascii_end(trim_ascii_start(ascii))
}

} // verus!
