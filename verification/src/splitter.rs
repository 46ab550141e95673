//! Splitting buffered bytes into complete, delimiter-terminated frames.
//!
//! The splitter drains every frame already in the buffer before the caller
//! has to fetch more input, finds delimiters that straddle chunk
//! boundaries, and only ever scans bytes it has not rejected before: a
//! watermark records the prefix known to contain no delimiter, and each
//! scan resumes there instead of at the front of the buffer.

use vstd::prelude::*;

use crate::buffer::ChunkBuffer;
use crate::scan::find_delim;
use crate::scan::lemma_find_delim_append;
use crate::scan::lemma_find_delim_first;
use crate::scan::lemma_find_delim_spec;
use crate::scan::lemma_matches_at_append;
use crate::scan::lemma_skip_append;
use crate::scan::lemma_take_append;
use crate::scan::matches_at;
use crate::scan::residue_of;
use crate::text::trim_ascii;
use crate::text::trim_spec;

verus! {

/// The next frame an event consumer should see: the first complete frame
/// that is not all whitespace, trimmed, together with the bytes that
/// follow its delimiter. `None` when no such frame is complete yet.
pub open spec fn next_event_frame(s: Seq<u8>, d: Seq<u8>) -> Option<(Seq<u8>, Seq<u8>)>
    decreases s.len() via next_event_frame_dec
{
    if d.len() == 0 {
        None
    } else {
        match find_delim(s, d) {
            Option::Some(i) => {
                let f = trim_spec(s.take(i));
                let rest = s.skip(i + d.len());
                if f.len() == 0 {
                    next_event_frame(rest, d)
                } else {
                    Option::Some((f, rest))
                }
            },
            Option::None => None,
        }
    }
}

#[via_fn]
proof fn next_event_frame_dec(s: Seq<u8>, d: Seq<u8>) {
    if d.len() > 0 {
        lemma_find_delim_spec(s, d);
    }
}

/// A complete frame, once present, keeps its place and content when more
/// bytes arrive: only the remainder after it grows.
pub proof fn lemma_next_event_frame_append(s: Seq<u8>, t: Seq<u8>, d: Seq<u8>)
    requires
        d.len() > 0,
        next_event_frame(s, d) is Some,
    ensures
        next_event_frame(s + t, d) == Option::Some(
            (next_event_frame(s, d).unwrap().0, next_event_frame(s, d).unwrap().1 + t),
        ),
    decreases s.len(),
{
    lemma_find_delim_spec(s, d);
    let i = find_delim(s, d)->Some_0;
    lemma_find_delim_append(s, t, d);
    lemma_take_append(s, t, i);
    lemma_skip_append(s, t, i + d.len());
    if trim_spec(s.take(i)).len() == 0 {
        lemma_next_event_frame_append(s.skip(i + d.len()), t, d);
    }
}

/// The remainder handed back with a frame is strictly shorter than the
/// input it came from.
pub proof fn lemma_next_event_frame_len(s: Seq<u8>, d: Seq<u8>)
    requires
        next_event_frame(s, d) is Some,
    ensures
        next_event_frame(s, d).unwrap().1.len() < s.len(),
    decreases s.len(),
{
    lemma_find_delim_spec(s, d);
    let i = find_delim(s, d)->Some_0;
    if trim_spec(s.take(i)).len() == 0 {
        lemma_next_event_frame_len(s.skip(i + d.len()), d);
    }
}

/// Locates frame boundaries in accumulated bytes and hands out each
/// complete frame exactly once, keeping the unconsumed remainder.
pub struct FrameSplitter {
    buf: ChunkBuffer,
    delimiter: Vec<u8>,
    searched: usize,
}

impl FrameSplitter {
    /// Bytes that have arrived and not yet left as frames.
    pub closed spec fn pending(&self) -> Seq<u8> {
        self.buf@
    }

    /// The delimiter this splitter looks for.
    pub closed spec fn delim(&self) -> Seq<u8> {
        self.delimiter@
    }

    /// Internal soundness of the splitter: a non-empty delimiter, and a
    /// watermark that never hides an occurrence of it.
    pub closed spec fn wf(&self) -> bool {
        &&& self.delimiter@.len() >= 1
        &&& forall|j: int| 0 <= j < self.searched ==> !matches_at(self.buf@, self.delimiter@, j)
        &&& self.searched == 0 || self.searched + self.delimiter@.len() <= self.buf@.len() + 1
    }

    /// A splitter for the given delimiter, with nothing buffered.
    pub fn new(delimiter: Vec<u8>) -> (r: FrameSplitter)
        requires
            delimiter@.len() > 0,
        ensures
            r.wf(),
            r.pending() == Seq::<u8>::empty(),
            r.delim() == delimiter@,
    {
        FrameSplitter { buf: ChunkBuffer::new(), delimiter, searched: 0 }
    }

    /// Appends one source chunk to the pending bytes.
    pub fn push_chunk(&mut self, chunk: Vec<u8>)
        requires
            old(self).wf(),
        ensures
            final(self).wf(),
            final(self).pending() == old(self).pending() + chunk@,
            final(self).delim() == old(self).delim(),
    {
        let ghost added = chunk@;
        self.buf.append(chunk);
        proof {
            assert forall|j: int| 0 <= j < self.searched implies !matches_at(
                self.buf@,
                self.delimiter@,
                j,
            ) by {
                lemma_matches_at_append(old(self).pending(), added, self.delimiter@, j);
            }
        }
    }

    /// Extracts the first complete raw frame, dropping its delimiter, or
    /// reports that no frame is complete yet. Nothing is pulled from any
    /// source here: everything already buffered is drained first.
    pub fn next_frame(&mut self) -> (r: Option<Vec<u8>>)
        requires
            old(self).wf(),
        ensures
            final(self).wf(),
            final(self).delim() == old(self).delim(),
            match find_delim(old(self).pending(), old(self).delim()) {
                Option::Some(i) => {
                    &&& r is Some
                    &&& r.unwrap()@ == old(self).pending().take(i)
                    &&& final(self).pending() == old(self).pending().skip(
                        i + old(self).delim().len(),
                    )
                },
                Option::None => r is None && final(self).pending() == old(self).pending(),
            },
    {
        let dl = self.delimiter.len();
        let found = self.buf.find_from(self.delimiter.as_slice(), self.searched);
        match found {
            Option::Some(i) => {
                proof {
                    lemma_find_delim_first(self.buf@, self.delimiter@, i as int);
                }
                let frame = self.buf.take_prefix(i);
                self.buf.consume(dl);
                self.searched = 0;
                proof {
                    assert(old(self).pending().skip(i as int).skip(dl as int) =~= old(
                        self,
                    ).pending().skip(i + dl));
                }
                Option::Some(frame)
            },
            Option::None => {
                let n = self.buf.len();
                self.searched = if n >= dl {
                    n - dl + 1
                } else {
                    0
                };
                proof {
                    lemma_find_delim_spec(self.buf@, self.delimiter@);
                    if find_delim(self.buf@, self.delimiter@) is Some {
                        let i = find_delim(self.buf@, self.delimiter@)->Some_0;
                        assert(matches_at(self.buf@, self.delimiter@, i));
                        assert(false);
                    }
                }
                None
            },
        }
    }

    /// Extracts the next trimmed, non-empty frame for an event consumer,
    /// discarding any all-whitespace frames in front of it. When it
    /// returns `None`, no complete frame remains and the pending bytes
    /// are exactly the residue after the discarded frames.
    pub fn next_trimmed_frame(&mut self) -> (r: Option<Vec<u8>>)
        requires
            old(self).wf(),
        ensures
            final(self).wf(),
            final(self).delim() == old(self).delim(),
            match next_event_frame(old(self).pending(), old(self).delim()) {
                Option::Some(p) => r is Some && r.unwrap()@ == p.0 && final(self).pending()
                    == p.1,
                Option::None => {
                    &&& r is None
                    &&& final(self).pending() == residue_of(
                        old(self).pending(),
                        old(self).delim(),
                    )
                    &&& find_delim(final(self).pending(), final(self).delim()) is None
                },
            },
    {
        let ghost orig = self.pending();
        let ghost d = self.delim();
        loop
            invariant
                self.wf(),
                self.delim() == d,
                d == old(self).delim(),
                orig == old(self).pending(),
                d.len() >= 1,
                next_event_frame(self.pending(), d) == next_event_frame(orig, d),
                residue_of(self.pending(), d) == residue_of(orig, d),
            decreases self.pending().len(),
        {
            let ghost cur = self.pending();
            let raw = self.next_frame();
            match raw {
                Option::Some(frame) => {
                    let trimmed = vstd::slice::slice_to_vec(trim_ascii(frame.as_slice()));
                    proof {
                        lemma_find_delim_spec(cur, d);
                    }
                    if trimmed.len() > 0 {
                        return Option::Some(trimmed);
                    }
                },
                Option::None => {
                    return None;
                },
            }
        }
    }

    /// Removes and returns everything still pending, for the final flush
    /// when the source has ended.
    pub fn take_rest(&mut self) -> (r: Vec<u8>)
        requires
            old(self).wf(),
        ensures
            final(self).wf(),
            final(self).delim() == old(self).delim(),
            r@ == old(self).pending(),
            final(self).pending() == Seq::<u8>::empty(),
    {
        let n = self.buf.len();
        let rest = self.buf.take_prefix(n);
        self.searched = 0;
        proof {
            assert(rest@ =~= old(self).pending());
            assert(old(self).pending().skip(n as int) =~= Seq::<u8>::empty());
        }
        rest
    }
}

} // verus!
