//! The pull-driven line stream: chunks in, newline-delimited records out.
//!
//! File contents and other line-oriented payloads use a single line feed
//! as the frame delimiter and no trimming: each complete line is handed
//! out exactly once, a partial line waits for more input instead of
//! erroring, and a trailing unterminated line is flushed once when the
//! input is closed. The same simulation argument as for the event stream
//! shows the lines depend only on the concatenated bytes, not on how the
//! transport cut them into chunks.

use vstd::prelude::*;

use crate::scan::find_delim;
use crate::scan::lemma_find_delim_append;
use crate::scan::lemma_find_delim_spec;
use crate::scan::lemma_skip_append;
use crate::scan::lemma_take_append;
use crate::scan::raw_frames_of;
use crate::scan::residue_of;
use crate::splitter::FrameSplitter;
use crate::stream::concat_bytes;
use crate::stream::lemma_concat_take_snoc;
use crate::stream::lemma_concat_split;

verus! {

/// The line delimiter: one line feed.
pub open spec fn line_delim() -> Seq<u8> {
    seq![10u8]
}

/// All lines the complete transmission `s` splits into: every complete
/// line without its delimiter, and the unterminated remainder, if any,
/// flushed as one final line at end of input.
pub open spec fn lines_of(s: Seq<u8>) -> Seq<Seq<u8>> {
    if residue_of(s, line_delim()).len() == 0 {
        raw_frames_of(s, line_delim())
    } else {
        raw_frames_of(s, line_delim()) + seq![residue_of(s, line_delim())]
    }
}

/// What one call asking the line stream for its next line can report.
#[derive(Debug, Clone, PartialEq, Eq)]
pub enum LineStep {
    /// One complete line, without its delimiter.
    Line(Vec<u8>),
    /// No complete line is buffered: feed a chunk or close the input.
    NeedInput,
    /// The input was closed and everything was handed out.
    Finished,
}

/// The incremental splitter for one line-oriented stream.
pub struct LineStream {
    splitter: FrameSplitter,
    src_closed: bool,
    done: bool,
    hist_fed: Ghost<Seq<u8>>,
    hist_emitted: Ghost<Seq<Seq<u8>>>,
}

impl LineStream {
    /// Every byte fed so far, in order.
    pub closed spec fn fed(&self) -> Seq<u8> {
        self.hist_fed@
    }

    /// Every line handed out so far, in order.
    pub closed spec fn emitted(&self) -> Seq<Seq<u8>> {
        self.hist_emitted@
    }

    /// Bytes fed but not yet consumed as lines.
    pub closed spec fn pending(&self) -> Seq<u8> {
        self.splitter.pending()
    }

    /// Whether the caller has declared the input complete.
    pub closed spec fn input_closed(&self) -> bool {
        self.src_closed
    }

    /// Whether the closed input has been fully drained.
    pub closed spec fn finished(&self) -> bool {
        self.done
    }

    /// The stream's invariant: while live, lines handed out plus the
    /// lines of the pending bytes account exactly for everything fed,
    /// whatever bytes may still arrive; once finished, the lines handed
    /// out are the lines of the fed bytes.
    pub closed spec fn wf(&self) -> bool {
        &&& self.splitter.wf()
        &&& self.splitter.delim() == line_delim()
        &&& if self.done {
            self.src_closed && lines_of(self.fed()) == self.emitted()
        } else {
            forall|t: Seq<u8>| #[trigger] lines_of(self.fed() + t) == self.emitted() + lines_of(
                self.pending() + t,
            )
        }
    }

    /// A fresh line stream: nothing fed, nothing handed out, input open.
    pub fn new() -> (r: LineStream)
        ensures
            r.wf(),
            r.fed() == Seq::<u8>::empty(),
            r.emitted() == Seq::<Seq<u8>>::empty(),
            !r.finished(),
            !r.input_closed(),
    {
        let mut d: Vec<u8> = Vec::new();
        d.push(10);
        proof {
            assert(d@ =~= line_delim());
        }
        let r = LineStream {
            splitter: FrameSplitter::new(d),
            src_closed: false,
            done: false,
            hist_fed: Ghost(Seq::empty()),
            hist_emitted: Ghost(Seq::empty()),
        };
        proof {
            assert forall|t: Seq<u8>| #[trigger] lines_of(r.fed() + t) == r.emitted() + lines_of(
                r.pending() + t,
            ) by {
                assert(r.fed() + t =~= t);
                assert(r.pending() + t =~= t);
                assert(r.emitted() + lines_of(t) =~= lines_of(t));
            }
        }
        r
    }

    /// Whether the closed input has been fully drained.
    pub fn is_finished(&self) -> (r: bool)
        ensures
            r == self.finished(),
    {
        self.done
    }

    /// Whether the caller has declared the input complete.
    pub fn is_input_closed(&self) -> (r: bool)
        ensures
            r == self.input_closed(),
    {
        self.src_closed
    }

    /// Accepts one chunk from the source; it may cut lines anywhere.
    pub fn feed(&mut self, chunk: Vec<u8>)
        requires
            old(self).wf(),
            !old(self).finished(),
            !old(self).input_closed(),
        ensures
            final(self).wf(),
            final(self).fed() == old(self).fed() + chunk@,
            final(self).emitted() == old(self).emitted(),
            !final(self).finished(),
            !final(self).input_closed(),
    {
        let ghost c = chunk@;
        self.splitter.push_chunk(chunk);
        self.hist_fed = Ghost(old(self).fed() + c);
        proof {
            assert forall|t: Seq<u8>| #[trigger] lines_of(self.fed() + t) == self.emitted()
                + lines_of(self.pending() + t) by {
                assert(self.fed() + t =~= old(self).fed() + (c + t));
                assert(self.pending() + t =~= old(self).pending() + (c + t));
                assert(lines_of(old(self).fed() + (c + t)) == old(self).emitted() + lines_of(
                    old(self).pending() + (c + t),
                ));
            }
        }
    }

    /// Declares the input complete: the source has no more chunks.
    pub fn close(&mut self)
        requires
            old(self).wf(),
        ensures
            final(self).wf(),
            final(self).input_closed(),
            final(self).fed() == old(self).fed(),
            final(self).emitted() == old(self).emitted(),
            final(self).finished() == old(self).finished(),
    {
        self.src_closed = true;
        proof {
            if !self.done {
                assert forall|t: Seq<u8>| #[trigger] lines_of(self.fed() + t) == self.emitted()
                    + lines_of(self.pending() + t) by {
                    assert(lines_of(old(self).fed() + t) == old(self).emitted() + lines_of(
                        old(self).pending() + t,
                    ));
                }
            }
        }
    }

    /// Produces the next complete line, reports that input is needed, or
    /// reports that the closed input is drained. A partial line is never
    /// handed out while the input is open: the stream asks for more
    /// bytes instead.
    pub fn next_line(&mut self) -> (r: LineStep)
        requires
            old(self).wf(),
        ensures
            final(self).wf(),
            final(self).fed() == old(self).fed(),
            final(self).input_closed() == old(self).input_closed(),
            old(self).finished() ==> r is Finished,
            match r {
                LineStep::Line(line) => {
                    &&& !old(self).finished()
                    &&& final(self).emitted() == old(self).emitted() + seq![line@]
                    &&& final(self).pending().len() < old(self).pending().len()
                },
                LineStep::NeedInput => {
                    &&& !old(self).finished()
                    &&& !old(self).input_closed()
                    &&& find_delim(old(self).pending(), line_delim()) is None
                    &&& final(self).emitted() == old(self).emitted()
                    &&& final(self).pending() == old(self).pending()
                    &&& !final(self).finished()
                },
                LineStep::Finished => {
                    &&& final(self).finished()
                    &&& final(self).emitted() == old(self).emitted()
                    &&& lines_of(final(self).fed()) == final(self).emitted()
                },
            },
    {
        if self.done {
            return LineStep::Finished;
        }
        let ghost cur = self.pending();
        let ghost d = line_delim();
        let line_opt = self.splitter.next_frame();
        match line_opt {
            Option::Some(line) => {
                let ghost i = find_delim(cur, d)->Some_0;
                let ghost rest = self.pending();
                self.hist_emitted = Ghost(old(self).emitted() + seq![line@]);
                proof {
                    lemma_find_delim_spec(cur, d);
                    assert forall|t: Seq<u8>| #[trigger] lines_of(self.fed() + t)
                        == self.emitted() + lines_of(self.pending() + t) by {
                        assert(lines_of(old(self).fed() + t) == old(self).emitted() + lines_of(
                            cur + t,
                        ));
                        lemma_find_delim_append(cur, t, d);
                        lemma_take_append(cur, t, i);
                        lemma_skip_append(cur, t, i + 1);
                        assert(raw_frames_of(cur + t, d) == seq![line@] + raw_frames_of(
                            rest + t,
                            d,
                        ));
                        assert(residue_of(cur + t, d) == residue_of(rest + t, d));
                        if residue_of(rest + t, d).len() == 0 {
                            assert(lines_of(cur + t) =~= seq![line@] + lines_of(rest + t));
                        } else {
                            assert((seq![line@] + raw_frames_of(rest + t, d)) + seq![
                                residue_of(rest + t, d),
                            ] =~= seq![line@] + (raw_frames_of(rest + t, d) + seq![
                                residue_of(rest + t, d),
                            ]));
                            assert(lines_of(cur + t) =~= seq![line@] + lines_of(rest + t));
                        }
                        assert(old(self).emitted() + (seq![line@] + lines_of(rest + t))
                            =~= (old(self).emitted() + seq![line@]) + lines_of(rest + t));
                    }
                }
                LineStep::Line(line)
            },
            Option::None => {
                proof {
                    lemma_find_delim_spec(cur, d);
                    assert forall|t: Seq<u8>| #[trigger] lines_of(self.fed() + t)
                        == self.emitted() + lines_of(self.pending() + t) by {
                        assert(lines_of(old(self).fed() + t) == old(self).emitted() + lines_of(
                            cur + t,
                        ));
                    }
                }
                if !self.src_closed {
                    return LineStep::NeedInput;
                }
                let rest = self.splitter.take_rest();
                proof {
                    assert(self.fed() + Seq::<u8>::empty() =~= self.fed());
                    assert(cur + Seq::<u8>::empty() =~= cur);
                    assert(lines_of(self.fed()) == self.emitted() + lines_of(cur));
                }
                if rest.len() == 0 {
                    self.done = true;
                    proof {
                        assert(raw_frames_of(cur, d) =~= Seq::<Seq<u8>>::empty());
                        assert(lines_of(cur) =~= Seq::<Seq<u8>>::empty());
                        assert(self.emitted() + lines_of(cur) =~= self.emitted());
                    }
                    return LineStep::Finished;
                }
                self.hist_emitted = Ghost(old(self).emitted() + seq![rest@]);
                self.done = true;
                proof {
                    assert(raw_frames_of(cur, d) =~= Seq::<Seq<u8>>::empty());
                    assert(lines_of(cur) =~= seq![rest@]);
                    assert(old(self).emitted() + lines_of(cur) =~= self.emitted());
                }
                LineStep::Line(rest)
            },
        }
    }
}

/// Splits a whole transmission delivered as the given chunks into lines:
/// feeds them in order, closes the input when they run out, and collects
/// every line. The lines are exactly the lines of the concatenated
/// bytes, so the chunking can have no effect on the result.
pub fn split_lines(chunks: &Vec<Vec<u8>>) -> (r: Vec<Vec<u8>>)
    ensures
        r@.map_values(|l: Vec<u8>| l@) == lines_of(concat_bytes(chunks@.map_values(|c: Vec<u8>| c@))),
{
    let ghost cs = chunks@.map_values(|c: Vec<u8>| c@);
    let mut ls = LineStream::new();
    let mut out: Vec<Vec<u8>> = Vec::new();
    let mut i: usize = 0;
    proof {
        assert(cs.take(0) =~= Seq::<Seq<u8>>::empty());
        assert(out@.map_values(|l: Vec<u8>| l@) =~= ls.emitted());
    }
    loop
        invariant
            ls.wf(),
            0 <= i <= chunks@.len(),
            cs == chunks@.map_values(|c: Vec<u8>| c@),
            cs.len() == chunks@.len(),
            ls.fed() == concat_bytes(cs.take(i as int)),
            ls.input_closed() ==> i == chunks@.len(),
            out@.map_values(|l: Vec<u8>| l@) == ls.emitted(),
        decreases
            chunks@.len() - i,
            (if ls.input_closed() { 0int } else { 1int }),
            ls.pending().len(),
            (if ls.finished() { 0int } else { 1int }),
    {
        let step = ls.next_line();
        match step {
            LineStep::Line(line) => {
                out.push(line);
                proof {
                    assert(out@.map_values(|l: Vec<u8>| l@) =~= ls.emitted());
                }
            },
            LineStep::NeedInput => {
                if i < chunks.len() {
                    let chunk = vstd::slice::slice_to_vec(chunks[i].as_slice());
                    proof {
                        assert(chunk@ == cs[i as int]);
                    }
                    ls.feed(chunk);
                    i = i + 1;
                    proof {
                        lemma_concat_take_snoc(cs, i - 1);
                    }
                } else {
                    ls.close();
                }
            },
            LineStep::Finished => {
                proof {
                    assert(cs.take(i as int) =~= cs);
                    lemma_concat_split(cs, i as int);
                }
                return out;
            },
        }
    }
}

} // verus!
