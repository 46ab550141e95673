//! The pull-driven event stream: chunks in, decoded events out.
//!
//! The stream owns a frame splitter for the blank-line delimiter and
//! decodes each complete frame as it is asked for the next event, never
//! buffering more than one output ahead of the caller. Its contract is a
//! simulation argument: at every point, the events already emitted plus
//! the meaning of the bytes still pending equal the meaning of all bytes
//! fed so far — for any way the remaining input might continue. From
//! that single invariant the chunking-independence, ordering and
//! terminal-sentinel properties all follow.

use vstd::prelude::*;

use crate::decoder::decode_frame;
use crate::decoder::decode_frame_spec;
use crate::decoder::is_terminal;
use crate::decoder::DecodedEvent;
use crate::decoder::EventModel;
use crate::scan::find_delim;
use crate::scan::lemma_add_assoc;
use crate::scan::lemma_find_delim_append;
use crate::scan::lemma_find_delim_spec;
use crate::scan::lemma_skip_append;
use crate::scan::lemma_take_append;
use crate::scan::lemma_residue_len;
use crate::scan::residue_of;
use crate::splitter::lemma_next_event_frame_append;
use crate::splitter::lemma_next_event_frame_len;
use crate::splitter::next_event_frame;
use crate::splitter::FrameSplitter;
use crate::text::lemma_trim_accounts_for_all_bytes;
use crate::text::trim_ascii;
use crate::text::trim_spec;

verus! {

/// The event-record delimiter: a blank line.
pub open spec fn event_delim() -> Seq<u8> {
    seq![10u8, 10u8]
}

/// All events that the complete transmission `s` decodes to, in order:
/// each complete frame is trimmed, all-whitespace frames are dropped,
/// the first terminal event ends the sequence, and a non-empty remainder
/// at end of input is flushed as one final unterminated frame.
pub open spec fn events_of(s: Seq<u8>) -> Seq<EventModel>
    decreases s.len() via events_of_dec
{
    match next_event_frame(s, event_delim()) {
        Option::Some(p) => {
            let e = decode_frame_spec(p.0);
            if is_terminal(e) {
                seq![e]
            } else {
                seq![e] + events_of(p.1)
            }
        },
        Option::None => {
            let rem = trim_spec(residue_of(s, event_delim()));
            if rem.len() == 0 {
                Seq::empty()
            } else {
                seq![decode_frame_spec(rem)]
            }
        },
    }
}

#[via_fn]
proof fn events_of_dec(s: Seq<u8>) {
    if next_event_frame(s, event_delim()) is Some {
        lemma_next_event_frame_len(s, event_delim());
    }
}

/// Discarding the whitespace-only frames in front of the residue does
/// not change what any continuation of the bytes means.
proof fn lemma_events_skip_ws(s: Seq<u8>, t: Seq<u8>)
    requires
        next_event_frame(s, event_delim()) is None,
    ensures
        next_event_frame(s + t, event_delim()) == next_event_frame(
            residue_of(s, event_delim()) + t,
            event_delim(),
        ),
        residue_of(s + t, event_delim()) == residue_of(
            residue_of(s, event_delim()) + t,
            event_delim(),
        ),
    decreases s.len(),
{
    let d = event_delim();
    lemma_find_delim_spec(s, d);
    match find_delim(s, d) {
        Option::Some(i) => {
            lemma_find_delim_append(s, t, d);
            lemma_take_append(s, t, i);
            lemma_skip_append(s, t, i + d.len());
            lemma_events_skip_ws(s.skip(i + d.len()), t);
        },
        Option::None => {
        },
    }
}

/// `events_of` only looks at the next complete frame and the residue, so
/// two byte sequences that agree on both decode alike.
proof fn lemma_events_congruence(a: Seq<u8>, b: Seq<u8>)
    requires
        next_event_frame(a, event_delim()) == next_event_frame(b, event_delim()),
        residue_of(a, event_delim()) == residue_of(b, event_delim()),
    ensures
        events_of(a) == events_of(b),
{
}

/// The concatenation of a sequence of chunks.
pub open spec fn concat_bytes(cs: Seq<Seq<u8>>) -> Seq<u8>
    decreases cs.len(),
{
    if cs.len() == 0 {
        Seq::empty()
    } else {
        cs[0] + concat_bytes(cs.skip(1))
    }
}

/// Extending the prefix of chunks by one appends that chunk's bytes.
pub proof fn lemma_concat_take_snoc(cs: Seq<Seq<u8>>, i: int)
    requires
        0 <= i < cs.len(),
    ensures
        concat_bytes(cs.take(i + 1)) == concat_bytes(cs.take(i)) + cs[i],
    decreases i,
{
    if i == 0 {
        assert(cs.take(1)[0] == cs[0]);
        assert(cs.take(1).skip(1) =~= Seq::<Seq<u8>>::empty());
        assert(cs.take(0) =~= Seq::<Seq<u8>>::empty());
        assert(cs[0] + Seq::<u8>::empty() =~= cs[0]);
        assert(Seq::<u8>::empty() + cs[0] =~= cs[0]);
    } else {
        let tail = cs.skip(1);
        lemma_concat_take_snoc(tail, i - 1);
        assert(cs.take(i + 1)[0] == cs[0]);
        assert(cs.take(i)[0] == cs[0]);
        assert(cs.take(i + 1).skip(1) =~= tail.take(i));
        assert(cs.take(i).skip(1) =~= tail.take(i - 1));
        lemma_add_assoc(cs[0], concat_bytes(tail.take(i - 1)), tail[i - 1]);
        assert(tail[i - 1] == cs[i]);
    }
}

/// Chunks can be concatenated a prefix at a time.
pub proof fn lemma_concat_split(cs: Seq<Seq<u8>>, i: int)
    requires
        0 <= i <= cs.len(),
    ensures
        concat_bytes(cs) == concat_bytes(cs.take(i)) + concat_bytes(cs.skip(i)),
    decreases i,
{
    if i == 0 {
        assert(cs.take(0) =~= Seq::<Seq<u8>>::empty());
        assert(cs.skip(0) =~= cs);
        assert(Seq::<u8>::empty() + concat_bytes(cs) =~= concat_bytes(cs));
    } else {
        let tail = cs.skip(1);
        lemma_concat_split(tail, i - 1);
        assert(cs.take(i)[0] == cs[0]);
        assert(cs.take(i).skip(1) =~= tail.take(i - 1));
        assert(cs.skip(i) =~= tail.skip(i - 1));
        lemma_add_assoc(cs[0], concat_bytes(tail.take(i - 1)), concat_bytes(tail.skip(i - 1)));
    }
}

/// What one call asking the stream for its next event can report.
#[derive(Debug, Clone, PartialEq, Eq)]
pub enum StreamStep {
    /// One decoded event; the caller gets each event exactly once.
    Event(DecodedEvent),
    /// No complete frame is buffered: feed a chunk or close the input.
    NeedInput,
    /// The stream is over; nothing further will ever be produced.
    Finished,
}

/// The incremental decoder for one event-record stream.
///
/// The caller drives it: ask for the next event; when it reports that it
/// needs input, feed the next transport chunk, or close the input when
/// the source is exhausted. Suspension, transport errors and the typed
/// payload decode all stay with the caller, so every decision the stream
/// makes is verified here.
pub struct EventStream {
    splitter: FrameSplitter,
    src_closed: bool,
    done: bool,
    hist_fed: Ghost<Seq<u8>>,
    hist_emitted: Ghost<Seq<EventModel>>,
}

impl EventStream {
    /// Every byte fed so far, in order.
    pub closed spec fn fed(&self) -> Seq<u8> {
        self.hist_fed@
    }

    /// The meaning of every event handed out so far, in order.
    pub closed spec fn emitted(&self) -> Seq<EventModel> {
        self.hist_emitted@
    }

    /// Bytes fed but not yet consumed as frames.
    pub closed spec fn pending(&self) -> Seq<u8> {
        self.splitter.pending()
    }

    /// Whether the caller has declared the input complete.
    pub closed spec fn input_closed(&self) -> bool {
        self.src_closed
    }

    /// Whether the stream has ended: a terminal event was emitted, or the
    /// closed input was drained.
    pub closed spec fn finished(&self) -> bool {
        self.done
    }

    /// The stream's invariant. While the stream is live, emitted events
    /// plus the meaning of pending bytes account exactly for everything
    /// fed, whatever bytes may still arrive; once finished, the emitted
    /// events are the meaning of the fed bytes, full stop.
    pub closed spec fn wf(&self) -> bool {
        &&& self.splitter.wf()
        &&& self.splitter.delim() == event_delim()
        &&& if self.done {
            &&& events_of(self.fed()) == self.emitted()
            &&& self.src_closed || (forall|t: Seq<u8>|
                #[trigger] events_of(self.fed() + t) == self.emitted())
        } else {
            &&& forall|t: Seq<u8>| #[trigger] events_of(self.fed() + t) == self.emitted()
                + events_of(self.pending() + t)
            &&& forall|k: int|
                0 <= k < self.emitted().len() ==> !is_terminal(#[trigger] self.emitted()[k])
        }
    }

    /// A fresh stream: nothing fed, nothing emitted, input open.
    pub fn new() -> (r: EventStream)
        ensures
            r.wf(),
            r.fed() == Seq::<u8>::empty(),
            r.emitted() == Seq::<EventModel>::empty(),
            !r.finished(),
            !r.input_closed(),
    {
        let mut d: Vec<u8> = Vec::new();
        d.push(10);
        d.push(10);
        proof {
            assert(d@ =~= event_delim());
        }
        let r = EventStream {
            splitter: FrameSplitter::new(d),
            src_closed: false,
            done: false,
            hist_fed: Ghost(Seq::empty()),
            hist_emitted: Ghost(Seq::empty()),
        };
        proof {
            assert forall|t: Seq<u8>| #[trigger] events_of(r.fed() + t) == r.emitted()
                + events_of(r.pending() + t) by {
                assert(r.fed() + t =~= t);
                assert(r.pending() + t =~= t);
                assert(r.emitted() + events_of(t) =~= events_of(t));
            }
        }
        r
    }

    /// Whether the stream has ended.
    pub fn is_finished(&self) -> (r: bool)
        ensures
            r == self.finished(),
    {
        self.done
    }

    /// Whether the caller has declared the input complete.
    pub fn is_input_closed(&self) -> (r: bool)
        ensures
            r == self.input_closed(),
    {
        self.src_closed
    }

    /// Accepts one chunk from the source. The chunk may cut records and
    /// even the delimiter anywhere: reassembly is the stream's job.
    pub fn feed(&mut self, chunk: Vec<u8>)
        requires
            old(self).wf(),
            !old(self).finished(),
            !old(self).input_closed(),
        ensures
            final(self).wf(),
            final(self).fed() == old(self).fed() + chunk@,
            final(self).emitted() == old(self).emitted(),
            !final(self).finished(),
            !final(self).input_closed(),
    {
        let ghost c = chunk@;
        self.splitter.push_chunk(chunk);
        self.hist_fed = Ghost(old(self).fed() + c);
        proof {
            assert forall|t: Seq<u8>| #[trigger] events_of(self.fed() + t) == self.emitted()
                + events_of(self.pending() + t) by {
                assert(self.fed() + t =~= old(self).fed() + (c + t));
                assert(self.pending() + t =~= old(self).pending() + (c + t));
                assert(events_of(old(self).fed() + (c + t)) == old(self).emitted() + events_of(
                    old(self).pending() + (c + t),
                ));
            }
            assert forall|k: int| 0 <= k < self.emitted().len() implies !is_terminal(
                self.emitted()[k],
            ) by {
                assert(self.emitted()[k] == old(self).emitted()[k]);
            }
        }
    }

    /// Declares the input complete: the source has no more chunks.
    pub fn close(&mut self)
        requires
            old(self).wf(),
        ensures
            final(self).wf(),
            final(self).input_closed(),
            final(self).fed() == old(self).fed(),
            final(self).emitted() == old(self).emitted(),
            final(self).finished() == old(self).finished(),
    {
        self.src_closed = true;
        proof {
            if !self.done {
                assert forall|t: Seq<u8>| #[trigger] events_of(self.fed() + t) == self.emitted()
                    + events_of(self.pending() + t) by {
                    assert(events_of(old(self).fed() + t) == old(self).emitted() + events_of(
                        old(self).pending() + t,
                    ));
                }
                assert forall|k: int| 0 <= k < self.emitted().len() implies !is_terminal(
                    self.emitted()[k],
                ) by {
                    assert(self.emitted()[k] == old(self).emitted()[k]);
                }
            }
        }
    }

    /// Produces the next decoded event, reports that input is needed, or
    /// reports the end of the stream. Frames already buffered are always
    /// drained before input is requested, and once the stream has
    /// finished — in particular once the terminal sentinel was decoded —
    /// it never asks for input again.
    pub fn next_event(&mut self) -> (r: StreamStep)
        requires
            old(self).wf(),
        ensures
            final(self).wf(),
            final(self).fed() == old(self).fed(),
            final(self).input_closed() == old(self).input_closed(),
            old(self).finished() ==> r is Finished,
            match r {
                StreamStep::Event(e) => {
                    &&& !old(self).finished()
                    &&& final(self).emitted() == old(self).emitted() + seq![e@]
                    &&& final(self).pending().len() < old(self).pending().len()
                    &&& is_terminal(e@) ==> final(self).finished()
                    &&& final(self).finished() ==> events_of(final(self).fed())
                        == final(self).emitted()
                },
                StreamStep::NeedInput => {
                    &&& !old(self).finished()
                    &&& !old(self).input_closed()
                    &&& next_event_frame(old(self).pending(), event_delim()) is None
                    &&& final(self).emitted() == old(self).emitted()
                    &&& !final(self).finished()
                },
                StreamStep::Finished => {
                    &&& final(self).finished()
                    &&& final(self).emitted() == old(self).emitted()
                    &&& events_of(final(self).fed()) == final(self).emitted()
                },
            },
    {
        if self.done {
            return StreamStep::Finished;
        }
        let ghost cur = self.pending();
        let ghost d = event_delim();
        let frame_opt = self.splitter.next_trimmed_frame();
        match frame_opt {
            Option::Some(frame) => {
                let ghost p = next_event_frame(cur, d).unwrap();
                let ghost rest = self.pending();
                proof {
                    lemma_next_event_frame_len(cur, d);
                }
                let ev = decode_frame(frame.as_slice());
                let ghost e = ev@;
                self.hist_emitted = Ghost(old(self).emitted() + seq![e]);
                if matches!(ev, DecodedEvent::Payload(_)) {
                    proof {
                        assert(!is_terminal(e));
                        assert forall|t: Seq<u8>| #[trigger] events_of(self.fed() + t)
                            == self.emitted() + events_of(self.pending() + t) by {
                            lemma_next_event_frame_append(cur, t, d);
                            assert(events_of(cur + t) == seq![e] + events_of(rest + t));
                            assert(events_of(old(self).fed() + t) == old(self).emitted()
                                + events_of(cur + t));
                            assert(old(self).emitted() + (seq![e] + events_of(rest + t))
                                =~= (old(self).emitted() + seq![e]) + events_of(rest + t));
                        }
                        assert forall|k: int| 0 <= k < self.emitted().len() implies !is_terminal(
                            self.emitted()[k],
                        ) by {
                            if k < old(self).emitted().len() {
                                assert(!is_terminal(old(self).emitted()[k]));
                            }
                        }
                    }
                    StreamStep::Event(ev)
                } else {
                    self.done = true;
                    proof {
                        assert(is_terminal(e));
                        assert forall|t: Seq<u8>| #[trigger] events_of(self.fed() + t)
                            == self.emitted() by {
                            lemma_next_event_frame_append(cur, t, d);
                            assert(events_of(cur + t) == seq![e]);
                            assert(events_of(old(self).fed() + t) == old(self).emitted()
                                + events_of(cur + t));
                            assert(old(self).emitted() + seq![e] =~= self.emitted());
                        }
                        assert(self.fed() + Seq::<u8>::empty() =~= self.fed());
                        assert(events_of(self.fed()) == self.emitted());
                    }
                    StreamStep::Event(ev)
                }
            },
            Option::None => {
                let ghost resid = self.pending();
                proof {
                    // pending is now the residue; any continuation means the same.
                    assert forall|t: Seq<u8>| #[trigger] events_of(self.fed() + t)
                        == self.emitted() + events_of(self.pending() + t) by {
                        lemma_events_skip_ws(cur, t);
                        lemma_events_congruence(cur + t, resid + t);
                        assert(events_of(old(self).fed() + t) == old(self).emitted() + events_of(
                            cur + t,
                        ));
                    }
                }
                if !self.src_closed {
                    return StreamStep::NeedInput;
                }
                let rest = self.splitter.take_rest();
                let trimmed = vstd::slice::slice_to_vec(trim_ascii(rest.as_slice()));
                proof {
                    lemma_find_delim_spec(resid, d);
                    assert(resid + Seq::<u8>::empty() =~= resid);
                    assert(self.fed() + Seq::<u8>::empty() =~= self.fed());
                    assert(events_of(self.fed()) == self.emitted() + events_of(resid));
                    assert(residue_of(resid, d) == resid);
                    assert(trimmed@ == trim_spec(resid));
                }
                if trimmed.len() == 0 {
                    self.done = true;
                    proof {
                        assert(events_of(resid) =~= Seq::<EventModel>::empty());
                        assert(self.emitted() + events_of(resid) =~= self.emitted());
                    }
                    return StreamStep::Finished;
                }
                let ev = decode_frame(trimmed.as_slice());
                let ghost e = ev@;
                self.hist_emitted = Ghost(old(self).emitted() + seq![e]);
                self.done = true;
                proof {
                    assert(events_of(resid) =~= seq![e]);
                    assert(old(self).emitted() + events_of(resid) =~= self.emitted());
                    lemma_trim_accounts_for_all_bytes(resid);
                    lemma_residue_len(cur, d);
                }
                StreamStep::Event(ev)
            },
        }
    }
}

/// Chunk boundaries cannot matter: two fully drained streams that were
/// fed the same bytes overall emitted the same events, however
/// differently those bytes were cut into chunks — even with a record or
/// the delimiter itself split across chunks.
pub proof fn lemma_reassembly_invariant(a: &EventStream, b: &EventStream)
    requires
        a.wf(),
        b.wf(),
        a.finished(),
        b.finished(),
        a.fed() == b.fed(),
    ensures
        a.emitted() == b.emitted(),
{
}

/// Decodes a whole transmission delivered as the given chunks: feeds
/// them in order, closes the input when they run out, and drains every
/// event. The events are exactly the meaning of the concatenated bytes,
/// so the chunking can have no effect on the result.
pub fn decode_chunks(chunks: &Vec<Vec<u8>>) -> (r: Vec<DecodedEvent>)
    ensures
        r@.map_values(|e: DecodedEvent| e@) == events_of(
            concat_bytes(chunks@.map_values(|c: Vec<u8>| c@)),
        ),
{
    let ghost cs = chunks@.map_values(|c: Vec<u8>| c@);
    let mut es = EventStream::new();
    let mut out: Vec<DecodedEvent> = Vec::new();
    let mut i: usize = 0;
    proof {
        assert(cs.take(0) =~= Seq::<Seq<u8>>::empty());
        assert(out@.map_values(|e: DecodedEvent| e@) =~= es.emitted());
    }
    loop
        invariant
            es.wf(),
            0 <= i <= chunks@.len(),
            cs == chunks@.map_values(|c: Vec<u8>| c@),
            cs.len() == chunks@.len(),
            es.fed() == concat_bytes(cs.take(i as int)),
            es.input_closed() ==> i == chunks@.len(),
            out@.map_values(|e: DecodedEvent| e@) == es.emitted(),
        decreases
            chunks@.len() - i,
            (if es.input_closed() { 0int } else { 1int }),
            es.pending().len(),
            (if es.finished() { 0int } else { 1int }),
    {
        let step = es.next_event();
        match step {
            StreamStep::Event(e) => {
                let ghost before = out@;
                out.push(e);
                proof {
                    assert(out@.map_values(|ev: DecodedEvent| ev@) =~= es.emitted());
                }
            },
            StreamStep::NeedInput => {
                if i < chunks.len() {
                    let chunk = vstd::slice::slice_to_vec(chunks[i].as_slice());
                    proof {
                        assert(chunk@ == cs[i as int]);
                    }
                    es.feed(chunk);
                    i = i + 1;
                    proof {
                        lemma_concat_take_snoc(cs, i - 1);
                    }
                } else {
                    es.close();
                }
            },
            StreamStep::Finished => {
                proof {
                    if es.input_closed() {
                        assert(cs.take(i as int) =~= cs);
                    } else {
                        let rest_bytes = concat_bytes(cs.skip(i as int));
                        assert(events_of(es.fed() + rest_bytes) == es.emitted());
                        lemma_concat_split(cs, i as int);
                    }
                }
                return out;
            },
        }
    }
}

} // verus!
