//! The buffered raw-byte consumption mode.
//!
//! Consumers that want bytes rather than events — image or audio
//! downloads, or a caller running its own decoder — see the chunk buffer
//! through a conventional fill/consume interface: fill exposes what is
//! buffered as one contiguous slice, consume removes exactly the bytes
//! the caller has dealt with, and an empty fill after the input closes
//! signals end of input. The asynchronous pull from the transport stays
//! with the caller; every buffer decision is verified here.

use vstd::prelude::*;

use crate::buffer::ChunkBuffer;

verus! {

/// A pull-based buffered byte reader over the chunk buffer.
pub struct ByteReader {
    buf: ChunkBuffer,
    src_closed: bool,
}

impl ByteReader {
    /// The bytes buffered and not yet consumed, in arrival order.
    pub closed spec fn buffered(&self) -> Seq<u8> {
        self.buf@
    }

    /// Whether the source has been declared exhausted.
    pub closed spec fn input_closed(&self) -> bool {
        self.src_closed
    }

    /// An empty reader with the input still open.
    pub fn new() -> (r: ByteReader)
        ensures
            r.buffered() == Seq::<u8>::empty(),
            !r.input_closed(),
    {
        ByteReader { buf: ChunkBuffer::new(), src_closed: false }
    }

    /// Whether a fill would have to pull from the source first: nothing
    /// is buffered and the source is not yet exhausted.
    pub fn needs_input(&self) -> (r: bool)
        ensures
            r == (self.buffered().len() == 0 && !self.input_closed()),
    {
        self.buf.is_empty() && !self.src_closed
    }

    /// Whether the source has been declared exhausted.
    pub fn is_input_closed(&self) -> (r: bool)
        ensures
            r == self.input_closed(),
    {
        self.src_closed
    }

    /// How many bytes are buffered.
    pub fn len(&self) -> (r: usize)
        ensures
            r == self.buffered().len(),
    {
        self.buf.len()
    }

    /// Whether nothing is buffered.
    pub fn is_empty(&self) -> (r: bool)
        ensures
            r == (self.buffered().len() == 0),
    {
        self.buf.is_empty()
    }

    /// Accepts one chunk pulled from the source.
    pub fn feed(&mut self, chunk: Vec<u8>)
        requires
            !old(self).input_closed(),
        ensures
            final(self).buffered() == old(self).buffered() + chunk@,
            final(self).input_closed() == old(self).input_closed(),
    {
        self.buf.append(chunk);
    }

    /// Declares the source exhausted: from now on an empty fill means
    /// end of input, not a request for more.
    pub fn close(&mut self)
        ensures
            final(self).buffered() == old(self).buffered(),
            final(self).input_closed(),
    {
        self.src_closed = true;
    }

    /// The buffered bytes as one contiguous slice, without consuming
    /// them. The caller consumes what it used; an empty slice after the
    /// input closed is the end-of-input signal.
    pub fn fill(&self) -> (r: &[u8])
        ensures
            r@ == self.buffered(),
    {
        self.buf.as_slice()
    }

    /// Removes the first `n` bytes; the caller must not consume more
    /// than the most recent fill returned.
    pub fn consume(&mut self, n: usize)
        requires
            n <= old(self).buffered().len(),
        ensures
            final(self).buffered() == old(self).buffered().skip(n as int),
            final(self).input_closed() == old(self).input_closed(),
    {
        self.buf.consume(n);
    }

    /// Removes and returns the first `n` bytes.
    pub fn take(&mut self, n: usize) -> (r: Vec<u8>)
        requires
            n <= old(self).buffered().len(),
        ensures
            r@ == old(self).buffered().take(n as int),
            final(self).buffered() == old(self).buffered().skip(n as int),
            final(self).input_closed() == old(self).input_closed(),
    {
        self.buf.take_prefix(n)
    }
}

/// A chunk source paired with the buffered reader that adapts it to a
/// conventional read interface. The source `inner` is driven by the
/// caller's unverified plumbing; every byte it yields goes through
/// `reader`, whose discipline is verified above.
pub struct StreamTokioAsyncRead<S> {
    /// The asynchronous, fallible chunk source being adapted.
    pub inner: S,
    /// The verified buffer between the source and the consumer.
    pub reader: ByteReader,
}

impl<S> StreamTokioAsyncRead<S> {
    /// Wraps a chunk source with an empty buffer.
    pub fn new(inner: S) -> (r: StreamTokioAsyncRead<S>)
        ensures
            r.inner == inner,
            r.reader.buffered() == Seq::<u8>::empty(),
            !r.reader.input_closed(),
    {
        StreamTokioAsyncRead { inner, reader: ByteReader::new() }
    }

    /// Moves up to `max` buffered bytes out, in order: the transfer step
    /// of a read call, which never hands a byte out twice and never
    /// reorders.
    pub fn read_buffered(&mut self, max: usize) -> (r: Vec<u8>)
        ensures
            final(self).inner == old(self).inner,
            final(self).reader.input_closed() == old(self).reader.input_closed(),
            ({
                let take_n = if max <= old(self).reader.buffered().len() {
                    max as int
                } else {
                    old(self).reader.buffered().len() as int
                };
                &&& r@ == old(self).reader.buffered().take(take_n)
                &&& final(self).reader.buffered() == old(self).reader.buffered().skip(take_n)
            }),
    {
        let available = self.reader.len();
        let n = if max <= available {
            max
        } else {
            available
        };
        self.reader.take(n)
    }
}

} // verus!
