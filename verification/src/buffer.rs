//! The byte queue that accumulates transport chunks.
//!
//! Appended chunks are flattened into one logical byte sequence; consuming
//! a prefix only moves an offset, so the retained tail is never copied,
//! and occasional compaction keeps the memory proportional to what is
//! still unconsumed. The view of the buffer is exactly the bytes that have
//! arrived and have not been taken out yet.

use vstd::prelude::*;

use crate::scan::find_delim;
use crate::scan::lemma_find_delim_first;
use crate::scan::lemma_find_delim_spec;
use crate::scan::matches_at;

verus! {

/// An ordered queue of bytes with cheap removal at the front.
pub struct ChunkBuffer {
    data: Vec<u8>,
    start: usize,
}

impl View for ChunkBuffer {
    type V = Seq<u8>;

    /// The not-yet-consumed bytes, in arrival order.
    closed spec fn view(&self) -> Seq<u8> {
        self.data@.skip(self.start as int)
    }
}

impl ChunkBuffer {
    #[verifier::type_invariant]
    spec fn inv(&self) -> bool {
        self.start <= self.data@.len()
    }

    /// An empty buffer.
    pub fn new() -> (r: ChunkBuffer)
        ensures
            r@ == Seq::<u8>::empty(),
    {
        ChunkBuffer { data: Vec::new(), start: 0 }
    }

    /// How many bytes are buffered.
    pub fn len(&self) -> (r: usize)
        ensures
            r == self@.len(),
    {
        proof {
            use_type_invariant(self);
        }
        self.data.len() - self.start
    }

    /// Whether nothing is buffered.
    pub fn is_empty(&self) -> (r: bool)
        ensures
            r == (self@.len() == 0),
    {
        self.len() == 0
    }

    /// The byte at offset `i` from the front.
    pub fn get(&self, i: usize) -> (r: u8)
        requires
            i < self@.len(),
        ensures
            r == self@[i as int],
    {
        proof {
            use_type_invariant(self);
        }
        let total = self.data.len();
        proof {
            assert(self.start + i < total);
        }
        self.data[self.start + i]
    }

    /// The buffered bytes as one contiguous slice.
    pub fn as_slice(&self) -> (r: &[u8])
        ensures
            r@ == self@,
    {
        proof {
            use_type_invariant(self);
        }
        vstd::slice::slice_subrange(self.data.as_slice(), self.start, self.data.len())
    }

    /// Appends a chunk at the logical tail.
    pub fn append(&mut self, chunk: Vec<u8>)
        ensures
            final(self)@ == old(self)@ + chunk@,
    {
        proof {
            use_type_invariant(&*self);
        }
        let mut tail = chunk;
        let saved = self.start;
        self.start = 0;
        let mut grown: Vec<u8> = Vec::new();
        core::mem::swap(&mut self.data, &mut grown);
        grown.append(&mut tail);
        core::mem::swap(&mut self.data, &mut grown);
        self.start = saved;
        proof {
            assert(self.data@.skip(self.start as int) =~= old(self)@ + chunk@);
        }
    }

    /// Drops the already-consumed front when it outweighs the live tail,
    /// so consumed bytes do not occupy memory forever.
    fn compact(&mut self)
        ensures
            final(self)@ == old(self)@,
    {
        proof {
            use_type_invariant(&*self);
        }
        if self.start > 0 && self.start >= self.data.len() - self.start {
            let tail = vstd::slice::slice_to_vec(
                vstd::slice::slice_subrange(self.data.as_slice(), self.start, self.data.len()),
            );
            self.start = 0;
            self.data = tail;
            proof {
                assert(self.data@.skip(0) =~= self.data@);
            }
        }
    }

    /// Removes the first `n` bytes without returning them.
    pub fn consume(&mut self, n: usize)
        requires
            n <= old(self)@.len(),
        ensures
            final(self)@ == old(self)@.skip(n as int),
    {
        proof {
            use_type_invariant(&*self);
        }
        let total = self.data.len();
        proof {
            assert(self.start + n <= total);
        }
        self.start = self.start + n;
        proof {
            assert(self.data@.skip(self.start as int) =~= old(self)@.skip(n as int));
        }
        self.compact();
    }

    /// Removes and returns the first `n` bytes. Together with `consume`
    /// this is the only way bytes leave the buffer, and each call hands a
    /// byte out at most once.
    pub fn take_prefix(&mut self, n: usize) -> (r: Vec<u8>)
        requires
            n <= old(self)@.len(),
        ensures
            r@ == old(self)@.take(n as int),
            final(self)@ == old(self)@.skip(n as int),
    {
        proof {
            use_type_invariant(&*self);
        }
        let total = self.data.len();
        proof {
            assert(self.start + n <= total);
        }
        let taken = vstd::slice::slice_to_vec(
            vstd::slice::slice_subrange(self.data.as_slice(), self.start, self.start + n),
        );
        proof {
            assert(taken@ =~= old(self)@.take(n as int));
        }
        self.consume(n);
        taken
    }

    /// Whether the delimiter occurs at offset `i` of the buffered bytes.
    fn matches_here(&self, delimiter: &[u8], i: usize) -> (r: bool)
        requires
            i + delimiter@.len() <= self@.len(),
        ensures
            r == matches_at(self@, delimiter@, i as int),
    {
        let n: usize = self.len();
        let dl: usize = delimiter.len();
        let mut j: usize = 0;
        while j < dl
            invariant
                0 <= j <= dl,
                dl == delimiter@.len(),
                n == self@.len(),
                i + dl <= n,
                forall|k: int| 0 <= k < j ==> self@[i + k] == delimiter@[k],
            decreases dl - j,
        {
            if self.get(i + j) != *vstd::slice::slice_index_get(delimiter, j) {
                proof {
                    assert(self@.subrange(i as int, i + dl)[j as int] == self@[i + j]);
                }
                return false;
            }
            j = j + 1;
        }
        proof {
            assert(self@.subrange(i as int, i + dl) =~= delimiter@);
        }
        true
    }

    /// Scans for the first occurrence of `delimiter` at or after `from`.
    /// Starting past the known-clean part of the buffer is what lets the
    /// splitter avoid rescanning bytes it has already rejected.
    pub fn find_from(&self, delimiter: &[u8], from: usize) -> (r: Option<usize>)
        requires
            delimiter@.len() > 0,
        ensures
            match r {
                Option::Some(i) => from <= i && matches_at(self@, delimiter@, i as int)
                    && forall|j: int| from <= j < i ==> !matches_at(self@, delimiter@, j),
                Option::None => forall|j: int| from <= j ==> !matches_at(self@, delimiter@, j),
            },
    {
        let n: usize = self.len();
        let dl: usize = delimiter.len();
        if dl > n {
            return None;
        }
        let mut i: usize = from;
        while i <= n - dl
            invariant
                from <= i,
                1 <= dl <= n,
                n == self@.len(),
                dl == delimiter@.len(),
                forall|j: int| from <= j < i ==> !matches_at(self@, delimiter@, j),
            decreases n - i,
        {
            if self.matches_here(delimiter, i) {
                return Some(i);
            }
            i = i + 1;
        }
        None
    }

    /// The position of the first complete delimiter in the buffer, as
    /// `find_delim` gives it.
    pub fn find(&self, delimiter: &[u8]) -> (r: Option<usize>)
        requires
            delimiter@.len() > 0,
        ensures
            match r {
                Option::Some(i) => find_delim(self@, delimiter@) == Option::<int>::Some(i as int),
                Option::None => find_delim(self@, delimiter@) is None,
            },
    {
        let r = self.find_from(delimiter, 0);
        proof {
            match r {
                Option::Some(i) => {
                    lemma_find_delim_first(self@, delimiter@, i as int);
                },
                Option::None => {
                    lemma_find_delim_spec(self@, delimiter@);
                },
            }
        }
        r
    }
}

} // verus!
