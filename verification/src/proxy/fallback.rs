use vstd::prelude::*;

use crate::protocol::codec::extend_bytes;

verus! {

/// Bytes to be handed out in order, with the position reached so far.
struct PrefixBuffer {
    bytes: Vec<u8>,
    position: usize,
}

impl PrefixBuffer {
    #[verifier::type_invariant]
    spec fn position_in_bounds(self) -> bool {
        self.position <= self.bytes@.len()
    }

    /// The bytes not yet handed out.
    closed spec fn pending(&self) -> Seq<u8> {
        self.bytes@.subrange(self.position as int, self.bytes@.len() as int)
    }

    fn new(bytes: Vec<u8>) -> (r: Self)
        ensures
            r.pending() == bytes@,
    {
        let r = PrefixBuffer { bytes, position: 0 };
        assert(r.pending() =~= r.bytes@);
        r
    }

    fn remaining(&self) -> (n: usize)
        ensures
            n == self.pending().len(),
    {
        proof {
            use_type_invariant(self);
        }
        self.bytes.len() - self.position
    }

    fn take(&mut self, max: usize) -> (out: Vec<u8>)
        ensures
            out@.len() == if max < old(self).pending().len() {
                max as int
            } else {
                old(self).pending().len() as int
            },
            out@ + final(self).pending() == old(self).pending(),
    {
        proof {
            use_type_invariant(&*self);
        }
        let remaining = self.bytes.len() - self.position;
        let n = if max < remaining {
            max
        } else {
            remaining
        };
        let mut out: Vec<u8> = Vec::new();
        extend_bytes(&mut out, &self.bytes.as_slice()[self.position..self.position + n]);
        let ghost before = self.pending();
        self.position = self.position + n;
        assert(out@ + self.pending() =~= before);
        out
    }
}

/// A stream whose reads first return bytes already taken from it (such as the
/// payload peeked after a request header) and then continue with the stream
/// itself; writes go straight to the stream.
pub struct PrefixedStream<S> {
    prefix: PrefixBuffer,
    inner: S,
}

impl<S> PrefixedStream<S> {
    /// The prefix bytes not yet read.
    pub closed spec fn pending(&self) -> Seq<u8> {
        self.prefix.pending()
    }

    /// The underlying stream.
    pub closed spec fn inner(&self) -> S {
        self.inner
    }

    /// Wraps `inner`, with `prefix` to be read first.
    pub fn new(prefix: Vec<u8>, inner: S) -> (r: Self)
        ensures
            r.pending() == prefix@,
            r.inner() == inner,
    {
        PrefixedStream { prefix: PrefixBuffer::new(prefix), inner }
    }

    /// How many prefix bytes are still to be read.
    pub fn prefix_remaining(&self) -> (n: usize)
        ensures
            n == self.pending().len(),
    {
        self.prefix.remaining()
    }

    /// Reads up to `max` of the pending prefix bytes.
    pub fn read_prefix(&mut self, max: usize) -> (out: Vec<u8>)
        ensures
            out@.len() == if max < old(self).pending().len() {
                max as int
            } else {
                old(self).pending().len() as int
            },
            out@ + final(self).pending() == old(self).pending(),
            final(self).inner() == old(self).inner(),
    {
        self.prefix.take(max)
    }

    /// The underlying stream, for reading once the prefix is used up and for
    /// writing.
    pub fn inner_mut(&mut self) -> (s: &mut S)
        ensures
            *s == old(self).inner(),
            final(self).inner() == *final(s),
            final(self).pending() == old(self).pending(),
    {
        &mut self.inner
    }
}

} // verus!
