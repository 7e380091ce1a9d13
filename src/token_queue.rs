//! The byte queue behind a token pool: pipe-like reads from the front and
//! appends at the back, each one whole operation on the queue's contents.

use vstd::prelude::*;

verus! {

/// A first-in first-out queue of token bytes.
#[derive(Debug)]
pub struct TokenQueue {
    bytes: Vec<u8>,
}

impl View for TokenQueue {
    type V = Seq<u8>;

    closed spec fn view(&self) -> Seq<u8> {
        self.bytes@
    }
}

/// How many bytes a read of at most `max` bytes takes from `q`.
pub open spec fn read_len(q: Seq<u8>, max: nat) -> nat {
    if max < q.len() { max } else { q.len() }
}

impl TokenQueue {
    /// An empty queue.
    pub fn new() -> (q: TokenQueue)
        ensures
            q@ == Seq::<u8>::empty(),
    {
        TokenQueue { bytes: Vec::new() }
    }

    /// A queue that holds `bytes`, first byte at the front.
    pub fn from_bytes(bytes: Vec<u8>) -> (q: TokenQueue)
        ensures
            q@ == bytes@,
    {
        TokenQueue { bytes }
    }

    /// Everything queued, front first.
    pub fn contents(&self) -> (r: &[u8])
        ensures
            r@ == self@,
    {
        self.bytes.as_slice()
    }

    /// The number of queued bytes.
    pub fn available(&self) -> (n: usize)
        ensures
            n == self@.len(),
    {
        self.bytes.len()
    }

    /// Takes up to `max` bytes from the front of the queue, in order.
    pub fn read(&mut self, max: usize) -> (r: Vec<u8>)
        ensures
            r@ == old(self)@.take(read_len(old(self)@, max as nat) as int),
            final(self)@ == old(self)@.skip(read_len(old(self)@, max as nat) as int),
    {
        let n: usize = if max < self.bytes.len() { max } else { self.bytes.len() };
        let mut rest = self.bytes.split_off(n);
        core::mem::swap(&mut self.bytes, &mut rest);
        rest
    }

    /// Appends all of `buf` at the back of the queue.
    pub fn write_all(&mut self, buf: &[u8])
        ensures
            final(self)@ == old(self)@ + buf@,
    {
        self.bytes.extend_from_slice(buf);
        assert(final(self)@ =~= old(self)@ + buf@);
    }

    /// Appends `buf` at the back of the queue and says how many bytes went in.
    pub fn write(&mut self, buf: &[u8]) -> (n: usize)
        ensures
            final(self)@ == old(self)@ + buf@,
            n == buf@.len(),
    {
        self.write_all(buf);
        buf.len()
    }
}

} // verus!
