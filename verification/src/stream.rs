//! Accounting for the content of a package that a client streams behind its
//! install request: exactly as many bytes are taken off the wire as the
//! request announced.

use vstd::prelude::*;

verus! {

/// The most bytes that are read from the peer at once.
pub const CHUNK_SIZE: usize = 1024 * 1024;

/// The number of chunks that may wait for the event loop.
pub const STREAM_CAPACITY: usize = 10;

/// The progress of one package stream.
#[derive(Clone, Copy, Debug, PartialEq, Eq)]
pub struct InstallStream {
    size: u64,
    taken: u64,
}

impl InstallStream {
    /// The rule that every stream keeps: no more is taken than announced.
    #[verifier::type_invariant]
    pub closed spec fn wf(self) -> bool {
        self.taken <= self.size
    }

    /// The number of bytes that the request announced.
    pub closed spec fn size(self) -> nat {
        self.size as nat
    }

    /// The number of bytes taken so far.
    pub closed spec fn taken(self) -> nat {
        self.taken as nat
    }

    /// The number of bytes still to come.
    pub open spec fn left(self) -> nat {
        (self.size() - self.taken()) as nat
    }

    /// The stream of a package of `size` bytes, of which nothing is taken yet.
    pub fn new(size: u64) -> (s: InstallStream)
        ensures
            s.size() == size,
            s.taken() == 0,
    {
        InstallStream { size, taken: 0 }
    }

    /// The number of bytes still to come. What is taken and what is still to
    /// come make up what was announced: never is more taken than that.
    pub fn remaining(&self) -> (n: u64)
        ensures
            n == self.left(),
            self.taken() + n == self.size(),
    {
        proof {
            use_type_invariant(self);
        }
        self.size - self.taken
    }

    /// Whether all announced bytes are taken.
    pub fn is_complete(&self) -> (r: bool)
        ensures
            r == (self.left() == 0),
    {
        proof {
            use_type_invariant(self);
        }
        self.taken == self.size
    }

    /// Says how many of the `buffered` bytes that the frame decoder has read
    /// ahead belong to the package, and takes them: all of them, or as many
    /// as are still to come where the decoder has read past the package.
    /// What is not taken stays with the decoder for the next frame.
    pub fn take_buffered(&mut self, buffered: usize) -> (n: usize)
        ensures
            final(self).size() == old(self).size(),
            n == if buffered <= old(self).left() {
                buffered as nat
            } else {
                old(self).left()
            },
            final(self).taken() == old(self).taken() + n,
    {
        proof {
            use_type_invariant(&*self);
        }
        let left = self.size - self.taken;
        if buffered as u64 <= left {
            self.taken = self.taken + buffered as u64;
            buffered
        } else {
            self.taken = self.size;
            left as usize
        }
    }

    /// The most bytes to read from the peer next: a chunk, or what is still
    /// to come where that is less. Zero when the stream is complete.
    pub fn next_read(&self) -> (n: usize)
        ensures
            n == if self.left() <= CHUNK_SIZE {
                self.left()
            } else {
                CHUNK_SIZE as nat
            },
    {
        proof {
            use_type_invariant(self);
        }
        let left = self.size - self.taken;
        if left <= CHUNK_SIZE as u64 {
            left as usize
        } else {
            CHUNK_SIZE
        }
    }

    /// Takes `n` bytes that were read from the peer. A read of more than is
    /// still to come is refused and changes nothing.
    pub fn take_read(&mut self, n: usize) -> (accepted: bool)
        ensures
            final(self).size() == old(self).size(),
            accepted == (n <= old(self).left()),
            accepted ==> final(self).taken() == old(self).taken() + n,
            !accepted ==> final(self).taken() == old(self).taken(),
    {
        proof {
            use_type_invariant(&*self);
        }
        let left = self.size - self.taken;
        if n as u64 <= left {
            self.taken = self.taken + n as u64;
            true
        } else {
            false
        }
    }
}

} // verus!
