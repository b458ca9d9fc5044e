//! A read cursor over a borrowed byte slice.

use vstd::prelude::*;
use vstd::slice::slice_subrange;

verus! {

/// A byte slice together with a read position inside it.
pub struct DecodeBuffer<'a> {
    position: usize,
    inner: &'a [u8],
}

impl<'a> DecodeBuffer<'a> {
    /// The position never passes the end of the slice.
    #[verifier::type_invariant]
    closed spec fn inv(&self) -> bool {
        self.position <= self.inner@.len()
    }

    /// All bytes of the underlying slice.
    pub closed spec fn data(&self) -> Seq<u8> {
        self.inner@
    }

    /// Number of bytes already consumed.
    pub closed spec fn offset(&self) -> nat {
        if self.position <= self.inner@.len() {
            self.position as nat
        } else {
            self.inner@.len()
        }
    }

    /// The position never passes the end of the data.
    pub proof fn lemma_offset_in_bounds(&self)
        ensures
            self.offset() <= self.data().len(),
    {
    }

    /// The bytes that have not been consumed yet.
    pub open spec fn remaining(&self) -> Seq<u8> {
        self.data().skip(self.offset() as int)
    }

    /// Starts reading at the first byte of `buffer`.
    pub fn new(buffer: &'a [u8]) -> (r: DecodeBuffer<'a>)
        ensures
            r.data() == buffer@,
            r.offset() == 0,
    {
        DecodeBuffer { position: 0, inner: buffer }
    }

    /// Number of bytes consumed so far.
    pub fn position(&self) -> (p: usize)
        ensures
            p as nat == self.offset(),
            p <= self.data().len(),
    {
        proof {
            use_type_invariant(self);
        }
        self.position
    }

    /// Moves the position `n` bytes forward, stopping at the end of the data.
    pub fn advance(&mut self, n: usize)
        ensures
            final(self).data() == old(self).data(),
            final(self).offset() == if old(self).offset() + n <= old(self).data().len() {
                old(self).offset() + n
            } else {
                old(self).data().len() as int
            },
    {
        proof {
            use_type_invariant(&*self);
        }
        let left: usize = self.inner.len() - self.position;
        if n <= left {
            self.position = self.position + n;
        } else {
            self.position = self.inner.len();
        }
    }

    /// Hands out the next `n` bytes and moves past them, or leaves the
    /// buffer untouched when fewer than `n` bytes are left.
    pub fn take(&mut self, n: usize) -> (taken: Option<&'a [u8]>)
        ensures
            final(self).data() == old(self).data(),
            n <= old(self).remaining().len() ==> taken.is_some()
                && taken.unwrap()@ == old(self).remaining().take(n as int)
                && final(self).offset() == old(self).offset() + n
                && final(self).remaining() == old(self).remaining().skip(n as int),
            n > old(self).remaining().len() ==> taken.is_none()
                && final(self).offset() == old(self).offset(),
    {
        proof {
            use_type_invariant(&*self);
        }
        let left: usize = self.inner.len() - self.position;
        if n <= left {
            let s = slice_subrange(self.inner, self.position, self.position + n);
            assert(s@ =~= self.remaining().take(n as int));
            let ghost before = self.remaining();
            self.position = self.position + n;
            assert(self.remaining() =~= before.skip(n as int));
            Some(s)
        } else {
            None
        }
    }

    /// The unread rest of the data.
    pub fn slice(&self) -> (s: &'a [u8])
        ensures
            s@ == self.remaining(),
            self.offset() + s@.len() == self.data().len(),
    {
        proof {
            use_type_invariant(self);
        }
        let s = slice_subrange(self.inner, self.position, self.inner.len());
        assert(s@ =~= self.remaining());
        s
    }
}

} // verus!
