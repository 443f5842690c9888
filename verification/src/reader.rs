use crate::codec::TssError;
use vstd::prelude::*;

verus! {

/// A bounds-checked, forward-only reader over a borrowed byte buffer. The
/// position only ever moves forward, and every read checks the remaining
/// byte count first, failing with `TssError::InsufficientData` when the
/// buffer is too short.
#[derive(Debug)]
pub struct TssReader<'a> {
    data: &'a [u8],
    position: usize,
}

impl<'a> TssReader<'a> {
    /// The whole underlying buffer.
    pub closed spec fn spec_data(&self) -> Seq<u8> {
        self.data@
    }

    /// The current read offset into the buffer.
    pub closed spec fn spec_position(&self) -> int {
        self.position as int
    }

    /// The cursor invariant: the position never passes the end of the buffer
    /// (whose length, being a slice's, fits in a `usize`).
    pub open spec fn wf(&self) -> bool {
        0 <= self.spec_position() <= self.spec_data().len() <= usize::MAX
    }

    /// The bytes not yet consumed.
    pub open spec fn unread(&self) -> Seq<u8> {
        self.spec_data().skip(self.spec_position())
    }

    /// Create a new reader positioned at the start of `data`.
    pub fn new(data: &'a [u8]) -> (r: Self)
        ensures
            r.wf(),
            r.spec_data() == data@,
            r.spec_position() == 0,
            r.unread() == data@,
    {
        let len = data.len();
        let r = Self { data, position: 0 };
        proof {
            assert(len <= usize::MAX);
            assert(r.unread() =~= data@);
        }
        r
    }

    /// The current position in the buffer.
    pub fn position(&self) -> (r: usize)
        ensures
            r == self.spec_position(),
    {
        self.position
    }

    /// The number of bytes not yet consumed.
    pub fn remaining(&self) -> (r: usize)
        requires
            self.wf(),
        ensures
            r == self.unread().len(),
    {
        self.data.len() - self.position
    }

    /// Whether at least `count` bytes remain unread.
    pub fn has_remaining(&self, count: usize) -> (r: bool)
        requires
            self.wf(),
        ensures
            r == (count <= self.unread().len()),
    {
        self.remaining() >= count
    }

    /// Consume and return a single byte.
    pub fn read_u8(&mut self) -> (r: Result<u8, TssError>)
        requires
            old(self).wf(),
        ensures
            final(self).wf(),
            final(self).spec_data() == old(self).spec_data(),
            old(self).unread().len() >= 1 ==> (r matches Ok(b) && b == old(self).unread()[0]
                && final(self).spec_position() == old(self).spec_position() + 1),
            old(self).unread().len() == 0 ==> r == Err::<u8, TssError>(TssError::InsufficientData)
                && final(self).spec_position() == old(self).spec_position(),
    {
        if !self.has_remaining(1) {
            return Err(TssError::InsufficientData);
        }
        let value = self.data[self.position];
        self.position = self.position + 1;
        Ok(value)
    }

    /// Consume exactly `count` bytes and return them as a new vector.
    pub fn read_bytes(&mut self, count: usize) -> (r: Result<Vec<u8>, TssError>)
        requires
            old(self).wf(),
        ensures
            final(self).wf(),
            final(self).spec_data() == old(self).spec_data(),
            count <= old(self).unread().len() ==> (r matches Ok(v) && v@ == old(self).unread()
                .take(count as int) && final(self).spec_position() == old(self).spec_position()
                + count),
            count > old(self).unread().len() ==> r == Err::<Vec<u8>, TssError>(
                TssError::InsufficientData,
            ) && final(self).spec_position() == old(self).spec_position(),
    {
        if !self.has_remaining(count) {
            return Err(TssError::InsufficientData);
        }
        let sub = vstd::slice::slice_subrange(self.data, self.position, self.position + count);
        let bytes = vstd::slice::slice_to_vec(sub);
        self.position = self.position + count;
        proof {
            assert(bytes@ =~= old(self).unread().take(count as int));
        }
        Ok(bytes)
    }

    /// Consume exactly `N` bytes and return them as a fixed-size array.
    pub fn read_array<const N: usize>(&mut self) -> (r: Result<[u8; N], TssError>)
        requires
            old(self).wf(),
        ensures
            final(self).wf(),
            final(self).spec_data() == old(self).spec_data(),
            N <= old(self).unread().len() ==> (r matches Ok(a) && a@ == old(self).unread().take(
                N as int,
            ) && final(self).spec_position() == old(self).spec_position() + N),
            N > old(self).unread().len() ==> r == Err::<[u8; N], TssError>(
                TssError::InsufficientData,
            ) && final(self).spec_position() == old(self).spec_position(),
    {
        if !self.has_remaining(N) {
            return Err(TssError::InsufficientData);
        }
        let mut array: [u8; N] = vstd::array::array_fill_for_copy_types(0u8);
        let mut i: usize = 0;
        while i < N
            invariant
                0 <= i <= N,
                self.wf(),
                *self == *old(self),
                N <= self.unread().len(),
                array@.len() == N,
                forall|j: int| 0 <= j < i ==> array@[j] == self.unread()[j],
            decreases N - i,
        {
            let b = self.data[self.position + i];
            array[i] = b;
            i = i + 1;
        }
        self.position = self.position + N;
        proof {
            assert(array@ =~= old(self).unread().take(N as int));
        }
        Ok(array)
    }

    /// The unread bytes, without consuming them.
    pub fn peek_remaining(&self) -> (r: &'a [u8])
        requires
            self.wf(),
        ensures
            r@ == self.unread(),
    {
        vstd::slice::slice_subrange(self.data, self.position, self.data.len())
    }

    /// Advance the position by `count` bytes without returning data.
    pub fn skip(&mut self, count: usize) -> (r: Result<(), TssError>)
        requires
            old(self).wf(),
        ensures
            final(self).wf(),
            final(self).spec_data() == old(self).spec_data(),
            count <= old(self).unread().len() ==> (r matches Ok(u) && final(self).spec_position()
                == old(self).spec_position() + count),
            count > old(self).unread().len() ==> r == Err::<(), TssError>(
                TssError::InsufficientData,
            ) && final(self).spec_position() == old(self).spec_position(),
    {
        if !self.has_remaining(count) {
            return Err(TssError::InsufficientData);
        }
        self.position = self.position + count;
        Ok(())
    }
}

} // verus!
