//! A container for payload bytes: owned, borrowed from elsewhere, or empty.

use vstd::prelude::*;

verus! {

/// A container for payload data.
pub enum Vesicle<'a> {
    /// Heap-allocated buffer.
    Owned(Vec<u8>),
    /// Reference to bytes held elsewhere (such as a shared memory slot).
    Borrowed(&'a [u8]),
    /// No payload.
    Empty,
}

impl<'a> View for Vesicle<'a> {
    type V = Seq<u8>;

    open spec fn view(&self) -> Seq<u8> {
        match self {
            Vesicle::Owned(v) => v@,
            Vesicle::Borrowed(s) => s@,
            Vesicle::Empty => Seq::empty(),
        }
    }
}

impl<'a> Vesicle<'a> {
    /// Wraps an owned vector.
    pub fn wrap(data: Vec<u8>) -> (v: Self)
        ensures
            v matches Vesicle::Owned(d) && d@ == data@,
    {
        Vesicle::Owned(data)
    }

    /// Pre-allocates `size` zeroed bytes.
    pub fn with_capacity(size: usize) -> (v: Self)
        ensures
            v is Owned,
            v@ == Seq::new(size as nat, |i: int| 0u8),
    {
        let mut data: Vec<u8> = Vec::new();
        let mut i: usize = 0;
        while i < size
            invariant
                i <= size,
                data@ == Seq::new(i as nat, |j: int| 0u8),
            decreases size - i,
        {
            data.push(0u8);
            i = i + 1;
        }
        Vesicle::Owned(data)
    }

    /// Returns a slice to the underlying data.
    pub fn as_slice(&self) -> (s: &[u8])
        ensures
            s@ == self@,
    {
        match self {
            Vesicle::Owned(v) => v.as_slice(),
            Vesicle::Borrowed(s) => s,
            Vesicle::Empty => &[],
        }
    }

    /// Mutable access to the bytes; only an owned vesicle can be written.
    pub fn as_mut_slice(&mut self) -> (s: &mut [u8])
        requires
            *old(self) is Owned,
        ensures
            s@ == old(self)@,
            *final(self) is Owned,
            final(self)@ == final(s)@,
    {
        match self {
            Vesicle::Owned(v) => v.as_mut_slice(),
            _ => {
                proof { assert(false); }
                unreached()
            },
        }
    }

    pub fn len(&self) -> (n: usize)
        ensures
            n == self@.len(),
    {
        self.as_slice().len()
    }

    pub fn is_empty(&self) -> (b: bool)
        ensures
            b == (self@.len() == 0),
    {
        self.len() == 0
    }
}

/// A vesicle reads as the slice of its bytes.
impl<'a> core::ops::Deref for Vesicle<'a> {
    type Target = [u8];

    fn deref(&self) -> (s: &[u8])
        ensures
            s@ == self@,
    {
        self.as_slice()
    }
}

} // verus!
