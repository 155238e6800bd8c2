//! The reusable fixed-capacity buffers the pipeline cycles between its
//! reader and writer stages.

use vstd::prelude::*;

verus! {

/// Create a zero-filled buffer of the specified size.
pub fn create_buffer(size: usize) -> (buf: Vec<u8>)
    ensures
        buf@.len() == size,
        forall|i: int| 0 <= i < buf@.len() ==> buf@[i] == 0u8,
{
    let mut buf: Vec<u8> = Vec::new();
    let mut i: usize = 0;
    while i < size
        invariant
            0 <= i <= size,
            buf@.len() == i,
            forall|j: int| 0 <= j < i ==> buf@[j] == 0u8,
        decreases size - i,
    {
        buf.push(0u8);
        i += 1;
    }
    buf
}

/// A fixed-capacity byte region plus the count of bytes currently valid
/// in it.  A buffer is owned by exactly one pipeline stage at a time.
pub struct DataBuffer {
    pub data: Vec<u8>,
    pub bytes_used: usize,
}

impl DataBuffer {
    /// The valid-prefix length never exceeds the region's capacity.
    pub open spec fn wf(self) -> bool {
        self.bytes_used <= self.data@.len()
    }

    /// The buffer's fixed capacity.
    pub open spec fn spec_capacity(self) -> nat {
        self.data@.len()
    }

    /// The bytes currently valid in the buffer.
    pub open spec fn valid_part(self) -> Seq<u8> {
        self.data@.take(self.bytes_used as int)
    }

    /// A fresh, zero-filled buffer with no valid bytes.
    pub fn new(size: usize) -> (buf: DataBuffer)
        ensures
            buf.wf(),
            buf.spec_capacity() == size,
            buf.bytes_used == 0,
            buf.valid_part() == Seq::<u8>::empty(),
    {
        let buf = DataBuffer { data: create_buffer(size), bytes_used: 0 };
        proof {
            assert(buf.valid_part() =~= Seq::<u8>::empty());
        }
        buf
    }

    /// The valid portion of the buffer.
    pub fn as_slice(&self) -> (s: &[u8])
        requires
            self.wf(),
        ensures
            s@ == self.valid_part(),
    {
        vstd::slice::slice_subrange(self.data.as_slice(), 0, self.bytes_used)
    }
}

} // verus!
