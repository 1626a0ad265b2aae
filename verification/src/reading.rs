//! Reading files into buffers that grow.

use vstd::prelude::*;

verus! {

/// A buffer that a file is read into.
pub struct ReadBuffer {
    bytes: Vec<u8>,
    cursor: usize,
}

impl ReadBuffer {
    /// The bytes that were read.
    pub closed spec fn view(self) -> Seq<u8> {
        self.bytes@.take(self.cursor as int)
    }

    /// The number of bytes that can be read next.
    pub closed spec fn room(self) -> nat {
        (self.bytes@.len() - self.cursor) as nat
    }

    /// What was read is in the buffer.
    pub closed spec fn wf(self) -> bool {
        self.cursor <= self.bytes@.len()
    }

    /// A buffer for a file of `size` bytes.
    pub fn new(size: usize) -> (buffer: Self)
        ensures
            buffer.wf(),
            buffer@ == Seq::<u8>::empty(),
            buffer.room() == size,
    {
        let mut bytes: Vec<u8> = Vec::new();
        bytes.resize(size, 0);
        let buffer = ReadBuffer { bytes, cursor: 0 };
        assert(buffer@ =~= Seq::<u8>::empty());
        buffer
    }

    /// The number of bytes that can be read next.
    pub fn window(&self) -> (size: usize)
        requires
            self.wf(),
        ensures
            size == self.room(),
    {
        self.bytes.len() - self.cursor
    }

    /// Takes the bytes that were read next. The buffer is made twice as large where there were
    /// any; where there were none, the file is at its end. Returns whether there is more to read.
    pub fn take(&mut self, data: &Vec<u8>) -> (more: bool)
        requires
            old(self).wf(),
            data.len() <= old(self).room(),
            data.len() > 0 ==> 2 * (old(self)@.len() + old(self).room()) <= usize::MAX,
        ensures
            final(self).wf(),
            final(self)@ == old(self)@ + data@,
            more == (data.len() > 0),
            final(self)@.len() + final(self).room() == (if data.len() > 0 {
                2 * (old(self)@.len() + old(self).room())
            } else {
                old(self)@.len() + old(self).room()
            }),
    {
        let ghost (bytes, cursor) = (self.bytes@, self.cursor as int);
        let mut i: usize = 0;
        while i < data.len()
            invariant
                i <= data.len(),
                self.cursor == cursor,
                cursor + data.len() <= bytes.len(),
                self.bytes.len() == bytes.len(),
                self.bytes@.take(cursor + i) == bytes.take(cursor) + data@.take(i as int),
            decreases data.len() - i,
        {
            let at: usize = self.cursor + i;
            let ghost before = self.bytes@;
            self.bytes.set(at, data[i]);
            i += 1;
            assert(self.bytes@.take(cursor + i) =~= before.take(cursor + i - 1).push(
                data@[i - 1],
            ));
            assert(data@.take(i as int) =~= data@.take(i - 1).push(data@[i - 1]));
            assert(self.bytes@.take(cursor + i) =~= bytes.take(cursor) + data@.take(i as int));
        }
        assert(data@.take(data.len() as int) =~= data@);
        if data.len() == 0 {
            assert(self@ =~= old(self)@ + data@);
            return false;
        }
        self.cursor = self.cursor + data.len();
        let ghost read = self.bytes@;
        let size: usize = self.bytes.len() * 2;
        self.bytes.resize(size, 0);
        assert(self@ =~= read.take(self.cursor as int));
        true
    }

    /// The bytes that were read.
    pub fn finish(self) -> (bytes: Vec<u8>)
        requires
            self.wf(),
        ensures
            bytes@ == self@,
    {
        let mut bytes: Vec<u8> = self.bytes;
        bytes.truncate(self.cursor);
        assert(bytes@ =~= self@);
        bytes
    }
}

} // verus!
