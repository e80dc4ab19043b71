//! Reading from a file-like object at an offset.

use vstd::prelude::*;

verus! {

/// Read from a file-like object at an offset.
pub trait ReadAt: Send + Sync + 'static {
    /// The bytes the object holds.
    spec fn spec_data(&self) -> Seq<u8>;

    /// True if reading and asking for the size never fail, as for data held in memory.
    spec fn never_fails(&self) -> bool;

    /// Seeks to `offset` and performs reads into `buf`.
    ///
    /// Returns the number of bytes read, which are the bytes of the data from `offset` on.
    /// As for `File::read`, a short read is not an error, and no bytes are read only when
    /// `buf` is empty or `offset` is at or past the end of the data.
    fn read_at(&self, buf: &mut [u8], offset: u64) -> (r: std::io::Result<usize>)
        ensures
            final(buf)@.len() == old(buf)@.len(),
            r matches Ok(n) ==> {
                &&& n <= old(buf)@.len()
                &&& n > 0 ==> offset + n <= self.spec_data().len() && final(buf)@.take(n as int)
                    == self.spec_data().subrange(offset as int, offset + n)
                &&& n == 0 ==> old(buf)@.len() == 0 || offset >= self.spec_data().len()
            },
            self.never_fails() ==> r is Ok,
    ;

    /// Returns the length of the data.
    fn size(&self) -> (r: std::io::Result<u64>)
        ensures
            r matches Ok(n) ==> n == self.spec_data().len(),
            self.never_fails() ==> r is Ok,
    ;
}

impl ReadAt for Vec<u8> {
    open spec fn spec_data(&self) -> Seq<u8> {
        self@
    }

    open spec fn never_fails(&self) -> bool {
        true
    }

    /// Copies as many bytes as fit from `offset` on; the rest of `buf` is left as it was. At
    /// or past the end of the data nothing is read.
    fn read_at(&self, buf: &mut [u8], offset: u64) -> (r: std::io::Result<usize>)
        ensures
            r matches Ok(n) && n == if offset >= self@.len() {
                0
            } else if self@.len() - offset < old(buf)@.len() {
                (self@.len() - offset) as usize
            } else {
                old(buf)@.len() as usize
            },
            final(buf)@.skip(r->Ok_0 as int) == old(buf)@.skip(r->Ok_0 as int),
    {
        if offset >= self.len() as u64 {
            assert(buf@.skip(0) =~= old(buf)@.skip(0));
            return Ok(0);
        }
        let start = offset as usize;
        let avail = self.len() - start;
        let n = if avail < buf.len() {
            avail
        } else {
            buf.len()
        };
        let mut i: usize = 0;
        while i < n
            invariant
                i <= n <= buf@.len(),
                n == old(buf)@.len() || n == self@.len() - start,
                start + n <= self@.len(),
                self@.len() == self.len(),
                start == offset,
                buf@.len() == old(buf)@.len(),
                forall|j: int| 0 <= j < i ==> buf@[j] == self@[start + j],
                forall|j: int| n <= j < buf@.len() ==> buf@[j] == old(buf)@[j],
            decreases n - i,
        {
            buf[i] = self[start + i];
            i += 1;
        }
        assert(buf@.take(n as int) =~= self@.subrange(offset as int, offset + n));
        assert(buf@.skip(n as int) =~= old(buf)@.skip(n as int));
        Ok(n)
    }

    fn size(&self) -> (r: std::io::Result<u64>)
        ensures
            r matches Ok(n) && n == self@.len(),
    {
        Ok(self.len() as u64)
    }
}

} // verus!
