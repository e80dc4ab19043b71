//! A seek-able window onto part of a larger file.

use std::sync::Arc;

use vstd::prelude::*;

use super::read_at::ReadAt;
use super::reader::total;

verus! {

/// Where a seek moves to, as `std::io::SeekFrom` has it.
#[derive(Debug, Clone, Copy, PartialEq, Eq, Structural)]
pub enum SeekPos {
    /// An offset from the start.
    Start(u64),
    /// An offset from the end.
    End(i64),
    /// An offset from the current position.
    Current(i64),
}

/// `x` taken as a two's complement signed 64-bit number.
pub open spec fn as_signed(x: u64) -> int {
    if x <= i64::MAX {
        x as int
    } else {
        x - 0x1_0000_0000_0000_0000
    }
}

/// `v` clamped to the range of `i64`.
pub open spec fn saturate_i64(v: int) -> int {
    if v > i64::MAX {
        i64::MAX as int
    } else if v < i64::MIN {
        i64::MIN as int
    } else {
        v
    }
}

/// The position a seek aims at, computed in signed 64-bit arithmetic that saturates.
pub open spec fn seek_target(pos: SeekPos, len: u64, position: u64) -> int {
    match pos {
        SeekPos::Start(p) => as_signed(p),
        SeekPos::End(d) => saturate_i64(as_signed(len) + d),
        SeekPos::Current(d) => saturate_i64(as_signed(position) + d),
    }
}

fn to_signed(x: u64) -> (r: i128)
    ensures
        r == as_signed(x),
{
    if x <= i64::MAX as u64 {
        x as i128
    } else {
        x as i128 - 0x1_0000_0000_0000_0000i128
    }
}

fn saturating_add_i64(a: i128, d: i64) -> (r: i128)
    requires
        i64::MIN <= a <= i64::MAX,
    ensures
        r == saturate_i64(a + d),
{
    let v = a + d as i128;
    if v > i64::MAX as i128 {
        i64::MAX as i128
    } else if v < i64::MIN as i128 {
        i64::MIN as i128
    } else {
        v
    }
}

/// Makes a new pointer to the same shared value with `Arc::clone`.
///
/// Trusted: the standard library documents that the clone points to the same allocation, so
/// the value it shares is the same.
#[verifier::external_body]
fn arc_clone<T>(a: &Arc<T>) -> (r: Arc<T>)
    ensures
        r == *a,
{
    Arc::clone(a)
}

/// Why a sub-file operation failed.
#[derive(Debug)]
pub enum SubFileError {
    /// A seek aimed before the start of the sub-file.
    InvalidInput,
    /// The sub-file, or the data under it, ended before the bytes asked for were read.
    UnexpectedEof,
    /// Reading the underlying data failed.
    Io(std::io::Error),
}

/// Where a read at `position` starts in the larger file, and how many bytes it may read into
/// a buffer of `buf_len` bytes: up to the end of the buffer or of the sub-file, whichever
/// comes first.
pub fn read_window(start: u64, position: u64, len: u64, buf_len: usize) -> (r: (u64, usize))
    requires
        position < len,
        start + len <= u64::MAX,
    ensures
        r.0 == start + position,
        r.1 == if buf_len < len - position {
            buf_len as int
        } else {
            len - position
        },
{
    let remaining = len - position;
    let limit = if (buf_len as u64) < remaining {
        buf_len
    } else {
        remaining as usize
    };
    (start + position, limit)
}

/// One step of [`SubFile::read_exact`]: what follows a read into the unfilled part of a
/// buffer of which `filled` bytes are filled. No bytes read means the data ended first; a
/// read of `n` bytes leaves `filled + n` filled; an error is passed on.
pub fn fill_step(filled: usize, result: std::io::Result<usize>) -> (r: Result<usize, SubFileError>)
    requires
        result matches Ok(n) ==> filled + n <= usize::MAX,
    ensures
        match result {
            Ok(n) => if n == 0 {
                r matches Err(SubFileError::UnexpectedEof)
            } else {
                r == Ok::<usize, SubFileError>((filled + n) as usize)
            },
            Err(e) => r matches Err(SubFileError::Io(e2)) && e2 == e,
        },
{
    match result {
        Ok(0) => Err(SubFileError::UnexpectedEof),
        Ok(n) => Ok(filled + n),
        Err(e) => Err(SubFileError::Io(e)),
    }
}

/// The bytes left in a sub-file of length `len` at `position`: none once the position is at
/// or past the end.
pub open spec fn remaining_after(len: u64, position: u64) -> u64 {
    if position < len {
        (len - position) as u64
    } else {
        0
    }
}

/// True if reads that returned `ns` in turn, from the start of a sub-file of length `len`,
/// each returned no more than was left, as [`SubFile::read`] ensures.
pub open spec fn reads_within(len: u64, ns: Seq<usize>) -> bool {
    forall|i: int| 0 <= i < ns.len() ==> #[trigger] ns[i] <= len - total(ns.take(i))
}

/// Reading a sub-file from its start, what remains after successful reads is its length less
/// the bytes read: the reads never go past the end, and the position is the bytes read.
pub proof fn lemma_remaining_after_reads(len: u64, ns: Seq<usize>)
    requires
        reads_within(len, ns),
    ensures
        0 <= total(ns) <= len,
        remaining_after(len, total(ns) as u64) == len - total(ns),
    decreases ns.len(),
{
    if ns.len() > 0 {
        let init = ns.drop_last();
        assert forall|i: int| 0 <= i < init.len() implies #[trigger] init[i] <= len - total(init.take(i)) by {
            assert(init.take(i) =~= ns.take(i));
            assert(ns[i] <= len - total(ns.take(i)));
        }
        lemma_remaining_after_reads(len, init);
        assert(ns.take(ns.len() - 1) =~= init);
        assert(ns[ns.len() - 1] <= len - total(ns.take(ns.len() - 1)));
    }
}

/// `a + b`, staying at the largest `u64`.
pub open spec fn saturating_start(a: u64, b: u64) -> u64 {
    if a + b > u64::MAX {
        u64::MAX
    } else {
        (a + b) as u64
    }
}

/// A seek-able sub-file with a start and end point within a larger file.
pub struct SubFile<R: ReadAt> {
    inner: Arc<R>,
    /// Start of the sub-file within `inner`.
    start: u64,
    /// The current file cursor position within the sub-file.
    position: u64,
    /// The length of the sub-file in bytes.
    len: u64,
}

impl<R: ReadAt> SubFile<R> {
    /// A sub-file lies within its file.
    #[verifier::type_invariant]
    spec fn inside(&self) -> bool {
        self.start + self.len <= u64::MAX
    }

    /// Where the sub-file starts within the larger file.
    pub closed spec fn spec_start(&self) -> u64 {
        self.start
    }

    /// The cursor position within the sub-file.
    pub closed spec fn spec_position(&self) -> u64 {
        self.position
    }

    /// The length of the sub-file.
    pub closed spec fn spec_len(&self) -> u64 {
        self.len
    }

    /// The bytes of the larger file.
    pub closed spec fn spec_data(&self) -> Seq<u8> {
        self.inner.spec_data()
    }

    /// The bytes of the sub-file that the larger file holds: those from the start up to the
    /// sub-file's end, or up to the end of the data where that comes first.
    pub open spec fn spec_bytes(&self) -> Seq<u8> {
        let d = self.spec_data();
        if self.spec_start() >= d.len() {
            Seq::empty()
        } else if self.spec_start() + self.spec_len() <= d.len() {
            d.subrange(self.spec_start() as int, self.spec_start() + self.spec_len())
        } else {
            d.subrange(self.spec_start() as int, d.len() as int)
        }
    }

    /// Creates a sub-file of `inner` from `start`, extending `len` bytes, with its position at
    /// zero. Where the data is shorter, reading stops at its end.
    pub fn new(inner: Arc<R>, start: u64, len: u64) -> (r: std::io::Result<Self>)
        requires
            start + len <= u64::MAX,
        ensures
            r matches Ok(f) && f.spec_start() == start && f.spec_len() == len
                && f.spec_position() == 0 && f.spec_data() == inner.spec_data(),
    {
        Ok(SubFile { inner, start, position: 0, len })
    }

    /// Returns the total length of the sub-file, ignoring the current position.
    pub fn len(&self) -> (r: u64)
        ensures
            r == self.spec_len(),
    {
        self.len
    }

    /// Returns true if the file is empty.
    pub fn is_empty(&self) -> (r: bool)
        ensures
            r == (self.spec_len() == 0),
    {
        self.len == 0
    }

    /// Returns the number of bytes remaining in the sub-file.
    pub fn remaining(&self) -> (r: u64)
        ensures
            r == remaining_after(self.spec_len(), self.spec_position()),
    {
        self.len.saturating_sub(self.position)
    }

    /// Returns a new sub-file that is a sub-range of this one, starting `start` bytes after
    /// this one's start (saturating) and extending `len` bytes.
    pub fn sub_file(&self, start: u64, len: u64) -> (r: std::io::Result<Self>)
        requires
            saturating_start(self.spec_start(), start) + len <= u64::MAX,
        ensures
            r matches Ok(f) && f.spec_start() == saturating_start(self.spec_start(), start)
                && f.spec_len() == len && f.spec_position() == 0 && f.spec_data() == self.spec_data(),
    {
        let s = self.start.saturating_add(start);
        Self::new(arc_clone(&self.inner), s, len)
    }

    /// True if reading the data under the sub-file never fails.
    pub closed spec fn spec_never_fails(&self) -> bool {
        self.inner.never_fails()
    }

    /// Reads from the current position into `buf`, at most up to the end of the sub-file,
    /// and advances the position by the number of bytes read. The read starts at
    /// `start + position` in the larger file and asks for at most the bytes left in the
    /// sub-file, as [`read_window`] computes; no bytes are read only at the end of the
    /// sub-file or of the data, or into an empty buffer.
    pub fn read(&mut self, buf: &mut [u8]) -> (r: std::io::Result<usize>)
        ensures
            final(self).spec_start() == old(self).spec_start(),
            final(self).spec_len() == old(self).spec_len(),
            final(self).spec_data() == old(self).spec_data(),
            final(self).spec_never_fails() == old(self).spec_never_fails(),
            final(buf)@.len() == old(buf)@.len(),
            old(self).spec_position() >= old(self).spec_len() ==> (r matches Ok(n) && n == 0),
            old(self).spec_never_fails() ==> r is Ok,
            match r {
                Ok(n) => {
                    &&& n <= old(buf)@.len()
                    &&& old(self).spec_position() < old(self).spec_len() ==> old(
                        self,
                    ).spec_position() + n <= old(self).spec_len()
                    &&& final(self).spec_position() == if n == 0 {
                        old(self).spec_position()
                    } else {
                        (old(self).spec_position() + n) as u64
                    }
                    &&& n > 0 ==> old(self).spec_position() + n <= old(self).spec_bytes().len()
                    &&& n > 0 ==> final(buf)@.take(n as int) == old(self).spec_bytes().subrange(
                        old(self).spec_position() as int,
                        old(self).spec_position() + n,
                    )
                    &&& n == 0 && old(buf)@.len() > 0 ==> old(self).spec_position() >= old(
                        self,
                    ).spec_len() || old(self).spec_start() + old(self).spec_position() >= old(
                        self,
                    ).spec_data().len()
                },
                Err(_) => final(self).spec_position() == old(self).spec_position(),
            },
    {
        proof {
            use_type_invariant(&*self);
        }
        if self.position >= self.len {
            return Ok(0);
        }
        let (offset, limit) = read_window(self.start, self.position, self.len, buf.len());
        let ghost before = buf@;
        let (head, tail) = buf.split_at_mut(limit);
        let result = self.inner.read_at(head, offset);
        match result {
            Ok(n) => {
                assert(buf@ == head@ + tail@);
                if n > 0 {
                    assert(buf@.take(n as int) =~= head@.take(n as int));
                    assert(self.spec_bytes().subrange(
                        self.position as int,
                        self.position + n,
                    ) =~= self.spec_data().subrange(offset as int, offset + n));
                }
                self.position = self.position + n as u64;
                Ok(n)
            },
            Err(e) => Err(e),
        }
    }

    /// Moves the position, as `std::io::Seek::seek` does: the target is computed in signed
    /// 64-bit arithmetic (offsets from the end or current position saturate), and a negative
    /// target is an `InvalidInput` error that leaves the position as it was. Seeking past the
    /// end is allowed.
    pub fn seek(&mut self, pos: SeekPos) -> (r: Result<u64, SubFileError>)
        ensures
            final(self).spec_start() == old(self).spec_start(),
            final(self).spec_len() == old(self).spec_len(),
            final(self).spec_data() == old(self).spec_data(),
            ({
                let t = seek_target(pos, old(self).spec_len(), old(self).spec_position());
                if t >= 0 {
                    r matches Ok(p) && p == t && final(self).spec_position() == t
                } else {
                    (r matches Err(SubFileError::InvalidInput)) && final(self).spec_position()
                        == old(self).spec_position()
                }
            }),
    {
        proof {
            use_type_invariant(&*self);
        }
        let target: i128 = match pos {
            SeekPos::Start(p) => to_signed(p),
            SeekPos::End(d) => saturating_add_i64(to_signed(self.len), d),
            SeekPos::Current(d) => saturating_add_i64(to_signed(self.position), d),
        };
        if target < 0 {
            return Err(SubFileError::InvalidInput);
        }
        self.position = target as u64;
        Ok(self.position)
    }

    /// Returns the current position.
    pub fn stream_position(&self) -> (r: std::io::Result<u64>)
        ensures
            r matches Ok(p) && p == self.spec_position(),
    {
        Ok(self.position)
    }

    /// Reads exactly enough bytes to fill `buf`, as `std::io::Read::read_exact` does, reading
    /// into the unfilled part of `buf` in turn and taking each result as [`fill_step`] says:
    /// it fails with `UnexpectedEof` if the sub-file or the data ends first, and passes on
    /// an error from the underlying data.
    pub fn read_exact(&mut self, buf: &mut [u8]) -> (r: Result<(), SubFileError>)
        ensures
            final(self).spec_start() == old(self).spec_start(),
            final(self).spec_len() == old(self).spec_len(),
            final(self).spec_data() == old(self).spec_data(),
            final(self).spec_never_fails() == old(self).spec_never_fails(),
            final(buf)@.len() == old(buf)@.len(),
            old(buf)@.len() == 0 ==> r is Ok && final(self).spec_position() == old(
                self,
            ).spec_position(),
            r is Ok && old(buf)@.len() > 0 ==> {
                &&& old(self).spec_position() + old(buf)@.len() <= old(self).spec_len()
                &&& old(self).spec_position() + old(buf)@.len() <= old(self).spec_bytes().len()
                &&& final(self).spec_position() == old(self).spec_position() + old(buf)@.len()
                &&& final(buf)@ == old(self).spec_bytes().subrange(
                    old(self).spec_position() as int,
                    old(self).spec_position() + old(buf)@.len(),
                )
            },
            r matches Err(e) ==> (e is UnexpectedEof || e is Io),
            old(buf)@.len() > 0 && old(self).spec_position() + old(buf)@.len() > old(
                self,
            ).spec_len() ==> r is Err,
            old(self).spec_never_fails() && old(buf)@.len() > 0 ==> {
                &&& r is Ok <==> old(self).spec_position() + old(buf)@.len() <= old(
                    self,
                ).spec_bytes().len()
                &&& r is Err ==> r matches Err(SubFileError::UnexpectedEof)
            },
    {
        proof {
            use_type_invariant(&*self);
        }
        let ghost p0 = self.spec_position();
        let ghost bytes = self.spec_bytes();
        let ghost nf = self.spec_never_fails();
        let mut filled: usize = 0;
        while filled < buf.len()
            invariant
                filled <= buf@.len() == old(buf)@.len(),
                self.spec_start() == old(self).spec_start(),
                self.spec_len() == old(self).spec_len(),
                self.spec_data() == old(self).spec_data(),
                self.spec_never_fails() == nf,
                nf == old(self).spec_never_fails(),
                bytes == self.spec_bytes(),
                p0 == old(self).spec_position(),
                filled > 0 ==> self.spec_position() == p0 + filled,
                filled > 0 ==> p0 + filled <= self.spec_len(),
                filled > 0 ==> p0 + filled <= bytes.len(),
                filled == 0 ==> self.spec_position() == p0,
                filled > 0 ==> buf@.take(filled as int) == bytes.subrange(p0 as int, p0 + filled),
            decreases buf@.len() - filled,
        {
            let ghost before = buf@;
            let ghost pos = self.spec_position();
            let (head, tail) = buf.split_at_mut(filled);
            let result = self.read(tail);
            assert(buf@ == head@ + tail@);
            match &result {
                Ok(nr) => {
                    let n = *nr;
                    if n > 0 {
                        assert(head@ == before.take(filled as int));
                        assert(p0 + filled + n <= self.spec_len());
                        assert(p0 + filled + n <= bytes.len());
                        assert(buf@.take(filled + n) =~= before.take(filled as int) + tail@.take(
                            n as int,
                        ));
                        assert(bytes.subrange(p0 as int, p0 + filled + n) =~= bytes.subrange(
                            p0 as int,
                            p0 + filled,
                        ) + bytes.subrange(p0 + filled, p0 + filled + n));
                    } else {
                        proof {
                            // Nothing was read: the sub-file or the data has ended.
                            assert(pos >= self.spec_len() || self.spec_start() + pos
                                >= self.spec_data().len());
                            assert(pos >= bytes.len());
                        }
                    }
                },
                Err(_) => {},
            }
            match fill_step(filled, result) {
                Ok(f) => {
                    filled = f;
                },
                Err(e) => {
                    return Err(e);
                },
            }
        }
        assert(buf@.take(filled as int) =~= buf@);
        Ok(())
    }
}

} // verus!
