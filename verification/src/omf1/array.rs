//! The byte layout of OMF v1 arrays: little-endian 8-byte integers, and how they become
//! indices and colors.

use vstd::prelude::*;

use crate::error::Error;

use super::error::Omf1Error;

verus! {

/// The value of little-endian bytes.
pub open spec fn le_value(b: Seq<u8>) -> nat
    decreases b.len(),
{
    if b.len() == 0 {
        0
    } else {
        (b[0] + 256 * le_value(b.drop_first())) as nat
    }
}

/// 256 to the power `n`.
pub open spec fn pow256(n: nat) -> nat
    decreases n,
{
    if n == 0 {
        1
    } else {
        256 * pow256((n - 1) as nat)
    }
}

proof fn lemma_le_value_bound(b: Seq<u8>)
    ensures
        le_value(b) < pow256(b.len()),
    decreases b.len(),
{
    if b.len() > 0 {
        lemma_le_value_bound(b.drop_first());
    }
}

/// Reads `b[start..end]`, at most 8 bytes, as a little-endian unsigned number.
pub fn u64_from_le(b: &[u8], start: usize, end: usize) -> (r: u64)
    requires
        start <= end <= b@.len(),
        end - start <= 8,
    ensures
        r == le_value(b@.subrange(start as int, end as int)),
{
    let mut v: u64 = 0;
    let mut i = end;
    proof {
        reveal_with_fuel(pow256, 9);
        assert(pow256(8) == 0x1_0000_0000_0000_0000);
    }
    while i > start
        invariant
            start <= i <= end <= b@.len(),
            end - start <= 8,
            v == le_value(b@.subrange(i as int, end as int)),
            pow256(8) == 0x1_0000_0000_0000_0000,
        decreases i - start,
    {
        i -= 1;
        proof {
            let s = b@.subrange(i as int, end as int);
            assert(s.drop_first() =~= b@.subrange(i + 1, end as int));
            lemma_le_value_bound(b@.subrange(i + 1, end as int));
            lemma_pow256_monotone((end - i - 1) as nat, 7);
        }
        v = b[i] as u64 + 256 * v;
    }
    v
}

proof fn lemma_pow256_monotone(a: nat, b: nat)
    requires
        a <= b,
    ensures
        pow256(a) <= pow256(b),
    decreases b,
{
    if a < b {
        lemma_pow256_monotone(a, (b - 1) as nat);
    }
}

/// Little-endian bytes read as a two's complement signed 64-bit number.
pub open spec fn le_i64(b: Seq<u8>) -> int {
    if le_value(b) < 0x8000_0000_0000_0000 {
        le_value(b) as int
    } else {
        le_value(b) - 0x1_0000_0000_0000_0000
    }
}

/// Reads 8 bytes from `start` as a little-endian signed number, as `i64::from_le_bytes` does.
pub fn i64_from_le(b: &[u8], start: usize) -> (r: i64)
    requires
        start + 8 <= b@.len(),
    ensures
        r == le_i64(b@.subrange(start as int, start + 8)),
{
    let n = b.len();
    assert(start + 8 <= n);
    let v = u64_from_le(b, start, start + 8);
    if v < 0x8000_0000_0000_0000 {
        v as i64
    } else {
        (v - 0x8000_0000_0000_0000) as i64 - 0x4000_0000_0000_0000 - 0x4000_0000_0000_0000
    }
}

/// An OMF v1 vertex index as a 32-bit index, or `IndexOutOfRange` if it doesn't fit.
pub open spec fn spec_index(n: int) -> Result<u32, ()> {
    if 0 <= n <= u32::MAX {
        Ok(n as u32)
    } else {
        Err(())
    }
}

fn vertex_index(n: i64) -> (r: Result<u32, Error>)
    ensures
        0 <= n <= u32::MAX ==> (r matches Ok(i) && i == n),
        !(0 <= n <= u32::MAX) ==> (r matches Err(
            Error::Omf1(Omf1Error::IndexOutOfRange { index }),
        ) && index == n),
{
    if 0 <= n && n <= u32::MAX as i64 {
        Ok(n as u32)
    } else {
        Err(Error::Omf1(Omf1Error::IndexOutOfRange { index: n }))
    }
}

/// True if `r` is the conversion of the `k` little-endian numbers in `b` to vertex indices:
/// the indices when all fit in 32 bits, otherwise `IndexOutOfRange` with the first that
/// doesn't.
pub open spec fn indices_result<const N: usize>(b: Seq<u8>, r: Result<[u32; N], Error>) -> bool {
    match r {
        Ok(v) => forall|i: int|
            0 <= i < N ==> v[i] as int == le_i64(#[trigger] b.subrange(8 * i, 8 * i + 8)),
        Err(e) => exists|i: int|
            0 <= i < N && !(0 <= le_i64(#[trigger] b.subrange(8 * i, 8 * i + 8)) <= u32::MAX)
                && (forall|j: int|
                0 <= j < i ==> 0 <= le_i64(#[trigger] b.subrange(8 * j, 8 * j + 8))
                    <= u32::MAX) && (e matches Error::Omf1(Omf1Error::IndexOutOfRange { index })
                && index == le_i64(b.subrange(8 * i, 8 * i + 8))),
    }
}

/// Reads a line segment: two little-endian 64-bit vertex indices.
pub fn segment_from_le_bytes(bytes: [u8; 16]) -> (r: Result<[u32; 2], Error>)
    ensures
        indices_result(bytes@, r),
{
    let a = vertex_index(i64_from_le(&bytes, 0));
    let b = vertex_index(i64_from_le(&bytes, 8));
    assert(bytes@.subrange(8 * 0int, 8 * 0int + 8) == bytes@.subrange(0, 8));
    assert(bytes@.subrange(8 * 1int, 8 * 1int + 8) == bytes@.subrange(8, 16));
    match (a, b) {
        (Ok(a), Ok(b)) => {
            let r = [a, b];
            assert forall|i: int| 0 <= i < 2 implies r[i] as int == le_i64(
                #[trigger] bytes@.subrange(8 * i, 8 * i + 8),
            ) by {
                if i == 0 {
                } else {
                }
            }
            Ok(r)
        },
        (Err(e), _) => {
            assert(!(0 <= le_i64(bytes@.subrange(8 * 0int, 8 * 0int + 8)) <= u32::MAX));
            Err(e)
        },
        (Ok(_), Err(e)) => {
            assert(!(0 <= le_i64(bytes@.subrange(8 * 1int, 8 * 1int + 8)) <= u32::MAX));
            assert(0 <= le_i64(bytes@.subrange(8 * 0int, 8 * 0int + 8)) <= u32::MAX);
            Err(e)
        },
    }
}

/// Reads a triangle: three little-endian 64-bit vertex indices.
pub fn triangle_from_le_bytes(bytes: [u8; 24]) -> (r: Result<[u32; 3], Error>)
    ensures
        indices_result(bytes@, r),
{
    let a = vertex_index(i64_from_le(&bytes, 0));
    let b = vertex_index(i64_from_le(&bytes, 8));
    let c = vertex_index(i64_from_le(&bytes, 16));
    assert(bytes@.subrange(8 * 0int, 8 * 0int + 8) == bytes@.subrange(0, 8));
    assert(bytes@.subrange(8 * 1int, 8 * 1int + 8) == bytes@.subrange(8, 16));
    assert(bytes@.subrange(8 * 2int, 8 * 2int + 8) == bytes@.subrange(16, 24));
    match (a, b, c) {
        (Ok(a), Ok(b), Ok(c)) => {
            let r = [a, b, c];
            assert forall|i: int| 0 <= i < 3 implies r[i] as int == le_i64(
                #[trigger] bytes@.subrange(8 * i, 8 * i + 8),
            ) by {
                if i == 0 {
                } else if i == 1 {
                } else {
                }
            }
            Ok(r)
        },
        (Err(e), _, _) => {
            assert(!(0 <= le_i64(bytes@.subrange(8 * 0int, 8 * 0int + 8)) <= u32::MAX));
            Err(e)
        },
        (Ok(_), Err(e), _) => {
            assert(!(0 <= le_i64(bytes@.subrange(8 * 1int, 8 * 1int + 8)) <= u32::MAX));
            assert(0 <= le_i64(bytes@.subrange(8 * 0int, 8 * 0int + 8)) <= u32::MAX);
            Err(e)
        },
        (Ok(_), Ok(_), Err(e)) => {
            assert(!(0 <= le_i64(bytes@.subrange(8 * 2int, 8 * 2int + 8)) <= u32::MAX));
            assert(0 <= le_i64(bytes@.subrange(8 * 0int, 8 * 0int + 8)) <= u32::MAX);
            assert(0 <= le_i64(bytes@.subrange(8 * 1int, 8 * 1int + 8)) <= u32::MAX);
            Err(e)
        },
    }
}

/// A color channel: the number clamped to `0..=255`.
pub open spec fn channel(n: int) -> u8 {
    if n < 0 {
        0
    } else if n > 255 {
        255
    } else {
        n as u8
    }
}

fn clamp_channel(n: i64) -> (r: u8)
    ensures
        r == channel(n as int),
{
    if n < 0 {
        0
    } else if n > 255 {
        255
    } else {
        n as u8
    }
}

/// Reads an opaque color: three little-endian 64-bit channels, each clamped to `0..=255`.
pub fn color_from_le_bytes(bytes: [u8; 24]) -> (r: Result<Option<[u8; 4]>, Error>)
    ensures
        r matches Ok(Some(c)) && c[0] == channel(le_i64(bytes@.subrange(0, 8))) && c[1] == channel(
            le_i64(bytes@.subrange(8, 16)),
        ) && c[2] == channel(le_i64(bytes@.subrange(16, 24))) && c[3] == 255,
{
    let r = clamp_channel(i64_from_le(&bytes, 0));
    let g = clamp_channel(i64_from_le(&bytes, 8));
    let b = clamp_channel(i64_from_le(&bytes, 16));
    Ok(Some([r, g, b, 255]))
}

/// An OMF v1 category index as a nullable 32-bit index: -1 is null, other values must fit
/// in 32 bits.
pub fn category_index(n: i64) -> (r: Result<Option<u32>, Error>)
    ensures
        n == -1 ==> r matches Ok(None),
        n != -1 && 0 <= n <= u32::MAX ==> (r matches Ok(Some(i)) && i == n),
        n != -1 && !(0 <= n <= u32::MAX) ==> (r matches Err(
            Error::Omf1(Omf1Error::IndexOutOfRange { index }),
        ) && index == n),
{
    if n == -1 {
        Ok(None)
    } else if n < 0 || n > u32::MAX as i64 {
        Err(Error::Omf1(Omf1Error::IndexOutOfRange { index: n }))
    } else {
        Ok(Some(n as u32))
    }
}

/// Converts a column of OMF v1 category indices one at a time, tracking the largest index
/// seen so that the category count can cover it.
pub struct CategoryIndices {
    maximum: u32,
}

impl CategoryIndices {
    /// The largest index converted so far, or zero.
    pub closed spec fn spec_maximum(&self) -> u32 {
        self.maximum
    }

    /// Starts with no index seen.
    pub fn new() -> (c: Self)
        ensures
            c.spec_maximum() == 0,
    {
        CategoryIndices { maximum: 0 }
    }

    /// Converts one index as [`category_index`] does, raising the maximum to it.
    pub fn visit(&mut self, n: i64) -> (r: Result<Option<u32>, Error>)
        ensures
            n == -1 ==> r matches Ok(None),
            n != -1 && 0 <= n <= u32::MAX ==> (r matches Ok(Some(i)) && i == n),
            n != -1 && !(0 <= n <= u32::MAX) ==> (r matches Err(
                Error::Omf1(Omf1Error::IndexOutOfRange { index }),
            ) && index == n),
            final(self).spec_maximum() == match r {
                Ok(Some(i)) => if i > old(self).spec_maximum() {
                    i
                } else {
                    old(self).spec_maximum()
                },
                _ => old(self).spec_maximum(),
            },
    {
        let r = category_index(n);
        if let Ok(Some(i)) = r {
            if i > self.maximum {
                self.maximum = i;
            }
        }
        r
    }

    /// The largest index converted, or zero if there was none.
    pub fn maximum(&self) -> (m: u32)
        ensures
            m == self.spec_maximum(),
    {
        self.maximum
    }
}

/// Holds the first error of a sequence of results, so that the successful values can be
/// consumed on their own and the error checked afterwards.
pub struct HoldError<T, E> {
    result: Result<(), E>,
    seen: Ghost<Seq<Option<Result<T, E>>>>,
}

impl<T, E> HoldError<T, E> {
    /// The error held is what passing on the items seen gives.
    #[verifier::type_invariant]
    spec fn follows_seen(&self) -> bool {
        self.result == hold_run(self.seen@).1
    }

    /// The error held so far, if any.
    pub closed spec fn spec_result(&self) -> Result<(), E> {
        self.result
    }

    /// The items passed on so far, in order.
    pub closed spec fn seen(&self) -> Seq<Option<Result<T, E>>> {
        self.seen@
    }

    /// Holds no error yet.
    pub fn new() -> (h: Self)
        ensures
            h.spec_result() is Ok,
            h.seen().len() == 0,
    {
        HoldError { result: Ok(()), seen: Ghost(Seq::empty()) }
    }

    /// Passes on one item of the sequence: a value is returned, an error is held and ends the
    /// values with `None`, as does the end of the sequence.
    pub fn next(&mut self, item: Option<Result<T, E>>) -> (r: Option<T>)
        ensures
            (r, final(self).spec_result()) == hold_step(old(self).spec_result(), item),
            final(self).seen() == old(self).seen().push(item),
            r == hold_run(final(self).seen()).0.last(),
            match item {
                None => r is None && final(self).spec_result() == old(self).spec_result(),
                Some(Ok(v)) => r == Some(v) && final(self).spec_result() == old(
                    self,
                ).spec_result(),
                Some(Err(e)) => r is None && final(self).spec_result() == Err::<(), E>(e),
            },
    {
        proof {
            use_type_invariant(&*self);
        }
        let ghost seen = self.seen@.push(item);
        proof {
            assert(seen.drop_last() =~= self.seen@);
        }
        match item {
            None => {
                self.seen = Ghost(seen);
                None
            },
            Some(Err(e)) => {
                *self = HoldError { result: Err(e), seen: Ghost(seen) };
                None
            },
            Some(Ok(v)) => {
                self.seen = Ghost(seen);
                Some(v)
            },
        }
    }

    /// The error held, or `Ok` if there was none: what passing on the items seen gives.
    pub fn finish(self) -> (r: Result<(), E>)
        ensures
            r == self.spec_result(),
            r == hold_run(self.seen()).1,
    {
        proof {
            use_type_invariant(&self);
        }
        self.result
    }
}

/// One step of [`HoldError::next`]: what it returns and the error held after it.
pub open spec fn hold_step<T, E>(held: Result<(), E>, item: Option<Result<T, E>>) -> (
    Option<T>,
    Result<(), E>,
) {
    match item {
        None => (None, held),
        Some(Ok(v)) => (Some(v), held),
        Some(Err(e)) => (None, Err(e)),
    }
}

/// What a new [`HoldError`] returns for each of `items` in turn, and the error it holds
/// after them.
pub open spec fn hold_run<T, E>(items: Seq<Option<Result<T, E>>>) -> (Seq<Option<T>>, Result<(), E>)
    decreases items.len(),
{
    if items.len() == 0 {
        (Seq::empty(), Ok(()))
    } else {
        let (outs, held) = hold_run(items.drop_last());
        let (o, h) = hold_step(held, items.last());
        (outs.push(o), h)
    }
}

/// The values `values`, each as a successful item.
pub open spec fn ok_items<T, E>(values: Seq<T>) -> Seq<Option<Result<T, E>>> {
    Seq::new(values.len(), |i: int| Some(Ok(values[i])))
}

/// The values `values`, each as a returned value.
pub open spec fn some_values<T>(values: Seq<T>) -> Seq<Option<T>> {
    Seq::new(values.len(), |i: int| Some(values[i]))
}

/// The item that ends a sequence: the end itself, or an error.
pub open spec fn end_item<T, E>(end: Option<E>) -> Option<Result<T, E>> {
    match end {
        Some(e) => Some(Err(e)),
        None => None,
    }
}

proof fn lemma_hold_run_values<T, E>(values: Seq<T>)
    ensures
        hold_run(ok_items::<T, E>(values)) == (some_values(values), Ok::<(), E>(())),
    decreases values.len(),
{
    if values.len() > 0 {
        let init = values.drop_last();
        lemma_hold_run_values::<T, E>(init);
        assert(ok_items::<T, E>(values).drop_last() =~= ok_items::<T, E>(init));
        assert(some_values(init).push(Some(values.last())) =~= some_values(values));
    } else {
        assert(ok_items::<T, E>(values) =~= Seq::empty());
        assert(some_values(values) =~= Seq::empty());
    }
}

/// A full run of a [`HoldError`] over successful values followed by the end of the sequence
/// or an error: it returns exactly those values in order and then `None`, and it holds the
/// error, if there was one.
pub proof fn lemma_hold_run<T, E>(values: Seq<T>, end: Option<E>)
    ensures
        hold_run(ok_items::<T, E>(values).push(end_item(end))).0 == some_values(values).push(None),
        hold_run(ok_items::<T, E>(values).push(end_item(end))).1 == match end {
            Some(e) => Err(e),
            None => Ok::<(), E>(()),
        },
{
    lemma_hold_run_values::<T, E>(values);
    let items = ok_items::<T, E>(values).push(end_item(end));
    assert(items.drop_last() =~= ok_items::<T, E>(values));
}

/// A full run of a [`HoldError`]: after it has been handed successful values and then the
/// end of the sequence or an error, it has returned exactly those values in order and then
/// `None`, and [`HoldError::finish`] gives the error, if there was one.
pub proof fn lemma_hold_error_finish<T, E>(h: HoldError<T, E>, values: Seq<T>, end: Option<E>)
    requires
        h.seen() == ok_items::<T, E>(values).push(end_item(end)),
    ensures
        hold_run(h.seen()).0 == some_values(values).push(None),
        hold_run(h.seen()).1 == match end {
            Some(e) => Err(e),
            None => Ok::<(), E>(()),
        },
{
    lemma_hold_run::<T, E>(values, end);
}

} // verus!
