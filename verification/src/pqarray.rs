//! The bookkeeping of Parquet array reading and writing: write options, the check that all
//! columns being written have the same length, and the cursors that step through the values
//! and definition levels of each chunk read from a column.

use vstd::prelude::*;

use crate::error::Error;
use crate::text::push_decimal;

verus! {

/// Options for writing Parquet arrays.
#[derive(Debug, Clone)]
pub struct PqWriteOptions {
    /// The number of rows in each row group.
    pub row_group_size: usize,
    /// The gzip compression level.
    pub compression_level: u32,
    /// True to write column statistics.
    pub statistics: bool,
}

impl Default for PqWriteOptions {
    /// Row groups of 1,048,576 rows, gzip level 6, and no statistics.
    fn default() -> (r: Self)
        ensures
            r.row_group_size == 1048576,
            r.compression_level == 6,
            !r.statistics,
    {
        PqWriteOptions { row_group_size: 1048576, compression_level: 6, statistics: false }
    }
}

impl PqWriteOptions {
    /// The gzip level to write with: the compression level clamped to `0..=10`.
    pub fn gzip_level(&self) -> (r: u32)
        ensures
            r == if self.compression_level > 10 {
                10
            } else {
                self.compression_level
            },
    {
        if self.compression_level > 10 {
            10
        } else {
            self.compression_level
        }
    }
}

/// The smallest count, or the largest `u64` if there are none.
pub open spec fn min_count(counts: Seq<u64>) -> u64
    decreases counts.len(),
{
    if counts.len() == 0 {
        u64::MAX
    } else {
        let m = min_count(counts.drop_last());
        if counts.last() < m {
            counts.last()
        } else {
            m
        }
    }
}

/// The largest count, or zero if there are none.
pub open spec fn max_count(counts: Seq<u64>) -> u64
    decreases counts.len(),
{
    if counts.len() == 0 {
        0
    } else {
        let m = max_count(counts.drop_last());
        if counts.last() > m {
            counts.last()
        } else {
            m
        }
    }
}

/// The message of the error for columns of different lengths.
pub open spec fn uneven_message(total: u64) -> Seq<char> {
    "uneven iterator lengths after "@ + crate::text::decimal(total as nat) + " items"@
}

/// Checks the numbers of rows that each column buffered for the next row group.
///
/// The smallest count is added to the total written. If the counts differ the columns have
/// different lengths, which is an error naming the total; otherwise the result says whether
/// every column has ended.
pub fn check_counts(total_written: &mut u64, counts: &[u64]) -> (r: Result<bool, Error>)
    requires
        *old(total_written) + min_count(counts@) <= u64::MAX,
    ensures
        *final(total_written) == *old(total_written) + min_count(counts@),
        min_count(counts@) != max_count(counts@) ==> (r matches Err(Error::ParquetError(m))
            && m@ == uneven_message(*final(total_written))),
        min_count(counts@) == max_count(counts@) ==> r == Ok::<bool, Error>(
            min_count(counts@) == 0,
        ),
{
    let mut min: u64 = u64::MAX;
    let mut max: u64 = 0;
    let mut i: usize = 0;
    while i < counts.len()
        invariant
            i <= counts@.len(),
            min == min_count(counts@.take(i as int)),
            max == max_count(counts@.take(i as int)),
        decreases counts@.len() - i,
    {
        assert(counts@.take(i + 1).drop_last() =~= counts@.take(i as int));
        assert(counts@.take(i + 1).last() == counts@[i as int]);
        if counts[i] < min {
            min = counts[i];
        }
        if counts[i] > max {
            max = counts[i];
        }
        i += 1;
    }
    assert(counts@.take(i as int) =~= counts@);
    *total_written = *total_written + min;
    if min != max {
        proof {
            reveal_strlit("uneven iterator lengths after ");
            reveal_strlit(" items");
        }
        let mut m = String::from_str("uneven iterator lengths after ");
        push_decimal(&mut m, *total_written);
        m.append(" items");
        return Err(Error::ParquetError(m));
    }
    Ok(min == 0)
}

/// Counts positions in a buffer.
#[derive(Debug, Default)]
pub struct Counter(usize);

impl Counter {
    /// The count.
    pub closed spec fn spec_count(&self) -> usize {
        self.0
    }

    /// A count of zero.
    pub fn new() -> (c: Self)
        ensures
            c.spec_count() == 0,
    {
        Counter(0)
    }

    /// Returns the count and then adds one to it.
    pub fn incr(&mut self) -> (r: usize)
        requires
            old(self).spec_count() < usize::MAX,
        ensures
            r == old(self).spec_count(),
            final(self).spec_count() == old(self).spec_count() + 1,
    {
        let out = self.0;
        self.0 = self.0 + 1;
        out
    }

    /// Sets the count back to zero.
    pub fn reset(&mut self)
        ensures
            final(self).spec_count() == 0,
    {
        self.0 = 0;
    }

    /// True once the count has reached `limit`.
    pub fn reached(&self, limit: usize) -> (r: bool)
        ensures
            r == (self.spec_count() >= limit),
    {
        self.0 >= limit
    }
}

/// What to do next when stepping through a chunk of column values.
#[derive(Debug, Clone, Copy, PartialEq, Eq, Structural)]
pub enum ChunkStep {
    /// The chunk is used up: read the next one.
    NeedChunk,
    /// The next row is null.
    Null,
    /// The next row holds the value at this position in the chunk's values.
    Value(usize),
}

/// The number of definition levels that mark a value as present.
pub open spec fn present_count(levels: Seq<i16>) -> nat
    decreases levels.len(),
{
    if levels.len() == 0 {
        0
    } else {
        present_count(levels.drop_last()) + if levels.last() != 0 {
            1nat
        } else {
            0nat
        }
    }
}

/// Steps through the rows of one chunk of a column that has no nulls.
#[derive(Debug)]
pub struct RequiredChunk {
    len: usize,
    index: Counter,
}

impl RequiredChunk {
    /// The rows in the chunk.
    pub closed spec fn spec_len(&self) -> usize {
        self.len
    }

    /// The rows already stepped through.
    pub closed spec fn spec_index(&self) -> usize {
        self.index.spec_count()
    }

    /// An empty chunk.
    pub fn new() -> (c: Self)
        ensures
            c.spec_len() == 0,
            c.spec_index() == 0,
    {
        RequiredChunk { len: 0, index: Counter::new() }
    }

    /// Starts a chunk of `n_read` rows.
    pub fn load(&mut self, n_read: usize)
        ensures
            final(self).spec_len() == n_read,
            final(self).spec_index() == 0,
    {
        self.len = n_read;
        self.index.reset();
    }

    /// The next step: the position of the next value, or that the chunk is used up.
    pub fn next(&mut self) -> (r: ChunkStep)
        requires
            old(self).spec_index() <= old(self).spec_len(),
        ensures
            final(self).spec_len() == old(self).spec_len(),
            final(self).spec_index() <= final(self).spec_len(),
            old(self).spec_index() == old(self).spec_len() ==> r == ChunkStep::NeedChunk
                && final(self).spec_index() == old(self).spec_index(),
            old(self).spec_index() < old(self).spec_len() ==> r == ChunkStep::Value(
                old(self).spec_index(),
            ) && final(self).spec_index() == old(self).spec_index() + 1,
    {
        if self.index.reached(self.len) {
            ChunkStep::NeedChunk
        } else {
            ChunkStep::Value(self.index.incr())
        }
    }
}

/// Steps through the rows of one chunk of a nullable column, using its definition levels:
/// a level of zero is a null row, anything else takes the next of the chunk's values.
#[derive(Debug)]
pub struct NullableChunk {
    def_levels: Vec<i16>,
    len: usize,
    index: Counter,
    value_index: Counter,
}

impl NullableChunk {
    /// True if the positions agree with the definition levels.
    pub closed spec fn wf(&self) -> bool {
        &&& self.index.spec_count() <= self.len <= self.def_levels@.len()
        &&& self.value_index.spec_count() == present_count(
            self.def_levels@.take(self.index.spec_count() as int),
        )
    }

    /// The rows in the chunk.
    pub closed spec fn spec_len(&self) -> usize {
        self.len
    }

    /// The rows already stepped through.
    pub closed spec fn spec_index(&self) -> usize {
        self.index.spec_count()
    }

    /// The definition levels of the chunk.
    pub closed spec fn spec_levels(&self) -> Seq<i16> {
        self.def_levels@
    }

    /// An empty chunk.
    pub fn new() -> (c: Self)
        ensures
            c.wf(),
            c.spec_len() == 0,
            c.spec_index() == 0,
            c.spec_levels().len() == 0,
    {
        let c = NullableChunk {
            def_levels: Vec::new(),
            len: 0,
            index: Counter::new(),
            value_index: Counter::new(),
        };
        assert(c.def_levels@.take(0) =~= Seq::<i16>::empty());
        c
    }

    /// Starts a chunk of `n_read` rows with these definition levels.
    pub fn load(&mut self, def_levels: Vec<i16>, n_read: usize)
        requires
            n_read <= def_levels@.len(),
        ensures
            final(self).wf(),
            final(self).spec_len() == n_read,
            final(self).spec_index() == 0,
            final(self).spec_levels() == def_levels@,
    {
        self.def_levels = def_levels;
        self.len = n_read;
        self.index.reset();
        self.value_index.reset();
        assert(self.def_levels@.take(0) =~= Seq::<i16>::empty());
    }

    /// The next step: whether the next row is null, the position of its value, or that the
    /// chunk is used up.
    pub fn next(&mut self) -> (r: ChunkStep)
        requires
            old(self).wf(),
        ensures
            final(self).wf(),
            final(self).spec_len() == old(self).spec_len(),
            final(self).spec_levels() == old(self).spec_levels(),
            old(self).spec_index() == old(self).spec_len() ==> r == ChunkStep::NeedChunk
                && final(self).spec_index() == old(self).spec_index(),
            old(self).spec_index() < old(self).spec_len() ==> {
                &&& final(self).spec_index() == old(self).spec_index() + 1
                &&& if old(self).spec_levels()[old(self).spec_index() as int] == 0 {
                    r == ChunkStep::Null
                } else {
                    r == ChunkStep::Value(
                        present_count(old(self).spec_levels().take(old(self).spec_index() as int))
                            as usize,
                    )
                }
            },
    {
        if self.index.reached(self.len) {
            return ChunkStep::NeedChunk;
        }
        let ghost i = self.index.spec_count();
        proof {
            let l = self.def_levels@;
            assert(l.take(i + 1).drop_last() =~= l.take(i as int));
            assert(l.take(i + 1).last() == l[i as int]);
            lemma_present_count_bound(l.take(i as int));
        }
        let level = self.def_levels[self.index.incr()];
        if level == 0 {
            ChunkStep::Null
        } else {
            ChunkStep::Value(self.value_index.incr())
        }
    }
}

proof fn lemma_present_count_bound(levels: Seq<i16>)
    ensures
        present_count(levels) <= levels.len(),
    decreases levels.len(),
{
    if levels.len() > 0 {
        lemma_present_count_bound(levels.drop_last());
    }
}

} // verus!

verus! {

/// What combining one item from each column gives: rows end at the first column that has
/// ended, fail with the first error, and otherwise hold the values in column order.
pub open spec fn spec_zip_row<T, E>(items: Seq<Option<Result<T, E>>>) -> Option<Result<Seq<T>, E>>
    decreases items.len(),
{
    if items.len() == 0 {
        Some(Ok(Seq::empty()))
    } else {
        match items[0] {
            None => None,
            Some(Err(e)) => Some(Err(e)),
            Some(Ok(v)) => match spec_zip_row(items.drop_first()) {
                Some(Ok(rest)) => Some(Ok(seq![v] + rest)),
                other => other,
            },
        }
    }
}

/// `done` followed by what the rest of the columns give.
pub open spec fn after_row<T, E>(done: Seq<T>, rest: Option<Result<Seq<T>, E>>) -> Option<
    Result<Seq<T>, E>,
> {
    match rest {
        Some(Ok(s)) => Some(Ok(done + s)),
        other => other,
    }
}

/// Combines one item from each column into a row, as [`spec_zip_row`] describes.
pub fn zip_row<T, E>(items: Vec<Option<Result<T, E>>>) -> (r: Option<Result<Vec<T>, E>>)
    ensures
        match spec_zip_row(items@) {
            None => r is None,
            Some(Err(e)) => r == Some(Err::<Vec<T>, E>(e)),
            Some(Ok(s)) => r matches Some(Ok(v)) && v@ == s,
        },
{
    let mut rest = items;
    let mut out: Vec<T> = Vec::new();
    while rest.len() > 0
        invariant
            spec_zip_row(items@) == after_row(out@, spec_zip_row(rest@)),
        decreases rest@.len(),
    {
        let ghost before = rest@;
        let item = rest.remove(0);
        proof {
            assert(rest@ =~= before.drop_first());
        }
        match item {
            None => return None,
            Some(Err(e)) => return Some(Err(e)),
            Some(Ok(v)) => {
                proof {
                    let tail = spec_zip_row(rest@);
                    match tail {
                        Some(Ok(s)) => {
                            assert(out@.push(v) + s =~= out@ + (seq![v] + s));
                        },
                        _ => {},
                    }
                }
                out.push(v);
            },
        }
    }
    proof {
        assert(out@ + Seq::<T>::empty() =~= out@);
    }
    Some(Ok(out))
}

/// What combining one item from each nullable column gives: as [`spec_zip_row`], except that
/// the first null makes the whole row null.
pub open spec fn spec_zip_nullable_row<T, E>(items: Seq<Option<Result<Option<T>, E>>>) -> Option<
    Result<Option<Seq<T>>, E>,
>
    decreases items.len(),
{
    if items.len() == 0 {
        Some(Ok(Some(Seq::empty())))
    } else {
        match items[0] {
            None => None,
            Some(Err(e)) => Some(Err(e)),
            Some(Ok(None)) => Some(Ok(None)),
            Some(Ok(Some(v))) => match spec_zip_nullable_row(items.drop_first()) {
                Some(Ok(Some(rest))) => Some(Ok(Some(seq![v] + rest))),
                other => other,
            },
        }
    }
}

/// `done` followed by what the rest of the nullable columns give.
pub open spec fn after_nullable_row<T, E>(
    done: Seq<T>,
    rest: Option<Result<Option<Seq<T>>, E>>,
) -> Option<Result<Option<Seq<T>>, E>> {
    match rest {
        Some(Ok(Some(s))) => Some(Ok(Some(done + s))),
        other => other,
    }
}

/// Combines one item from each nullable column into a row, as [`spec_zip_nullable_row`]
/// describes.
pub fn zip_nullable_row<T, E>(items: Vec<Option<Result<Option<T>, E>>>) -> (r: Option<
    Result<Option<Vec<T>>, E>,
>)
    ensures
        match spec_zip_nullable_row(items@) {
            None => r is None,
            Some(Err(e)) => r == Some(Err::<Option<Vec<T>>, E>(e)),
            Some(Ok(None)) => r == Some(Ok::<Option<Vec<T>>, E>(None)),
            Some(Ok(Some(s))) => r matches Some(Ok(Some(v))) && v@ == s,
        },
{
    let mut rest = items;
    let mut out: Vec<T> = Vec::new();
    while rest.len() > 0
        invariant
            spec_zip_nullable_row(items@) == after_nullable_row(
                out@,
                spec_zip_nullable_row(rest@),
            ),
        decreases rest@.len(),
    {
        let ghost before = rest@;
        let item = rest.remove(0);
        proof {
            assert(rest@ =~= before.drop_first());
        }
        match item {
            None => return None,
            Some(Err(e)) => return Some(Err(e)),
            Some(Ok(None)) => return Some(Ok(None)),
            Some(Ok(Some(v))) => {
                proof {
                    let tail = spec_zip_nullable_row(rest@);
                    match tail {
                        Some(Ok(Some(s))) => {
                            assert(out@.push(v) + s =~= out@ + (seq![v] + s));
                        },
                        _ => {},
                    }
                }
                out.push(v);
            },
        }
    }
    proof {
        assert(out@ + Seq::<T>::empty() =~= out@);
    }
    Some(Ok(Some(out)))
}

} // verus!
