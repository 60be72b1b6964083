//! The columnar batch converter: rows are partitioned into contiguous
//! chunks of at most the batch size, and each chunk is folded into one
//! strongly-typed columnar batch by dispatching every schema entry to its
//! coercion routine.

use vstd::prelude::*;

use crate::cell::Cell;
use crate::coerce::{
    boolean_slot, cell_at, coerce_boolean_at, coerce_float64_at, coerce_int64_at,
    coerce_timestamp_at, coerce_utf8_at, float64_slot, int64_slot, opt_str_view, timestamp_slot,
    utf8_slot,
};
use crate::schema::{ColumnType, Field, Schema};

verus! {

/// One strongly-typed output array: one slot per row of the chunk, null
/// where coercion degraded. Float64 slots are IEEE-754 bit patterns, and
/// timestamp slots whole nanoseconds since the epoch (UTC).
#[derive(Debug, Clone, PartialEq)]
pub enum ColumnData {
    Int64 { values: Vec<Option<i64>> },
    Float64 { bits: Vec<Option<u64>> },
    Utf8 { values: Vec<Option<String>> },
    Boolean { values: Vec<Option<bool>> },
    TimestampNanosecond { values: Vec<Option<i64>> },
}

/// A columnar snapshot of one chunk of consecutive rows: one array per
/// schema entry, in schema order, all of equal length. Self-contained and
/// immutable once produced.
#[derive(Debug, Clone, PartialEq)]
pub struct Batch {
    pub columns: Vec<ColumnData>,
}

/// The one conversion failure: a schema entry declared a target type the
/// converter does not implement. Carries that type's display name.
#[derive(Debug, Clone, PartialEq)]
pub struct ConvertError {
    pub unsupported_type: String,
}

/// The number of slots in one output array.
pub open spec fn column_len(c: ColumnData) -> nat {
    match c {
        ColumnData::Int64 { values } => values@.len(),
        ColumnData::Float64 { bits } => bits@.len(),
        ColumnData::Utf8 { values } => values@.len(),
        ColumnData::Boolean { values } => values@.len(),
        ColumnData::TimestampNanosecond { values } => values@.len(),
    }
}

/// Whether the converter implements a coercion routine for `ty`.
pub open spec fn is_supported(ty: ColumnType) -> bool {
    !(ty matches ColumnType::Other { .. })
}

/// The display name of a target type the converter does not implement.
pub open spec fn other_name(ty: ColumnType) -> Seq<char> {
    match ty {
        ColumnType::Other { name } => name@,
        _ => Seq::empty(),
    }
}

/// The name of the first schema entry's type with no coercion routine, or
/// `None` where every entry is implemented.
pub open spec fn first_unsupported(fields: Seq<Field>) -> Option<Seq<char>>
    decreases fields.len(),
{
    if fields.len() == 0 {
        None
    } else if !is_supported(fields[0].column_type) {
        Some(other_name(fields[0].column_type))
    } else {
        first_unsupported(fields.drop_first())
    }
}

/// Whether `c` is the output array that schema entry `j` of type `ty`
/// demands for rows `lo..hi`: the matching variant, one slot per row, each
/// slot the coercion of the cell at position `j` of its row.
pub open spec fn column_matches(
    c: ColumnData,
    ty: ColumnType,
    rows: Seq<Vec<Cell>>,
    lo: int,
    hi: int,
    j: int,
) -> bool {
    match ty {
        ColumnType::Int64 => c matches ColumnData::Int64 { values } && values@.len() == hi - lo
            && forall|k: int|
            0 <= k < hi - lo ==> #[trigger] values@[k] == int64_slot(cell_at(rows[lo + k]@, j)),
        ColumnType::Float64 => c matches ColumnData::Float64 { bits } && bits@.len() == hi - lo
            && forall|k: int|
            0 <= k < hi - lo ==> #[trigger] bits@[k] == float64_slot(cell_at(rows[lo + k]@, j)),
        ColumnType::Utf8 => c matches ColumnData::Utf8 { values } && values@.len() == hi - lo
            && forall|k: int|
            0 <= k < hi - lo ==> opt_str_view(#[trigger] values@[k]) == utf8_slot(
                cell_at(rows[lo + k]@, j),
            ),
        ColumnType::Boolean => c matches ColumnData::Boolean { values } && values@.len() == hi - lo
            && forall|k: int|
            0 <= k < hi - lo ==> #[trigger] values@[k] == boolean_slot(cell_at(rows[lo + k]@, j)),
        ColumnType::TimestampNanosecond => c matches ColumnData::TimestampNanosecond { values }
            && values@.len() == hi - lo && forall|k: int|
            0 <= k < hi - lo ==> #[trigger] values@[k] == timestamp_slot(cell_at(rows[lo + k]@, j)),
        ColumnType::Other { .. } => false,
    }
}

/// Whether `b` is the batch that the schema demands for rows `lo..hi`: one
/// matching array per schema entry, in schema order.
pub open spec fn batch_ok(
    b: Batch,
    rows: Seq<Vec<Cell>>,
    fields: Seq<Field>,
    lo: int,
    hi: int,
) -> bool {
    b.columns@.len() == fields.len() && forall|j: int|
        0 <= j < fields.len() ==> column_matches(
            #[trigger] b.columns@[j],
            fields[j].column_type,
            rows,
            lo,
            hi,
            j,
        )
}

/// What building one chunk must yield: the error naming the first
/// unimplemented target type where the schema holds one, else the batch
/// the schema demands.
pub open spec fn chunk_result_ok(
    r: Result<Batch, ConvertError>,
    rows: Seq<Vec<Cell>>,
    fields: Seq<Field>,
    lo: int,
    hi: int,
) -> bool {
    match first_unsupported(fields) {
        Some(name) => r matches Err(e) && e.unsupported_type@ == name,
        None => r matches Ok(b) && batch_ok(b, rows, fields, lo, hi),
    }
}

proof fn lemma_first_unsupported_none(fields: Seq<Field>)
    requires
        forall|j: int| 0 <= j < fields.len() ==> is_supported((#[trigger] fields[j]).column_type),
    ensures
        first_unsupported(fields) is None,
    decreases fields.len(),
{
    if fields.len() > 0 {
        lemma_first_unsupported_none(fields.drop_first());
    }
}

proof fn lemma_first_unsupported_at(fields: Seq<Field>, j: int)
    requires
        0 <= j < fields.len(),
        forall|k: int| 0 <= k < j ==> is_supported((#[trigger] fields[k]).column_type),
        !is_supported(fields[j].column_type),
    ensures
        first_unsupported(fields) == Some(other_name(fields[j].column_type)),
    decreases j,
{
    if j > 0 {
        assert(forall|k: int|
            0 <= k < j - 1 ==> is_supported(
                (#[trigger] fields.drop_first()[k]).column_type,
            ));
        lemma_first_unsupported_at(fields.drop_first(), j - 1);
    }
}

fn build_int64_column(rows: &Vec<Vec<Cell>>, lo: usize, hi: usize, j: usize) -> (r: Vec<
    Option<i64>,
>)
    requires
        lo <= hi <= rows@.len(),
    ensures
        r@.len() == hi - lo,
        forall|k: int|
            0 <= k < hi - lo ==> #[trigger] r@[k] == int64_slot(cell_at(rows@[lo + k]@, j as int)),
{
    let mut v: Vec<Option<i64>> = Vec::new();
    let mut idx: usize = lo;
    while idx < hi
        invariant
            lo <= idx <= hi <= rows@.len(),
            v@.len() == idx - lo,
            forall|k: int|
                0 <= k < idx - lo ==> #[trigger] v@[k] == int64_slot(
                    cell_at(rows@[lo + k]@, j as int),
                ),
        decreases hi - idx,
    {
        v.push(coerce_int64_at(&rows[idx], j));
        idx += 1;
    }
    v
}

fn build_float64_column(rows: &Vec<Vec<Cell>>, lo: usize, hi: usize, j: usize) -> (r: Vec<
    Option<u64>,
>)
    requires
        lo <= hi <= rows@.len(),
    ensures
        r@.len() == hi - lo,
        forall|k: int|
            0 <= k < hi - lo ==> #[trigger] r@[k] == float64_slot(
                cell_at(rows@[lo + k]@, j as int),
            ),
{
    let mut v: Vec<Option<u64>> = Vec::new();
    let mut idx: usize = lo;
    while idx < hi
        invariant
            lo <= idx <= hi <= rows@.len(),
            v@.len() == idx - lo,
            forall|k: int|
                0 <= k < idx - lo ==> #[trigger] v@[k] == float64_slot(
                    cell_at(rows@[lo + k]@, j as int),
                ),
        decreases hi - idx,
    {
        v.push(coerce_float64_at(&rows[idx], j));
        idx += 1;
    }
    v
}

fn build_utf8_column(rows: &Vec<Vec<Cell>>, lo: usize, hi: usize, j: usize) -> (r: Vec<
    Option<String>,
>)
    requires
        lo <= hi <= rows@.len(),
    ensures
        r@.len() == hi - lo,
        forall|k: int|
            0 <= k < hi - lo ==> opt_str_view(#[trigger] r@[k]) == utf8_slot(
                cell_at(rows@[lo + k]@, j as int),
            ),
{
    let mut v: Vec<Option<String>> = Vec::new();
    let mut idx: usize = lo;
    while idx < hi
        invariant
            lo <= idx <= hi <= rows@.len(),
            v@.len() == idx - lo,
            forall|k: int|
                0 <= k < idx - lo ==> opt_str_view(#[trigger] v@[k]) == utf8_slot(
                    cell_at(rows@[lo + k]@, j as int),
                ),
        decreases hi - idx,
    {
        v.push(coerce_utf8_at(&rows[idx], j));
        idx += 1;
    }
    v
}

fn build_boolean_column(rows: &Vec<Vec<Cell>>, lo: usize, hi: usize, j: usize) -> (r: Vec<
    Option<bool>,
>)
    requires
        lo <= hi <= rows@.len(),
    ensures
        r@.len() == hi - lo,
        forall|k: int|
            0 <= k < hi - lo ==> #[trigger] r@[k] == boolean_slot(
                cell_at(rows@[lo + k]@, j as int),
            ),
{
    let mut v: Vec<Option<bool>> = Vec::new();
    let mut idx: usize = lo;
    while idx < hi
        invariant
            lo <= idx <= hi <= rows@.len(),
            v@.len() == idx - lo,
            forall|k: int|
                0 <= k < idx - lo ==> #[trigger] v@[k] == boolean_slot(
                    cell_at(rows@[lo + k]@, j as int),
                ),
        decreases hi - idx,
    {
        v.push(coerce_boolean_at(&rows[idx], j));
        idx += 1;
    }
    v
}

fn build_timestamp_column(rows: &Vec<Vec<Cell>>, lo: usize, hi: usize, j: usize) -> (r: Vec<
    Option<i64>,
>)
    requires
        lo <= hi <= rows@.len(),
    ensures
        r@.len() == hi - lo,
        forall|k: int|
            0 <= k < hi - lo ==> #[trigger] r@[k] == timestamp_slot(
                cell_at(rows@[lo + k]@, j as int),
            ),
{
    let mut v: Vec<Option<i64>> = Vec::new();
    let mut idx: usize = lo;
    while idx < hi
        invariant
            lo <= idx <= hi <= rows@.len(),
            v@.len() == idx - lo,
            forall|k: int|
                0 <= k < idx - lo ==> #[trigger] v@[k] == timestamp_slot(
                    cell_at(rows@[lo + k]@, j as int),
                ),
        decreases hi - idx,
    {
        v.push(coerce_timestamp_at(&rows[idx], j));
        idx += 1;
    }
    v
}

/// Fold rows `lo..hi` into one batch against the schema entries, or fail
/// with the first target type no coercion routine implements.
pub fn build_chunk(rows: &Vec<Vec<Cell>>, fields: &Vec<Field>, lo: usize, hi: usize) -> (r: Result<
    Batch,
    ConvertError,
>)
    requires
        lo <= hi <= rows@.len(),
    ensures
        chunk_result_ok(r, rows@, fields@, lo as int, hi as int),
{
    let mut columns: Vec<ColumnData> = Vec::new();
    let mut j: usize = 0;
    while j < fields.len()
        invariant
            lo <= hi <= rows@.len(),
            j <= fields@.len(),
            columns@.len() == j,
            forall|m: int| 0 <= m < j ==> is_supported((#[trigger] fields@[m]).column_type),
            forall|m: int|
                0 <= m < j ==> column_matches(
                    #[trigger] columns@[m],
                    fields@[m].column_type,
                    rows@,
                    lo as int,
                    hi as int,
                    m,
                ),
        decreases fields@.len() - j,
    {
        let column = match &fields[j].column_type {
            ColumnType::Int64 => ColumnData::Int64 { values: build_int64_column(rows, lo, hi, j) },
            ColumnType::Float64 => ColumnData::Float64 {
                bits: build_float64_column(rows, lo, hi, j),
            },
            ColumnType::Utf8 => ColumnData::Utf8 { values: build_utf8_column(rows, lo, hi, j) },
            ColumnType::Boolean => ColumnData::Boolean {
                values: build_boolean_column(rows, lo, hi, j),
            },
            ColumnType::TimestampNanosecond => ColumnData::TimestampNanosecond {
                values: build_timestamp_column(rows, lo, hi, j),
            },
            ColumnType::Other { name } => {
                proof {
                    lemma_first_unsupported_at(fields@, j as int);
                }
                return Err(ConvertError { unsupported_type: name.clone() });
            },
        };
        columns.push(column);
        j += 1;
    }
    proof {
        lemma_first_unsupported_none(fields@);
    }
    Ok(Batch { columns })
}

/// The smaller of two integers.
pub open spec fn spec_min(a: int, b: int) -> int {
    if a < b {
        a
    } else {
        b
    }
}

/// How many chunks `nrows` rows fall into at `n` rows per chunk: the
/// ceiling of `nrows / n`.
pub open spec fn num_batches(nrows: int, n: int) -> int {
    (nrows + n - 1) / n
}

/// The first row of chunk `i`.
pub open spec fn chunk_lo(n: int, i: int) -> int {
    i * n
}

/// One past the last row of chunk `i`.
pub open spec fn chunk_hi(nrows: int, n: int, i: int) -> int {
    spec_min(i * n + n, nrows)
}

/// What a whole conversion run must yield for `rows` against `fields` at
/// `n` rows per batch: nothing for empty input; exactly one error element
/// where the schema declares an unimplemented target type; else one batch
/// per chunk, in row order.
pub open spec fn converted(
    rows: Seq<Vec<Cell>>,
    fields: Seq<Field>,
    n: int,
    out: Seq<Result<Batch, ConvertError>>,
) -> bool {
    if rows.len() == 0 {
        out.len() == 0
    } else {
        match first_unsupported(fields) {
            Some(name) => out.len() == 1 && (out[0] matches Err(e) && e.unsupported_type@ == name),
            None => out.len() == num_batches(rows.len() as int, n) && forall|i: int|
                0 <= i < out.len() ==> ((#[trigger] out[i]) matches Ok(b) && batch_ok(
                    b,
                    rows,
                    fields,
                    chunk_lo(n, i),
                    chunk_hi(rows.len() as int, n, i),
                )),
        }
    }
}

/// A lazy, forward-only conversion run: one batch materializes per
/// `next_batch` call, and nothing is computed ahead of the call. The rows
/// and the schema are never mutated, so re-running a conversion over the
/// same inputs reproduces the same sequence.
pub struct Converter {
    pub rows: Vec<Vec<Cell>>,
    pub schema: Schema,
    pub batch_size: usize,
    pub pos: usize,
}

impl Converter {
    /// The cursor's validity: a positive batch size, and a position inside
    /// the row set.
    pub open spec fn wf(self) -> bool {
        self.batch_size > 0 && self.pos <= self.rows@.len()
    }

    /// Start a conversion run over `rows` against `schema`, at most
    /// `batch_size` rows per batch.
    pub fn new(rows: Vec<Vec<Cell>>, schema: Schema, batch_size: usize) -> (r: Converter)
        requires
            batch_size > 0,
        ensures
            r.rows == rows,
            r.schema == schema,
            r.batch_size == batch_size,
            r.pos == 0,
            r.wf(),
    {
        Converter { rows, schema, batch_size, pos: 0 }
    }

    /// Produce the next batch of the run, or `None` once every row is
    /// consumed. Exactly the work for one chunk happens per call.
    pub fn next_batch(&mut self) -> (r: Option<Result<Batch, ConvertError>>)
        requires
            old(self).wf(),
        ensures
            final(self).wf(),
            final(self).rows == old(self).rows,
            final(self).schema == old(self).schema,
            final(self).batch_size == old(self).batch_size,
            old(self).pos == old(self).rows@.len() ==> r is None && final(self).pos == old(
                self,
            ).pos,
            old(self).pos < old(self).rows@.len() ==> {
                let hi = spec_min(old(self).pos + old(self).batch_size, old(self).rows@.len() as int);
                &&& final(self).pos == hi
                &&& r matches Some(res) && chunk_result_ok(
                    res,
                    old(self).rows@,
                    old(self).schema.fields@,
                    old(self).pos as int,
                    hi,
                )
            },
    {
        if self.pos >= self.rows.len() {
            return None;
        }
        let lo = self.pos;
        let hi = if self.batch_size < self.rows.len() - lo {
            lo + self.batch_size
        } else {
            self.rows.len()
        };
        let res = build_chunk(&self.rows, &self.schema.fields, lo, hi);
        self.pos = hi;
        Some(res)
    }
}

proof fn lemma_mul_step(i: int, n: int)
    by (nonlinear_arith)
    ensures
        (i + 1) * n == i * n + n,
{
}

proof fn lemma_mul_le(i: int, n: int)
    by (nonlinear_arith)
    requires
        0 <= i,
        1 <= n,
    ensures
        i <= i * n,
{
}

proof fn lemma_ceil_unique(nrows: int, n: int, i: int)
    by (nonlinear_arith)
    requires
        n > 0,
        nrows > 0,
        i * n >= nrows,
        (i - 1) * n < nrows,
    ensures
        i == num_batches(nrows, n),
{
}

/// Convert a whole row set eagerly: the batches of the run in order, or,
/// where the schema declares an unimplemented target type and at least one
/// row exists, the single error element the run yields before stopping.
pub fn convert_all(rows: &Vec<Vec<Cell>>, schema: &Schema, batch_size: usize) -> (out: Vec<
    Result<Batch, ConvertError>,
>)
    requires
        batch_size > 0,
    ensures
        converted(rows@, schema.fields@, batch_size as int, out@),
{
    let ghost n: int = batch_size as int;
    let ghost nrows: int = rows@.len() as int;
    let mut out: Vec<Result<Batch, ConvertError>> = Vec::new();
    let mut pos: usize = 0;
    let mut i: usize = 0;
    while pos < rows.len()
        invariant
            batch_size as int == n,
            n > 0,
            nrows == rows@.len(),
            pos <= rows@.len(),
            out@.len() == i,
            pos as int == spec_min(i * n, nrows),
            i > 0 ==> (i - 1) * n < nrows,
            i > 0 ==> first_unsupported(schema.fields@) is None,
            forall|m: int|
                0 <= m < i ==> ((#[trigger] out@[m]) matches Ok(b) && batch_ok(
                    b,
                    rows@,
                    schema.fields@,
                    chunk_lo(n, m),
                    chunk_hi(nrows, n, m),
                )),
        decreases nrows - pos,
    {
        proof {
            lemma_mul_le(i as int, n);
            lemma_mul_step(i as int, n);
        }
        let hi = if batch_size < rows.len() - pos {
            pos + batch_size
        } else {
            rows.len()
        };
        let res = build_chunk(rows, &schema.fields, pos, hi);
        match res {
            Ok(b) => {
                out.push(Ok(b));
                i += 1;
                pos = hi;
            },
            Err(e) => {
                proof {
                    assert(first_unsupported(schema.fields@) is Some);
                    assert(i == 0);
                }
                out.push(Err(e));
                return out;
            },
        }
    }
    proof {
        if nrows > 0 {
            lemma_ceil_unique(nrows, n, i as int);
        }
    }
    out
}

/// Shape invariant: every batch a conversion produces has exactly one
/// array per schema entry, and all arrays within one batch have equal
/// length — the number of rows folded into it.
pub proof fn lemma_batch_shape(b: Batch, rows: Seq<Vec<Cell>>, fields: Seq<Field>, lo: int, hi: int)
    requires
        batch_ok(b, rows, fields, lo, hi),
        lo <= hi,
    ensures
        b.columns@.len() == fields.len(),
        forall|j: int| 0 <= j < b.columns@.len() ==> column_len(#[trigger] b.columns@[j]) == hi - lo,
{
    assert forall|j: int| 0 <= j < b.columns@.len() implies column_len(#[trigger] b.columns@[j])
        == hi - lo by {
        assert(column_matches(b.columns@[j], fields[j].column_type, rows, lo, hi, j));
    }
}

/// Chunk-size law: for row count `nrows` and batch size `n`, a run over a
/// schema whose entries are all implemented produces `ceil(nrows / n)`
/// batches (see `converted`); every chunk but the last holds exactly `n`
/// rows, and the last holds `nrows mod n` rows where that is non-zero,
/// else `n`. With an unimplemented declared type the run yields a single
/// error element instead.
pub proof fn lemma_chunk_law(nrows: int, n: int, i: int)
    by (nonlinear_arith)
    requires
        n > 0,
        nrows >= 0,
        0 <= i < num_batches(nrows, n),
    ensures
        chunk_lo(n, i) == i * n,
        chunk_hi(nrows, n, i) - chunk_lo(n, i) == if i + 1 < num_batches(nrows, n) {
            n
        } else if nrows % n == 0 {
            n
        } else {
            nrows % n
        },
{
}

/// Empty input: zero data rows yield zero batches and no error, whatever
/// the schema declares.
pub proof fn lemma_empty_input(
    rows: Seq<Vec<Cell>>,
    fields: Seq<Field>,
    n: int,
    out: Seq<Result<Batch, ConvertError>>,
)
    requires
        rows.len() == 0,
        converted(rows, fields, n, out),
    ensures
        out.len() == 0,
{
}

/// Element-wise sameness of two output arrays: the same variant, the same
/// length, and the same value in every slot.
pub open spec fn column_same(c1: ColumnData, c2: ColumnData) -> bool {
    match (c1, c2) {
        (ColumnData::Int64 { values: v1 }, ColumnData::Int64 { values: v2 }) => v1@ =~= v2@,
        (ColumnData::Float64 { bits: b1 }, ColumnData::Float64 { bits: b2 }) => b1@ =~= b2@,
        (ColumnData::Utf8 { values: v1 }, ColumnData::Utf8 { values: v2 }) => v1@.len()
            == v2@.len() && forall|k: int|
            0 <= k < v1@.len() ==> opt_str_view(#[trigger] v1@[k]) == opt_str_view(v2@[k]),
        (ColumnData::Boolean { values: v1 }, ColumnData::Boolean { values: v2 }) => v1@ =~= v2@,
        (
            ColumnData::TimestampNanosecond { values: v1 },
            ColumnData::TimestampNanosecond { values: v2 },
        ) => v1@ =~= v2@,
        _ => false,
    }
}

/// Element-wise sameness of two run outputs: the same length, and at each
/// position either the same error name or batches whose arrays agree slot
/// for slot.
pub open spec fn outputs_same(
    o1: Seq<Result<Batch, ConvertError>>,
    o2: Seq<Result<Batch, ConvertError>>,
) -> bool {
    o1.len() == o2.len() && forall|i: int|
        0 <= i < o1.len() ==> match (#[trigger] o1[i], o2[i]) {
            (Ok(b1), Ok(b2)) => b1.columns@.len() == b2.columns@.len() && forall|j: int|
                0 <= j < b1.columns@.len() ==> column_same(
                    #[trigger] b1.columns@[j],
                    b2.columns@[j],
                ),
            (Err(e1), Err(e2)) => e1.unsupported_type@ == e2.unsupported_type@,
            _ => false,
        }
}

proof fn lemma_column_matches_same(
    c1: ColumnData,
    c2: ColumnData,
    ty: ColumnType,
    rows: Seq<Vec<Cell>>,
    lo: int,
    hi: int,
    j: int,
)
    requires
        column_matches(c1, ty, rows, lo, hi, j),
        column_matches(c2, ty, rows, lo, hi, j),
    ensures
        column_same(c1, c2),
{
    match (c1, c2) {
        (ColumnData::Int64 { values: v1 }, ColumnData::Int64 { values: v2 }) => {
            assert(v1@ =~= v2@);
        },
        (ColumnData::Float64 { bits: v1 }, ColumnData::Float64 { bits: v2 }) => {
            assert(v1@ =~= v2@);
        },
        (ColumnData::Utf8 { values: v1 }, ColumnData::Utf8 { values: v2 }) => {},
        (ColumnData::Boolean { values: v1 }, ColumnData::Boolean { values: v2 }) => {
            assert(v1@ =~= v2@);
        },
        (
            ColumnData::TimestampNanosecond { values: v1 },
            ColumnData::TimestampNanosecond { values: v2 },
        ) => {
            assert(v1@ =~= v2@);
        },
        _ => {},
    }
}

/// Idempotence and restartability: two conversion runs over the same rows,
/// the same schema and the same batch size yield element-wise identical
/// sequences.
pub proof fn lemma_restartable(
    rows: Seq<Vec<Cell>>,
    fields: Seq<Field>,
    n: int,
    out1: Seq<Result<Batch, ConvertError>>,
    out2: Seq<Result<Batch, ConvertError>>,
)
    requires
        converted(rows, fields, n, out1),
        converted(rows, fields, n, out2),
    ensures
        outputs_same(out1, out2),
{
    if rows.len() == 0 {
    } else if first_unsupported(fields) is Some {
    } else {
        assert forall|i: int| 0 <= i < out1.len() implies match (#[trigger] out1[i], out2[i]) {
            (Ok(b1), Ok(b2)) => b1.columns@.len() == b2.columns@.len() && forall|j: int|
                0 <= j < b1.columns@.len() ==> column_same(
                    #[trigger] b1.columns@[j],
                    b2.columns@[j],
                ),
            (Err(e1), Err(e2)) => e1.unsupported_type@ == e2.unsupported_type@,
            _ => false,
        } by {
            let lo = chunk_lo(n, i);
            let hi = chunk_hi(rows.len() as int, n, i);
            let b1 = out1[i]->Ok_0;
            let b2 = out2[i]->Ok_0;
            assert(batch_ok(b1, rows, fields, lo, hi));
            assert(batch_ok(b2, rows, fields, lo, hi));
            assert forall|j: int| 0 <= j < b1.columns@.len() implies column_same(
                #[trigger] b1.columns@[j],
                b2.columns@[j],
            ) by {
                assert(column_matches(b1.columns@[j], fields[j].column_type, rows, lo, hi, j));
                assert(column_matches(b2.columns@[j], fields[j].column_type, rows, lo, hi, j));
                lemma_column_matches_same(
                    b1.columns@[j],
                    b2.columns@[j],
                    fields[j].column_type,
                    rows,
                    lo,
                    hi,
                    j,
                );
            }
        }
    }
}

} // verus!
