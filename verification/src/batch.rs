//! Size-bounded batches for bulk writes.

use crate::aggregate::ProductRecord;
use vstd::prelude::*;

verus! {

/// Largest number of bound parameters that one bulk write may carry.
pub const MAX_PARAMS: usize = 65535;

/// A run of neighbouring records: those at the positions from `start` up to,
/// and without, `end`.
#[derive(Clone, Copy, Debug, PartialEq, Eq, Structural)]
pub struct Batch {
    pub start: usize,
    pub end: usize,
}

/// The link from a stored product back to the building-block binding that
/// produced it.
#[derive(Clone, Copy, Debug, PartialEq, Eq, Structural)]
pub struct OriginLink {
    pub block_binding: i64,
    pub product: i64,
}

/// The largest number of records of `field_count` fields each that fit into one
/// write carrying at most `max_params` parameters.
pub open spec fn spec_batch_size(max_params: nat, field_count: nat) -> nat {
    max_params / field_count
}

/// The number of batches of `size` records that hold `len` records: none
/// for no records, whatever the size.
pub open spec fn spec_batch_count(len: nat, size: nat) -> nat {
    if len == 0 {
        0
    } else {
        ((len + size - 1) / (size as int)) as nat
    }
}

/// The smaller of two numbers.
pub open spec fn spec_min(a: int, b: int) -> int {
    if a <= b {
        a
    } else {
        b
    }
}

/// The larger of two numbers.
pub open spec fn spec_max(a: int, b: int) -> int {
    if a >= b {
        a
    } else {
        b
    }
}

/// `batches` cuts `len` records into runs of `size`, in order, the last run
/// holding what is left.
pub open spec fn is_partition(len: nat, size: nat, batches: Seq<Batch>) -> bool {
    &&& batches.len() == spec_batch_count(len, size)
    &&& forall|b: int|
        0 <= b < batches.len() ==> (#[trigger] batches[b]).start == b * size && batches[b].end
            == spec_min((b + 1) * size, len as int)
}

/// The share of `total` records that each of `workers` takes, rounded up, but
/// no more than fit into one write, and at least one record.
pub open spec fn spec_chunk_size(total: nat, workers: nat, max_params: nat, field_count: nat) -> int {
    spec_max(
        1,
        spec_min(((total + workers - 1) / (workers as int)), (max_params / field_count) as int),
    )
}

/// Number of records per write: `max_params / field_count`, rounded down.
pub fn batch_size(max_params: usize, field_count: usize) -> (size: usize)
    requires
        field_count > 0,
    ensures
        size == spec_batch_size(max_params as nat, field_count as nat),
        size * field_count <= max_params,
{
    let size = max_params / field_count;
    assert(size * field_count <= max_params) by (nonlinear_arith)
        requires
            size == max_params as int / field_count as int,
            field_count > 0,
            max_params >= 0,
    ;
    size
}

/// Number of products per write, where each write of products is followed by
/// a write of as many origin links: the batch size of the wider of the two
/// records. Nothing where a record has no field.
pub fn product_batch_size(product_fields: usize, origin_fields: usize) -> (size: Option<usize>)
    ensures
        size.is_some() <==> product_fields > 0 && origin_fields > 0,
        size matches Some(n) ==> n == spec_batch_size(
            MAX_PARAMS as nat,
            spec_max(product_fields as int, origin_fields as int) as nat,
        ),
        size matches Some(n) ==> n * product_fields <= MAX_PARAMS && n * origin_fields
            <= MAX_PARAMS,
{
    if product_fields == 0 || origin_fields == 0 {
        return None;
    }
    let widest = if product_fields >= origin_fields {
        product_fields
    } else {
        origin_fields
    };
    let n = batch_size(MAX_PARAMS, widest);
    assert(n * product_fields <= MAX_PARAMS && n * origin_fields <= MAX_PARAMS) by (nonlinear_arith)
        requires
            n * widest <= MAX_PARAMS,
            0 < product_fields <= widest,
            0 < origin_fields <= widest,
            n >= 0,
    ;
    Some(n)
}

/// The records per write when `total` records are spread over `workers`: each
/// worker's share, rounded up, capped by what one write can carry, and never
/// less than one record, also where there is nothing to share out. Nothing
/// where there is no worker or not even one record fits a write.
pub fn insert_chunk_size(total: usize, workers: usize, max_params: usize, field_count: usize) -> (size:
    Option<usize>)
    ensures
        size.is_some() <==> workers > 0 && 0 < field_count <= max_params,
        size matches Some(n) ==> n == spec_chunk_size(
            total as nat,
            workers as nat,
            max_params as nat,
            field_count as nat,
        ),
        size matches Some(n) ==> 1 <= n <= spec_batch_size(max_params as nat, field_count as nat),
        size matches Some(n) ==> (total == 0 ==> n == 1),
{
    if workers == 0 || field_count == 0 || field_count > max_params {
        return None;
    }
    let whole = total / workers;
    assert(total % workers != 0 ==> whole < total) by (nonlinear_arith)
        requires
            workers > 0,
            whole == total as int / workers as int,
    ;
    let share = if total % workers == 0 {
        whole
    } else {
        whole + 1
    };
    assert(share == (total + workers - 1) / (workers as int)) by (nonlinear_arith)
        requires
            workers > 0,
            whole == total as int / workers as int,
            share == if total as int % workers as int == 0 {
                whole as int
            } else {
                whole + 1
            },
    ;
    let cap = max_params / field_count;
    assert(cap >= 1) by (nonlinear_arith)
        requires
            cap == max_params as int / field_count as int,
            0 < field_count <= max_params,
    ;
    if share == 0 {
        Some(1)
    } else if share <= cap {
        Some(share)
    } else {
        Some(cap)
    }
}

/// Cuts `len` records into batches of `size`: full batches in order, and a
/// last one with what is left. No records make no batch, whatever the size.
/// Nothing where there are records and `size` is zero.
pub fn partition(len: usize, size: usize) -> (batches: Option<Vec<Batch>>)
    ensures
        batches.is_some() <==> size > 0 || len == 0,
        batches matches Some(b) ==> is_partition(len as nat, size as nat, b@),
        batches matches Some(b) ==> (b@.len() == 0 <==> len == 0),
{
    if len == 0 {
        return Some(Vec::new());
    }
    if size == 0 {
        return None;
    }
    let mut batches: Vec<Batch> = Vec::new();
    let mut start: usize = 0;
    assert(0 * size == 0) by (nonlinear_arith);
    while start < len
        invariant
            size > 0,
            0 <= start <= len,
            start == batches@.len() * size,
            start == len ==> batches@.len() == 0,
            forall|b: int|
                0 <= b < batches@.len() ==> (#[trigger] batches@[b]).start == b * size
                    && batches@[b].end == spec_min((b + 1) * size, len as int),
        decreases len - start,
    {
        let end = if len - start <= size {
            len
        } else {
            start + size
        };
        let ghost count = batches@.len() as int;
        assert((count + 1) * size == count * size + size) by (nonlinear_arith);
        batches.push(Batch { start, end });
        if end == len {
            proof {
                lemma_batch_count(len as int, size as int, count + 1);
            }
            return Some(batches);
        }
        start = end;
    }
    proof {
        lemma_batch_count(len as int, size as int, batches@.len() as int);
    }
    Some(batches)
}

/// `count` batches hold `len` records where the last of them is the first to
/// reach `len`.
proof fn lemma_batch_count(len: int, size: int, count: int)
    requires
        size > 0,
        len >= 0,
        count >= 0,
        count * size >= len,
        count > 0 ==> (count - 1) * size < len,
    ensures
        count == (len + size - 1) / size,
{
    assert(count == (len + size - 1) / size) by (nonlinear_arith)
        requires
            size > 0,
            len >= 0,
            count >= 0,
            count * size >= len,
            count > 0 ==> (count - 1) * size < len,
    ;
}

/// The batches for `len` records of `field_count` fields each under a limit
/// of `max_params` parameters per write. No batch carries more records than
/// `max_params / field_count`, rounded down. No records make no batch, so
/// that nothing is written. Nothing where there are records and not even
/// one of them fits a write.
pub fn plan_batches(len: usize, max_params: usize, field_count: usize) -> (batches: Option<
    Vec<Batch>,
>)
    ensures
        batches.is_some() <==> len == 0 || 0 < field_count <= max_params,
        batches matches Some(b) ==> (b@.len() == 0 <==> len == 0),
        batches matches Some(b) ==> is_partition(
            len as nat,
            spec_batch_size(max_params as nat, field_count as nat),
            b@,
        ),
        batches matches Some(b) ==> forall|i: int|
            0 <= i < b@.len() ==> 0 < (#[trigger] b@[i]).end - b@[i].start <= spec_batch_size(
                max_params as nat,
                field_count as nat,
            ),
{
    if len == 0 {
        return Some(Vec::new());
    }
    if field_count == 0 {
        return None;
    }
    let size = batch_size(max_params, field_count);
    assert(size > 0 <==> field_count <= max_params) by (nonlinear_arith)
        requires
            size == max_params as int / field_count as int,
            field_count > 0,
    ;
    let batches = partition(len, size);
    proof {
        if batches.is_some() {
            lemma_partition_shape(len as nat, size as nat, batches.unwrap()@);
        }
    }
    batches
}

/// The writes for `total` records that are spread over `workers`: batches of
/// `insert_chunk_size` records each. No records make no batch, so that
/// nothing is written, whatever the workers and the limit. Nothing where
/// there are records and no worker, or not even one record fits a write.
pub fn plan_inserts(total: usize, workers: usize, max_params: usize, field_count: usize) -> (batches:
    Option<Vec<Batch>>)
    ensures
        batches.is_some() <==> total == 0 || (workers > 0 && 0 < field_count <= max_params),
        batches matches Some(b) ==> is_partition(
            total as nat,
            spec_chunk_size(total as nat, workers as nat, max_params as nat, field_count as nat) as nat,
            b@,
        ),
        batches matches Some(b) ==> (b@.len() == 0 <==> total == 0),
        batches matches Some(b) ==> forall|i: int|
            0 <= i < b@.len() ==> 0 < (#[trigger] b@[i]).end - b@[i].start <= spec_batch_size(
                max_params as nat,
                field_count as nat,
            ),
{
    if total == 0 {
        return Some(Vec::new());
    }
    match insert_chunk_size(total, workers, max_params, field_count) {
        Some(size) => {
            let batches = partition(total, size);
            proof {
                lemma_partition_shape(total as nat, size as nat, batches.unwrap()@);
            }
            batches
        },
        None => None,
    }
}

/// In a partition every batch is non-empty and no longer than the batch
/// size, each batch starts where the one before it ends, and together they
/// cover all records.
pub proof fn lemma_partition_shape(len: nat, size: nat, batches: Seq<Batch>)
    requires
        size > 0 || len == 0,
        is_partition(len, size, batches),
    ensures
        forall|b: int|
            0 <= b < batches.len() ==> 0 < (#[trigger] batches[b]).end - batches[b].start <= size,
        forall|b: int| 0 < b < batches.len() ==> (#[trigger] batches[b]).start == batches[b - 1].end,
        batches.len() > 0 ==> batches[0].start == 0 && batches.last().end == len,
        batches.len() == 0 <==> len == 0,
{
    if len > 0 {
        let count = batches.len() as int;
        assert(count * size >= len && (count > 0 ==> (count - 1) * size < len)) by (nonlinear_arith)
            requires
                count == (len + size - 1) / (size as int),
                size > 0,
                len >= 0,
        ;
        assert forall|b: int| 0 <= b < batches.len() implies 0 < (#[trigger] batches[b]).end
            - batches[b].start <= size by {
            assert(b * size <= (count - 1) * size && (b + 1) * size == b * size + size)
                by (nonlinear_arith)
                requires
                    0 <= b <= count - 1,
                    size > 0,
            ;
        }
        assert forall|b: int| 0 < b < batches.len() implies (#[trigger] batches[b]).start == batches[b
            - 1].end by {
            assert(b * size <= (count - 1) * size && (b - 1 + 1) * size == b * size) by (nonlinear_arith)
                requires
                    0 < b <= count - 1,
                    size > 0,
            ;
        }
        if count > 0 {
            assert((count - 1 + 1) * size == count * size) by (nonlinear_arith);
            assert(0 * size == 0) by (nonlinear_arith);
        }
    }
}

/// The origin links of one batch of products after they were written: the
/// products of the batch paired, in order, with the identities the store
/// gave them, as far as both reach.
pub fn origin_links(chunk: &[ProductRecord], inserted: &[i64]) -> (links: Vec<OriginLink>)
    ensures
        links@.len() == spec_min(chunk@.len() as int, inserted@.len() as int),
        forall|i: int|
            0 <= i < links@.len() ==> (#[trigger] links@[i]).block_binding
                == chunk@[i].block_binding && links@[i].product == inserted@[i],
{
    let mut links: Vec<OriginLink> = Vec::new();
    let n = if chunk.len() <= inserted.len() {
        chunk.len()
    } else {
        inserted.len()
    };
    let mut i: usize = 0;
    while i < n
        invariant
            n == spec_min(chunk@.len() as int, inserted@.len() as int),
            0 <= i <= n,
            links@.len() == i,
            forall|k: int|
                0 <= k < i ==> (#[trigger] links@[k]).block_binding == chunk@[k].block_binding
                    && links@[k].product == inserted@[k],
        decreases n - i,
    {
        links.push(OriginLink { block_binding: chunk[i].block_binding, product: inserted[i] });
        i = i + 1;
    }
    links
}

} // verus!
