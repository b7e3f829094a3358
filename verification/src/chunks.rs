//! How a file is cut into chunks.
use vstd::arithmetic::div_mod::{lemma_div_is_ordered, lemma_fundamental_div_mod};
use vstd::arithmetic::mul::{lemma_mul_inequality, lemma_mul_is_distributive_add_other_way};
use vstd::prelude::*;

verus! {

/// The position of the first byte of a chunk.
pub open spec fn chunk_start(chunk_size: int, index: int) -> int {
    index * chunk_size
}

/// How many bytes of the file the chunk with this index holds.
pub open spec fn chunk_bytes(file_size: int, chunk_size: int, index: int) -> int {
    let start = chunk_start(chunk_size, index);
    if start >= file_size {
        0
    } else if chunk_size < file_size - start {
        chunk_size
    } else {
        file_size - start
    }
}

/// How many bytes the first `count` chunks hold together.
pub open spec fn bytes_before(file_size: int, chunk_size: int, count: int) -> int
    decreases count,
{
    if count <= 0 {
        0
    } else {
        bytes_before(file_size, chunk_size, count - 1) + chunk_bytes(
            file_size,
            chunk_size,
            count - 1,
        )
    }
}

/// The position at which to read a chunk; the last position there is, where the chunk
/// would start beyond that.
pub fn chunk_offset(chunk_size: u64, chunk_index: u64) -> (offset: u64)
    ensures
        offset == (if chunk_start(chunk_size as int, chunk_index as int) <= u64::MAX {
            chunk_start(chunk_size as int, chunk_index as int)
        } else {
            u64::MAX as int
        }),
{
    match chunk_index.checked_mul(chunk_size) {
        Some(start) => start,
        None => u64::MAX,
    }
}

/// How many bytes to send for a chunk.
pub fn get_chunk_length(file_size: u64, chunk_size: u64, chunk_index: u64) -> (length: usize)
    ensures
        length == chunk_bytes(file_size as int, chunk_size as int, chunk_index as int) as usize,
        chunk_bytes(file_size as int, chunk_size as int, chunk_index as int) <= usize::MAX
            ==> length == chunk_bytes(file_size as int, chunk_size as int, chunk_index as int),
        length <= chunk_bytes(file_size as int, chunk_size as int, chunk_index as int),
{
    let start = chunk_offset(chunk_size, chunk_index);
    if start >= file_size {
        return 0;
    }
    let rest = file_size - start;
    let length: u64 = if chunk_size < rest {
        chunk_size
    } else {
        rest
    };
    proof {
        lemma_usize_cast_shrinks(length);
    }
    length as usize
}

proof fn lemma_usize_cast_shrinks(n: u64)
    ensures
        n as usize <= n,
{
    assert(n as usize <= n) by (bit_vector);
}

/// How an upload is cut: the size of a chunk, and how many there are.
#[derive(Clone, Copy, Debug, PartialEq, Eq, Structural)]
pub struct ChunkPlan {
    pub chunk_size: u64,
    pub total_chunks: u64,
}

pub open spec fn at_least_one(n: int) -> int {
    if n < 1 {
        1
    } else {
        n
    }
}

/// The plan for a file: chunks of the size that the service asks for, at least one byte
/// each, and as many as the service says or else as the file needs, at least one.
pub open spec fn plan_for(file_size: int, chunk_size: int, total_chunks: Option<u64>) -> (int, int) {
    let size = at_least_one(chunk_size);
    let count = match total_chunks {
        Some(n) => n as int,
        None => (file_size + size - 1) / size,
    };
    (size, at_least_one(count))
}

/// The number of chunks can be counted without overflow.
pub open spec fn is_countable(file_size: u64, chunk_size: u64, total_chunks: Option<u64>) -> bool {
    total_chunks is None ==> file_size + at_least_one(chunk_size as int) - 1 <= u64::MAX
}

pub fn countable(file_size: u64, chunk_size: u64, total_chunks: Option<u64>) -> (r: bool)
    ensures
        r == is_countable(file_size, chunk_size, total_chunks),
{
    let size: u64 = if chunk_size < 1 {
        1
    } else {
        chunk_size
    };
    total_chunks.is_some() || file_size <= u64::MAX - (size - 1)
}

pub fn plan_chunks(file_size: u64, chunk_size: u64, total_chunks: Option<u64>) -> (plan: ChunkPlan)
    requires
        is_countable(file_size, chunk_size, total_chunks),
    ensures
        (plan.chunk_size as int, plan.total_chunks as int) == plan_for(
            file_size as int,
            chunk_size as int,
            total_chunks,
        ),
{
    let size: u64 = if chunk_size < 1 {
        1
    } else {
        chunk_size
    };
    let count: u64 = match total_chunks {
        Some(n) => n,
        None => (file_size + (size - 1)) / size,
    };
    ChunkPlan {
        chunk_size: size,
        total_chunks: if count < 1 {
            1
        } else {
            count
        },
    }
}

/// The first `count` chunks hold all bytes of the file up to where the next chunk would
/// start, and no byte twice.
pub proof fn law_chunks_add_up(file_size: int, chunk_size: int, count: int)
    requires
        file_size >= 0,
        chunk_size >= 1,
        count >= 0,
    ensures
        bytes_before(file_size, chunk_size, count) == (if count * chunk_size <= file_size {
            count * chunk_size
        } else {
            file_size
        }),
    decreases count,
{
    if count > 0 {
        law_chunks_add_up(file_size, chunk_size, count - 1);
        lemma_mul_is_distributive_add_other_way(chunk_size, count - 1, 1);
        assert((count - 1) * chunk_size + chunk_size == count * chunk_size);
    } else {
        assert(0 * chunk_size == 0);
    }
}

/// Every byte of the file lies in one chunk, and in one only: the one whose index is its
/// position divided by the chunk size.
pub proof fn law_each_byte_in_one_chunk(
    file_size: int,
    chunk_size: int,
    position: int,
    index: int,
)
    requires
        0 <= position < file_size,
        chunk_size >= 1,
        index >= 0,
    ensures
        (chunk_start(chunk_size, index) <= position < chunk_start(chunk_size, index) + chunk_bytes(
            file_size,
            chunk_size,
            index,
        )) <==> index == position / chunk_size,
{
    let quotient = position / chunk_size;
    lemma_fundamental_div_mod(position, chunk_size);
    assert(chunk_size * quotient == quotient * chunk_size) by (nonlinear_arith);
    assert(0 <= position % chunk_size < chunk_size);
    if index < quotient {
        lemma_mul_inequality(index + 1, quotient, chunk_size);
        lemma_mul_is_distributive_add_other_way(chunk_size, index, 1);
    } else if index > quotient {
        lemma_mul_inequality(quotient + 1, index, chunk_size);
        lemma_mul_is_distributive_add_other_way(chunk_size, quotient, 1);
    }
}

/// The plan that is made where the service does not say how many chunks there are covers
/// the file: its chunks hold all the bytes, and none of them is needless unless the file
/// is empty.
pub proof fn law_own_plan_covers_file(file_size: u64, chunk_size: u64)
    requires
        is_countable(file_size, chunk_size, None),
    ensures
        ({
            let (size, count) = plan_for(file_size as int, chunk_size as int, None);
            &&& bytes_before(file_size as int, size, count) == file_size
            &&& file_size > 0 ==> bytes_before(file_size as int, size, count - 1) < file_size
        }),
{
    let (size, count) = plan_for(file_size as int, chunk_size as int, None);
    let total = file_size + size - 1;
    let quotient = total / size;
    lemma_fundamental_div_mod(total, size);
    assert(size * quotient == quotient * size) by (nonlinear_arith);
    assert(0 <= total % size < size);
    law_chunks_add_up(file_size as int, size, count);
    if file_size > 0 {
        lemma_div_is_ordered(size, total, size);
        assert(size / size == 1) by (nonlinear_arith)
            requires
                size >= 1,
        ;
        assert(count == quotient);
        law_chunks_add_up(file_size as int, size, count - 1);
        lemma_mul_is_distributive_add_other_way(size, count - 1, 1);
    }
}

/// No number of chunks holds more than the file.
pub proof fn lemma_bytes_before_bounded(file_size: int, chunk_size: int, count: int)
    requires
        file_size >= 0,
        chunk_size >= 1,
        count >= 0,
    ensures
        0 <= bytes_before(file_size, chunk_size, count) <= file_size,
{
    law_chunks_add_up(file_size, chunk_size, count);
    assert(count * chunk_size >= 0) by (nonlinear_arith)
        requires
            count >= 0,
            chunk_size >= 1,
    ;
}

/// Where the service says how many chunks there are, at least one, the plan has exactly that
/// many, of the size that the service asks for; and where so many chunks of that size reach
/// the end of the file, they hold all its bytes.
pub proof fn law_given_plan_is_kept(file_size: u64, chunk_size: u64, count: u64)
    ensures
        count >= 1 ==> plan_for(file_size as int, chunk_size as int, Some(count)).1 == count,
        count == 0 ==> plan_for(file_size as int, chunk_size as int, Some(count)).1 == 1,
        count >= 1 && chunk_size >= 1 && count * chunk_size >= file_size ==> bytes_before(
            file_size as int,
            plan_for(file_size as int, chunk_size as int, Some(count)).0,
            plan_for(file_size as int, chunk_size as int, Some(count)).1,
        ) == file_size,
{
    if chunk_size >= 1 {
        law_chunks_add_up(file_size as int, chunk_size as int, count as int);
    }
}

/// The chunks of a plan have the size that the service asks for, at least one byte, whoever
/// counts them.
pub proof fn law_chunk_size_is_kept(file_size: u64, chunk_size: u64, count: Option<u64>)
    ensures
        chunk_size >= 1 ==> plan_for(file_size as int, chunk_size as int, count).0 == chunk_size,
        chunk_size == 0 ==> plan_for(file_size as int, chunk_size as int, count).0 == 1,
        plan_for(file_size as int, chunk_size as int, count).1 >= 1,
{
    if count is None {
        let size = plan_for(file_size as int, chunk_size as int, count).0;
        assert((file_size + size - 1) / size >= 0) by (nonlinear_arith)
            requires
                size >= 1,
                file_size >= 0,
        ;
    }
}

/// The chunks follow each other: the first starts at the first byte of the file, and the
/// next one where one of full size ends. Each is of full size but for the last, which ends
/// with the file, and behind the file there is nothing.
pub proof fn law_chunks_follow_each_other(file_size: int, chunk_size: int, index: int)
    requires
        file_size >= 0,
        chunk_size >= 1,
        index >= 0,
    ensures
        chunk_start(chunk_size, 0) == 0,
        chunk_start(chunk_size, index + 1) == chunk_start(chunk_size, index) + chunk_size,
        chunk_start(chunk_size, index + 1) <= file_size ==> chunk_bytes(
            file_size,
            chunk_size,
            index,
        ) == chunk_size,
        chunk_start(chunk_size, index) <= file_size < chunk_start(chunk_size, index + 1)
            ==> chunk_start(chunk_size, index) + chunk_bytes(file_size, chunk_size, index)
            == file_size,
        chunk_start(chunk_size, index) >= file_size ==> chunk_bytes(file_size, chunk_size, index)
            == 0,
{
    lemma_mul_is_distributive_add_other_way(chunk_size, index, 1);
    assert(0 * chunk_size == 0);
}

/// Chunks can be counted wherever the service counts them, and wherever the size of the file
/// and that of a chunk together are a number of 64 bits.
pub proof fn law_ordinary_files_are_countable(file_size: u64, chunk_size: u64, count: u64)
    ensures
        is_countable(file_size, chunk_size, Some(count)),
        file_size + chunk_size <= u64::MAX ==> is_countable(file_size, chunk_size, None),
        file_size + chunk_size > u64::MAX + 1 ==> !is_countable(file_size, chunk_size, None),
{
}

} // verus!
