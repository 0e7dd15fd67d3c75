//! One block read from mapped memory, and the bookkeeping of completed
//! reads: per-worker buffers and their merge.

use vstd::prelude::*;

verus! {

/// Why a read failed.
#[derive(Clone, Copy, Debug, PartialEq, Eq, Structural)]
pub enum ReadError {
    /// The storage layer failed to open, seek or read.
    IoFailure,
    /// The block reaches past the end of the file or mapped region.
    OutOfBounds,
}

/// One completed read: its latency in nanoseconds, and whether it was the
/// first touch of its block.
#[derive(Clone, Copy, Debug, PartialEq, Eq, Structural)]
pub struct ReadResult {
    pub latency_nanos: u64,
    pub is_first_read: bool,
}

/// What a read of `block_size` bytes at `offset` from a mapped region gives:
/// the bytes of the block, or `OutOfBounds` when the block reaches past the
/// end of the region.
pub open spec fn mmap_read_spec(region: Seq<u8>, offset: usize, block_size: usize) -> Result<
    Seq<u8>,
    ReadError,
> {
    if offset + block_size > region.len() {
        Err(ReadError::OutOfBounds)
    } else {
        Ok(region.subrange(offset as int, offset + block_size))
    }
}

/// A worker's buffer after a read with the given outcome was recorded.
pub open spec fn recorded(
    buffer: Seq<ReadResult>,
    latency_nanos: u64,
    is_first_read: bool,
    succeeded: bool,
) -> Seq<ReadResult> {
    if succeeded {
        buffer.push(ReadResult { latency_nanos, is_first_read })
    } else {
        buffer
    }
}

/// Copies the `block_size` bytes at `offset` out of a mapped region. A block
/// that does not lie wholly inside the region is refused, never truncated.
pub fn perform_mmap_read(region: &[u8], offset: usize, block_size: usize) -> (r: Result<
    Vec<u8>,
    ReadError,
>)
    ensures
        offset + block_size > region@.len() <==> r == Err::<Vec<u8>, ReadError>(
            ReadError::OutOfBounds,
        ),
        r is Ok ==> r->Ok_0@ == region@.subrange(offset as int, offset + block_size),
        match r {
            Ok(v) => mmap_read_spec(region@, offset, block_size) == Ok::<Seq<u8>, ReadError>(v@),
            Err(e) => mmap_read_spec(region@, offset, block_size) == Err::<Seq<u8>, ReadError>(e),
        },
{
    let len = region.len();
    if offset > len || block_size > len - offset {
        return Err(ReadError::OutOfBounds);
    }
    let mut data: Vec<u8> = Vec::new();
    let mut i: usize = 0;
    while i < block_size
        invariant
            len == region@.len(),
            offset + block_size <= len,
            i <= block_size,
            data@ =~= region@.subrange(offset as int, offset + i),
        decreases block_size - i,
    {
        data.push(region[offset + i]);
        i = i + 1;
    }
    Ok(data)
}

/// Appends a completed read to a worker's buffer when it succeeded; a failed
/// read leaves no trace.
pub fn record_read(
    buffer: &mut Vec<ReadResult>,
    latency_nanos: u64,
    is_first_read: bool,
    outcome: &Result<Vec<u8>, ReadError>,
)
    ensures
        outcome is Ok ==> final(buffer)@ == old(buffer)@.push(
            ReadResult { latency_nanos, is_first_read },
        ),
        outcome is Err ==> final(buffer)@ == old(buffer)@,
        final(buffer)@ == recorded(old(buffer)@, latency_nanos, is_first_read, outcome is Ok),
{
    if outcome.is_ok() {
        buffer.push(ReadResult { latency_nanos, is_first_read });
    }
}

/// A mapped read of a block that reaches past the end of its region always
/// fails with `OutOfBounds`, and recording it leaves the worker's results
/// as they were: no truncated read is ever counted.
pub proof fn lemma_out_of_bounds_excluded(
    region: Seq<u8>,
    offset: usize,
    block_size: usize,
    buffer: Seq<ReadResult>,
    latency_nanos: u64,
    is_first_read: bool,
)
    requires
        offset + block_size > region.len(),
    ensures
        mmap_read_spec(region, offset, block_size) == Err::<Seq<u8>, ReadError>(
            ReadError::OutOfBounds,
        ),
        recorded(
            buffer,
            latency_nanos,
            is_first_read,
            mmap_read_spec(region, offset, block_size) is Ok,
        ) == buffer,
{
}

/// The buffers of all workers, one after another.
pub open spec fn concat_buffers(buffers: Seq<Vec<ReadResult>>) -> Seq<ReadResult>
    decreases buffers.len(),
{
    if buffers.len() == 0 {
        Seq::empty()
    } else {
        concat_buffers(buffers.drop_last()) + buffers.last()@
    }
}

/// Merges the workers' buffers into one collection, holding every result of
/// every buffer.
pub fn merge_results(buffers: Vec<Vec<ReadResult>>) -> (r: Vec<ReadResult>)
    ensures
        r@ == concat_buffers(buffers@),
{
    let mut merged: Vec<ReadResult> = Vec::new();
    let mut b: usize = 0;
    while b < buffers.len()
        invariant
            b <= buffers@.len(),
            merged@ == concat_buffers(buffers@.subrange(0, b as int)),
        decreases buffers@.len() - b,
    {
        let buffer = &buffers[b];
        let ghost before = merged@;
        let mut i: usize = 0;
        while i < buffer.len()
            invariant
                i <= buffer@.len(),
                merged@ =~= before + buffer@.subrange(0, i as int),
            decreases buffer@.len() - i,
        {
            merged.push(buffer[i]);
            i = i + 1;
        }
        proof {
            assert(buffers@.subrange(0, b as int + 1).drop_last() =~= buffers@.subrange(0, b as int));
            assert(buffer@.subrange(0, buffer@.len() as int) =~= buffer@);
        }
        b = b + 1;
    }
    assert(buffers@.subrange(0, buffers@.len() as int) =~= buffers@);
    merged
}

} // verus!
