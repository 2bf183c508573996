use vstd::prelude::*;

use crate::errors::IndexerError;
use crate::record::I64_MAX_AS_U64;

verus! {

/// The backfill configuration: chunk size, worker count and the closed
/// height range to fill.
pub struct BackfillIndexer {
    batch: usize,
    workers: usize,
    lo: u64,
    hi: u64,
}

impl BackfillIndexer {
    /// Builds a backfill over `[lo, hi]`: the chunk size, worker count and
    /// lower bound must be positive, and the upper bound strictly greater
    /// than the lower.
    pub fn new(batch: usize, workers: usize, lo: u64, hi: u64) -> (r: Result<Self, IndexerError>)
        ensures
            batch < 1 || workers < 1 || lo < 1 ==> (r matches Err(e) && e is BackfillRange),
            batch >= 1 && workers >= 1 && lo >= 1 && lo >= hi ==> (r matches Err(e) && e is Other),
            batch >= 1 && workers >= 1 && 1 <= lo < hi ==> (r matches Ok(b) && b.spec_batch()
                == batch && b.spec_workers() == workers && b.spec_lo() == lo && b.spec_hi() == hi),
    {
        if batch < 1 || workers < 1 || lo < 1 {
            return Err(IndexerError::BackfillRange);
        }
        if lo >= hi {
            return Err(IndexerError::Other("hi must be strictly greater than lo".to_owned()));
        }
        Ok(BackfillIndexer { batch, workers, lo, hi })
    }

    pub closed spec fn spec_batch(&self) -> usize {
        self.batch
    }

    pub closed spec fn spec_workers(&self) -> usize {
        self.workers
    }

    pub closed spec fn spec_lo(&self) -> u64 {
        self.lo
    }

    pub closed spec fn spec_hi(&self) -> u64 {
        self.hi
    }

    pub fn batch(&self) -> (r: usize)
        ensures
            r == self.spec_batch(),
    {
        self.batch
    }

    pub fn workers(&self) -> (r: usize)
        ensures
            r == self.spec_workers(),
    {
        self.workers
    }

    pub fn lo(&self) -> (r: u64)
        ensures
            r == self.spec_lo(),
    {
        self.lo
    }

    pub fn hi(&self) -> (r: u64)
        ensures
            r == self.spec_hi(),
    {
        self.hi
    }
}

/// Converts a height into the node's signed height type; heights above
/// the signed maximum are rejected before any request is made.
pub fn to_rpc_height(h: u64) -> (r: Result<i64, IndexerError>)
    ensures
        h <= I64_MAX_AS_U64 ==> (r matches Ok(v) && v as int == h as int),
        h > I64_MAX_AS_U64 ==> (r matches Err(e) && e is RpcHeight),
{
    if h > I64_MAX_AS_U64 {
        Err(IndexerError::RpcHeight)
    } else {
        Ok(h as i64)
    }
}

/// The chunking of a height list: full chunks of `batch` heights in
/// order, with a final partial chunk for the remainder.
pub open spec fn chunks_of(s: Seq<u64>, batch: int) -> Seq<Seq<u64>>
    recommends
        batch >= 1,
    decreases s.len(),
    via chunks_of_decreases
{
    if batch < 1 {
        seq![]
    } else if s.len() == 0 {
        seq![]
    } else if s.len() <= batch {
        seq![s]
    } else {
        seq![s.take(batch)] + chunks_of(s.skip(batch), batch)
    }
}

#[via_fn]
proof fn chunks_of_decreases(s: Seq<u64>, batch: int) {
}

/// Splits a height list into chunks of up to `batch` heights, preserving
/// order.
pub fn chunk_heights(heights: &Vec<u64>, batch: usize) -> (r: Vec<Vec<u64>>)
    requires
        batch >= 1,
    ensures
        r.deep_view() == chunks_of(heights@, batch as int),
{
    let mut out: Vec<Vec<u64>> = Vec::new();
    let mut pos: usize = 0;
    proof {
        assert(heights@.skip(0) =~= heights@);
        assert(out.deep_view() + chunks_of(heights@, batch as int) =~= chunks_of(
            heights@,
            batch as int,
        ));
    }
    while pos < heights.len()
        invariant
            pos <= heights@.len(),
            batch >= 1,
            chunks_of(heights@, batch as int) =~= out.deep_view() + chunks_of(
                heights@.skip(pos as int),
                batch as int,
            ),
        decreases heights@.len() - pos,
    {
        let remaining = heights.len() - pos;
        let take = if remaining < batch {
            remaining
        } else {
            batch
        };
        let mut chunk: Vec<u64> = Vec::new();
        let mut j: usize = 0;
        while j < take
            invariant
                j <= take,
                pos + take <= usize::MAX,
                pos + take <= heights@.len(),
                chunk@ =~= heights@.subrange(pos as int, pos as int + j as int),
            decreases take - j,
        {
            chunk.push(heights[pos + j]);
            proof {
                assert(chunk@ =~= heights@.subrange(pos as int, pos as int + j as int + 1));
            }
            j = j + 1;
        }
        let ghost out0 = out.deep_view();
        let ghost cv = chunk@;
        out.push(chunk);
        proof {
            let tail = heights@.skip(pos as int);
            assert(out.deep_view() =~~= out0.push(cv));
            if tail.len() <= batch as int {
                assert(cv =~= tail);
                assert(chunks_of(tail, batch as int) == seq![tail]);
                assert(out0 + seq![tail] =~= out0.push(cv));
                assert(heights@.skip((pos + take) as int) =~= Seq::<u64>::empty());
                assert(out.deep_view() + chunks_of(
                    heights@.skip((pos + take) as int),
                    batch as int,
                ) =~= out.deep_view());
            } else {
                assert(cv =~= tail.take(batch as int));
                assert(tail.skip(batch as int) =~= heights@.skip((pos + take) as int));
                assert(out0 + (seq![cv] + chunks_of(tail.skip(batch as int), batch as int)) =~= (
                out0.push(cv)) + chunks_of(tail.skip(batch as int), batch as int));
            }
        }
        pos = pos + take;
    }
    proof {
        assert(heights@.skip(pos as int) =~= Seq::<u64>::empty());
        assert(out.deep_view() + Seq::<Seq<u64>>::empty() =~= out.deep_view());
    }
    out
}

/// The coordinator's bound for the backfill below the first live height:
/// everything from one up to just below it, or nothing when the live run
/// started at the chain's first height.
pub fn backfill_bounds(first_live_height: u64) -> (r: Option<(u64, u64)>)
    requires
        first_live_height >= 1,
    ensures
        first_live_height >= 2 ==> r == Some((1u64, (first_live_height - 1) as u64)),
        first_live_height < 2 ==> r is None,
{
    if first_live_height >= 2 {
        Some((1, first_live_height - 1))
    } else {
        None
    }
}

} // verus!
