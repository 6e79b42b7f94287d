//! The chunk dispatcher: splits one batched operation over contiguous
//! chunks, hands the chunks to independent rayon workers, and recombines
//! the partial results in a fixed chunk order.
//!
//! The chunk partition, the per-chunk work, and the recombination are all
//! verified; only the fan-out/fan-in across worker threads is delegated to
//! rayon behind trusted wrappers whose closures call the verified
//! per-range engine operations.

use vstd::arithmetic::div_mod::{
    lemma_add_mod_noop, lemma_fundamental_div_mod_converse, lemma_small_mod,
};
use vstd::arithmetic::mul::lemma_mul_is_distributive_add_other_way;
use vstd::prelude::*;

use rayon::iter::{IntoParallelRefIterator, ParallelIterator};

use crate::constants::{lemma_p_bound, p_nat, r_inv_nat};
use crate::element::{fe_add_mod, fe_ok, fe_val, fe_zero, FieldElement};
use crate::engine::{
    arr_ok, bin_val, ip_range, ip_sum, map_op_range, seq_sum, sum_range, vals, BinOp,
};
use crate::laws::{lemma_ip_sum_concat, lemma_seq_sum_concat};

verus! {

/// Elements handed to one worker as one unit of parallel work.
pub const PAR_CHUNK_SIZE: usize = 128;

/// Chunking options of the dispatcher: how many elements one worker
/// receives, and below which array length dispatch stays a single
/// synchronous call.
pub struct ChunkConfig {
    /// Element count of one unit of parallel work.
    pub chunk_size: usize,
    /// Threshold below which no chunking happens.
    pub min_parallel_len: usize,
}

impl ChunkConfig {
    /// A usable configuration: chunks are never empty.
    pub open spec fn wf(self) -> bool {
        self.chunk_size > 0
    }

    /// A configuration with explicit options.
    pub fn new(chunk_size: usize, min_parallel_len: usize) -> (r: ChunkConfig)
        requires
            chunk_size > 0,
        ensures
            r.wf(),
            r.chunk_size == chunk_size,
            r.min_parallel_len == min_parallel_len,
    {
        ChunkConfig { chunk_size, min_parallel_len }
    }
}

impl Default for ChunkConfig {
    /// The dispatcher's stock tuning: chunks of `PAR_CHUNK_SIZE`, and
    /// arrays of at most one chunk handled synchronously.
    fn default() -> (r: ChunkConfig)
        ensures
            r.wf(),
            r.chunk_size == PAR_CHUNK_SIZE,
            r.min_parallel_len == PAR_CHUNK_SIZE,
    {
        ChunkConfig { chunk_size: PAR_CHUNK_SIZE, min_parallel_len: PAR_CHUNK_SIZE }
    }
}

/// A chunk partition of `[0, len)`: non-empty contiguous ranges, in
/// order, first starting at zero, last ending at `len`.
pub open spec fn wf_bounds(bs: Seq<(usize, usize)>, len: nat) -> bool {
    &&& forall|c: int| 0 <= c < bs.len() ==> (#[trigger] bs[c]).0 < bs[c].1 <= len
    &&& (bs.len() == 0 <==> len == 0)
    &&& bs.len() > 0 ==> bs[0].0 == 0 && bs[bs.len() - 1].1 == len
    &&& forall|c: int| 1 <= c < bs.len() ==> (#[trigger] bs[c]).0 == bs[c - 1].1
}

/// Splits `[0, len)` into contiguous chunks of exactly `chunk_size`
/// elements, except that the last chunk absorbs the remainder, so no
/// element is dropped; the chunk count is the ceiling of
/// `len / chunk_size`.
#[verifier::rlimit(30)]
pub fn chunk_bounds(len: usize, chunk_size: usize) -> (r: Vec<(usize, usize)>)
    requires
        chunk_size > 0,
    ensures
        wf_bounds(r@, len as nat),
        forall|c: int| 0 <= c < r@.len() ==> (#[trigger] r@[c]).1 - r@[c].0 <= chunk_size,
        forall|c: int| 0 <= c < r@.len() - 1 ==> (#[trigger] r@[c]).1 - r@[c].0 == chunk_size,
        r@.len() == (len + chunk_size - 1) / chunk_size as int,
{
    let mut out: Vec<(usize, usize)> = Vec::new();
    let mut start: usize = 0;
    while start < len
        invariant
            start <= len,
            chunk_size > 0,
            out@.len() == 0 ==> start == 0,
            out@.len() > 0 ==> out@[0].0 == 0 && out@[out@.len() - 1].1 == start,
            forall|c: int| 0 <= c < out@.len() ==> (#[trigger] out@[c]).0 < out@[c].1 <= len,
            forall|c: int| 1 <= c < out@.len() ==> (#[trigger] out@[c]).0 == out@[c - 1].1,
            forall|c: int| 0 <= c < out@.len() ==> (#[trigger] out@[c]).1 - out@[c].0 <= chunk_size,
            forall|c: int|
                0 <= c < out@.len() ==> ((#[trigger] out@[c]).1 < len ==> out@[c].1 - out@[c].0
                    == chunk_size),
            start < len ==> out@.len() == 0 || out@[out@.len() - 1].1 < len,
            start < len ==> start == out@.len() * chunk_size,
            start == len && out@.len() > 0 ==> (out@.len() - 1) * chunk_size < len <= out@.len()
                * chunk_size,
        decreases len - start,
    {
        let end = if len - start > chunk_size {
            start + chunk_size
        } else {
            len
        };
        proof {
            lemma_mul_is_distributive_add_other_way(
                chunk_size as int,
                out@.len() as int,
                1,
            );
        }
        out.push((start, end));
        start = end;
    }
    proof {
        assert forall|c: int| 0 <= c < out@.len() - 1 implies (#[trigger] out@[c]).1 - out@[c].0
            == chunk_size by {
            assert(out@[c + 1].0 == out@[c].1);
            assert(out@[c].1 < len);
        }
        // The partition's shape forces the ceiling chunk count.
        let k = out@.len() as int;
        let cs = chunk_size as int;
        if len == 0 {
            assert(k == 0);
            lemma_fundamental_div_mod_converse(cs - 1, cs, 0, cs - 1);
        } else {
            assert((k - 1) * cs < len <= k * cs);
            assert((k - 1) * cs == k * cs - cs) by {
                vstd::arithmetic::mul::lemma_mul_is_distributive_sub_other_way(cs, k, 1);
            }
            lemma_fundamental_div_mod_converse(
                len + cs - 1,
                cs,
                k,
                len + cs - 1 - k * cs,
            );
        }
    }
    out
}

/// Relies on rayon's `par_iter().map(..).collect()` over the chunk list:
/// an indexed parallel iterator yields the chunks' results in chunk
/// order, and each worker's closure only calls the verified per-range
/// operation `map_op_range` on its own chunk.
#[verifier::external_body]
fn par_map_chunks(
    op: BinOp,
    x: &Vec<FieldElement>,
    y: &Vec<FieldElement>,
    bounds: &Vec<(usize, usize)>,
) -> (r: Vec<Vec<FieldElement>>)
    requires
        x@.len() == y@.len(),
        arr_ok(x@),
        arr_ok(y@),
        forall|c: int|
            0 <= c < bounds@.len() ==> (#[trigger] bounds@[c]).0 <= bounds@[c].1 <= x@.len(),
    ensures
        r@.len() == bounds@.len(),
        forall|c: int|
            0 <= c < r@.len() ==> (#[trigger] r@[c])@.len() == bounds@[c].1 - bounds@[c].0
                && arr_ok(r@[c]@) && forall|j: int|
                0 <= j < r@[c]@.len() ==> fe_val(#[trigger] r@[c]@[j]) == bin_val(
                    op,
                    fe_val(x@[bounds@[c].0 + j]),
                    fe_val(y@[bounds@[c].0 + j]),
                ),
{
    let parts: Vec<Vec<FieldElement>> = bounds
        .par_iter()
        .map(|b| map_op_range(op, x, y, b.0, b.1))
        .collect();
    parts
}

/// Relies on rayon's `par_iter().map(..).collect()` over the chunk list:
/// the partial sums come back in chunk order, and each worker's closure
/// only calls the verified per-range reduction `sum_range`.
#[verifier::external_body]
fn par_sum_chunks(x: &Vec<FieldElement>, bounds: &Vec<(usize, usize)>) -> (r: Vec<FieldElement>)
    requires
        arr_ok(x@),
        forall|c: int|
            0 <= c < bounds@.len() ==> (#[trigger] bounds@[c]).0 <= bounds@[c].1 <= x@.len(),
    ensures
        r@.len() == bounds@.len(),
        forall|c: int|
            0 <= c < r@.len() ==> fe_ok(#[trigger] r@[c]) && fe_val(r@[c]) == seq_sum(
                vals(x@).subrange(bounds@[c].0 as int, bounds@[c].1 as int),
            ) % p_nat(),
{
    let parts: Vec<FieldElement> = bounds.par_iter().map(|b| sum_range(x, b.0, b.1)).collect();
    parts
}

/// Relies on rayon's `par_iter().map(..).collect()` over the chunk list:
/// the partial inner products come back in chunk order, and each worker's
/// closure only calls the verified per-range accumulation `ip_range`.
#[verifier::external_body]
fn par_ip_chunks(
    x: &Vec<FieldElement>,
    y: &Vec<FieldElement>,
    bounds: &Vec<(usize, usize)>,
) -> (r: Vec<FieldElement>)
    requires
        x@.len() == y@.len(),
        arr_ok(x@),
        arr_ok(y@),
        forall|c: int|
            0 <= c < bounds@.len() ==> (#[trigger] bounds@[c]).0 <= bounds@[c].1 <= x@.len(),
    ensures
        r@.len() == bounds@.len(),
        forall|c: int|
            0 <= c < r@.len() ==> fe_ok(#[trigger] r@[c]) && fe_val(r@[c]) == (ip_sum(
                vals(x@).subrange(bounds@[c].0 as int, bounds@[c].1 as int),
                vals(y@).subrange(bounds@[c].0 as int, bounds@[c].1 as int),
            ) * r_inv_nat()) % p_nat(),
{
    let parts: Vec<FieldElement> = bounds.par_iter().map(|b| ip_range(x, y, b.0, b.1)).collect();
    parts
}

/// One element-wise operation over whole arrays, chunked and dispatched
/// to parallel workers; the result is identical to the serial operation.
pub fn dispatch_binop(
    op: BinOp,
    cfg: &ChunkConfig,
    x: &Vec<FieldElement>,
    y: &Vec<FieldElement>,
) -> (r: Vec<FieldElement>)
    requires
        cfg.wf(),
        x@.len() == y@.len(),
        arr_ok(x@),
        arr_ok(y@),
    ensures
        r@.len() == x@.len(),
        arr_ok(r@),
        forall|i: int|
            0 <= i < r@.len() ==> fe_val(#[trigger] r@[i]) == bin_val(
                op,
                fe_val(x@[i]),
                fe_val(y@[i]),
            ),
{
    let len = x.len();
    if len <= cfg.min_parallel_len {
        return map_op_range(op, x, y, 0, len);
    }
    let bounds = chunk_bounds(len, cfg.chunk_size);
    let parts = par_map_chunks(op, x, y, &bounds);
    let mut out: Vec<FieldElement> = Vec::new();
    let mut c: usize = 0;
    while c < parts.len()
        invariant
            parts@.len() == bounds@.len(),
            wf_bounds(bounds@, len as nat),
            len == x@.len(),
            x@.len() == y@.len(),
            c <= parts@.len(),
            forall|k: int|
                0 <= k < parts@.len() ==> (#[trigger] parts@[k])@.len() == bounds@[k].1
                    - bounds@[k].0 && arr_ok(parts@[k]@) && forall|j: int|
                    0 <= j < parts@[k]@.len() ==> fe_val(#[trigger] parts@[k]@[j]) == bin_val(
                        op,
                        fe_val(x@[bounds@[k].0 + j]),
                        fe_val(y@[bounds@[k].0 + j]),
                    ),
            out@.len() == (if c == 0 {
                0int
            } else {
                bounds@[c - 1].1 as int
            }),
            arr_ok(out@),
            forall|i: int|
                0 <= i < out@.len() ==> fe_val(#[trigger] out@[i]) == bin_val(
                    op,
                    fe_val(x@[i]),
                    fe_val(y@[i]),
                ),
        decreases parts@.len() - c,
    {
        let ghost s = bounds@[c as int].0 as int;
        let part_len = parts[c].len();
        let mut j: usize = 0;
        while j < part_len
            invariant
                c < parts@.len(),
                parts@.len() == bounds@.len(),
                wf_bounds(bounds@, len as nat),
                len == x@.len(),
                x@.len() == y@.len(),
                part_len == parts@[c as int]@.len(),
                s == bounds@[c as int].0,
                s + part_len == bounds@[c as int].1,
                parts@[c as int]@.len() == bounds@[c as int].1 - bounds@[c as int].0,
                arr_ok(parts@[c as int]@),
                forall|k: int|
                    0 <= k < parts@[c as int]@.len() ==> fe_val(
                        #[trigger] parts@[c as int]@[k],
                    ) == bin_val(op, fe_val(x@[s + k]), fe_val(y@[s + k])),
                j <= part_len,
                out@.len() == s + j,
                arr_ok(out@),
                forall|i: int|
                    0 <= i < out@.len() ==> fe_val(#[trigger] out@[i]) == bin_val(
                        op,
                        fe_val(x@[i]),
                        fe_val(y@[i]),
                    ),
            decreases part_len - j,
        {
            let e = parts[c][j];
            out.push(e);
            j = j + 1;
        }
        c = c + 1;
    }
    out
}

/// The reduced sum of a whole array, chunked and dispatched to parallel
/// workers; the partial sums are combined in chunk order.
pub fn dispatch_sum(cfg: &ChunkConfig, x: &Vec<FieldElement>) -> (r: FieldElement)
    requires
        cfg.wf(),
        arr_ok(x@),
    ensures
        fe_val(r) == seq_sum(vals(x@)) % p_nat(),
        fe_ok(r),
{
    let len = x.len();
    proof {
        lemma_p_bound();
    }
    if len <= cfg.min_parallel_len {
        let r = sum_range(x, 0, len);
        proof {
            assert(vals(x@).subrange(0, len as int) =~= vals(x@));
        }
        return r;
    }
    let bounds = chunk_bounds(len, cfg.chunk_size);
    let parts = par_sum_chunks(x, &bounds);
    let mut acc = fe_zero();
    let mut c: usize = 0;
    proof {
        assert(vals(x@).subrange(0, 0) =~= Seq::<nat>::empty());
        lemma_small_mod(0, p_nat());
    }
    while c < parts.len()
        invariant
            parts@.len() == bounds@.len(),
            wf_bounds(bounds@, len as nat),
            len == x@.len(),
            c <= parts@.len(),
            forall|k: int|
                0 <= k < parts@.len() ==> fe_ok(#[trigger] parts@[k]) && fe_val(parts@[k])
                    == seq_sum(vals(x@).subrange(bounds@[k].0 as int, bounds@[k].1 as int))
                    % p_nat(),
            fe_ok(acc),
            fe_val(acc) == seq_sum(
                vals(x@).subrange(
                    0,
                    if c == 0 {
                        0int
                    } else {
                        bounds@[c - 1].1 as int
                    },
                ),
            ) % p_nat(),
        decreases parts@.len() - c,
    {
        let ghost s = bounds@[c as int].0 as int;
        let ghost e = bounds@[c as int].1 as int;
        let ghost pre = vals(x@).subrange(0, s);
        let ghost mid = vals(x@).subrange(s, e);
        acc = fe_add_mod(&acc, &parts[c]);
        proof {
            assert(vals(x@).subrange(0, e) =~= pre + mid);
            lemma_seq_sum_concat(pre, mid);
            lemma_p_bound();
            lemma_add_mod_noop(seq_sum(pre) as int, seq_sum(mid) as int, p_nat() as int);
        }
        c = c + 1;
    }
    proof {
        assert(vals(x@).subrange(0, len as int) =~= vals(x@));
    }
    acc
}

/// The Montgomery inner product of two whole arrays, chunked and
/// dispatched to parallel workers; the partial products are combined in
/// chunk order.
pub fn dispatch_ip(
    cfg: &ChunkConfig,
    x: &Vec<FieldElement>,
    y: &Vec<FieldElement>,
) -> (r: FieldElement)
    requires
        cfg.wf(),
        x@.len() == y@.len(),
        arr_ok(x@),
        arr_ok(y@),
    ensures
        fe_val(r) == (ip_sum(vals(x@), vals(y@)) * r_inv_nat()) % p_nat(),
        fe_ok(r),
{
    let len = x.len();
    proof {
        lemma_p_bound();
    }
    if len <= cfg.min_parallel_len {
        let r = ip_range(x, y, 0, len);
        proof {
            assert(vals(x@).subrange(0, len as int) =~= vals(x@));
            assert(vals(y@).subrange(0, len as int) =~= vals(y@));
        }
        return r;
    }
    let bounds = chunk_bounds(len, cfg.chunk_size);
    let parts = par_ip_chunks(x, y, &bounds);
    let mut acc = fe_zero();
    let mut c: usize = 0;
    proof {
        assert(vals(x@).subrange(0, 0) =~= Seq::<nat>::empty());
        assert(vals(y@).subrange(0, 0) =~= Seq::<nat>::empty());
        assert(ip_sum(Seq::<nat>::empty(), Seq::<nat>::empty()) == 0);
        assert(0 * r_inv_nat() == 0);
        lemma_small_mod(0, p_nat());
    }
    while c < parts.len()
        invariant
            parts@.len() == bounds@.len(),
            wf_bounds(bounds@, len as nat),
            len == x@.len(),
            x@.len() == y@.len(),
            c <= parts@.len(),
            forall|k: int|
                0 <= k < parts@.len() ==> fe_ok(#[trigger] parts@[k]) && fe_val(parts@[k]) == (
                ip_sum(
                    vals(x@).subrange(bounds@[k].0 as int, bounds@[k].1 as int),
                    vals(y@).subrange(bounds@[k].0 as int, bounds@[k].1 as int),
                ) * r_inv_nat()) % p_nat(),
            fe_ok(acc),
            fe_val(acc) == (ip_sum(
                vals(x@).subrange(
                    0,
                    if c == 0 {
                        0int
                    } else {
                        bounds@[c - 1].1 as int
                    },
                ),
                vals(y@).subrange(
                    0,
                    if c == 0 {
                        0int
                    } else {
                        bounds@[c - 1].1 as int
                    },
                ),
            ) * r_inv_nat()) % p_nat(),
        decreases parts@.len() - c,
    {
        let ghost s = bounds@[c as int].0 as int;
        let ghost e = bounds@[c as int].1 as int;
        let ghost prex = vals(x@).subrange(0, s);
        let ghost prey = vals(y@).subrange(0, s);
        let ghost midx = vals(x@).subrange(s, e);
        let ghost midy = vals(y@).subrange(s, e);
        acc = fe_add_mod(&acc, &parts[c]);
        proof {
            assert(vals(x@).subrange(0, e) =~= prex + midx);
            assert(vals(y@).subrange(0, e) =~= prey + midy);
            lemma_ip_sum_concat(prex, prey, midx, midy);
            lemma_p_bound();
            lemma_add_mod_noop(
                (ip_sum(prex, prey) * r_inv_nat()) as int,
                (ip_sum(midx, midy) * r_inv_nat()) as int,
                p_nat() as int,
            );
            lemma_mul_is_distributive_add_other_way(
                r_inv_nat() as int,
                ip_sum(prex, prey) as int,
                ip_sum(midx, midy) as int,
            );
        }
        c = c + 1;
    }
    proof {
        assert(vals(x@).subrange(0, len as int) =~= vals(x@));
        assert(vals(y@).subrange(0, len as int) =~= vals(y@));
    }
    acc
}

} // verus!
