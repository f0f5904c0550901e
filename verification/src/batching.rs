//! Batch scheduling for training: the pseudo-random start offset that picks
//! which dataset rows feed a batch, the indices of one batch, the contiguous
//! chunking of a batch over worker threads, and the progress-report window.
use vstd::prelude::*;

verus! {

/// One step of a 32-bit xorshift pseudo-random generator.
pub open spec fn xorshift_spec(x: u32) -> u32 {
    let a = x ^ (x << 13u32);
    let b = a ^ (a >> 17u32);
    b ^ (b << 5u32)
}

/// Scrambles a seed with the 13/17/5 xorshift round.
pub fn xorshift(x: u32) -> (r: u32)
    ensures
        r == xorshift_spec(x),
{
    let a = x ^ (x << 13u32);
    let b = a ^ (a >> 17u32);
    b ^ (b << 5u32)
}

/// How many contiguous chunks a batch of `len` samples is split into over
/// `threads` workers: one chunk per worker, or a single chunk when the batch
/// is smaller than the worker count.
pub open spec fn chunk_count(len: int, threads: int) -> int {
    if len >= threads {
        threads
    } else {
        1
    }
}

/// The size of every chunk but the last; the last chunk takes the rest.
pub open spec fn worker_chunk_size(len: int, threads: int) -> int {
    len / threads
}

/// The chunk boundaries a batch of `len` samples is split at: chunk `k`
/// covers the sample indices from the first bound up to the second.
pub open spec fn chunk_bounds_spec(len: int, threads: int) -> Seq<(int, int)> {
    Seq::new(
        chunk_count(len, threads) as nat,
        |k: int|
            (
                k * worker_chunk_size(len, threads),
                if k == chunk_count(len, threads) - 1 {
                    len
                } else {
                    (k + 1) * worker_chunk_size(len, threads)
                },
            ),
    )
}

/// The chunk boundaries are well formed: they start at zero, end at `len`,
/// are in order, and each chunk begins where the one before it ends.
pub proof fn lemma_chunk_bounds_wf(len: int, threads: int)
    requires
        threads >= 1,
        len >= 0,
    ensures
        chunk_bounds_spec(len, threads).len() >= 1,
        chunk_bounds_spec(len, threads)[0].0 == 0,
        chunk_bounds_spec(len, threads)[chunk_bounds_spec(len, threads).len() - 1].1 == len,
        forall|k: int|
            0 <= k < chunk_bounds_spec(len, threads).len() ==> 0 <= #[trigger] chunk_bounds_spec(
                len,
                threads,
            )[k].0 <= chunk_bounds_spec(len, threads)[k].1 <= len,
        forall|k: int|
            0 <= k < chunk_bounds_spec(len, threads).len() - 1 ==> #[trigger] chunk_bounds_spec(
                len,
                threads,
            )[k].1 == chunk_bounds_spec(len, threads)[k + 1].0,
{
    let size = worker_chunk_size(len, threads);
    let count = chunk_count(len, threads);
    assert(size >= 0 && threads * size <= len) by (nonlinear_arith)
        requires
            threads >= 1,
            len >= 0,
            size == len / threads,
    ;
    assert forall|k: int| 0 <= k < count implies 0 <= #[trigger] chunk_bounds_spec(len, threads)[k].0
        <= chunk_bounds_spec(len, threads)[k].1 <= len by {
        assert(0 <= k * size && k * size + size == (k + 1) * size && (k + 1) * size <= threads
            * size) by (nonlinear_arith)
            requires
                0 <= k,
                k + 1 <= threads,
                size >= 0,
        ;
    }
    assert forall|k: int| 0 <= k < count - 1 implies #[trigger] chunk_bounds_spec(len, threads)[k].1
        == chunk_bounds_spec(len, threads)[k + 1].0 by {
    }
}

/// The chunks of a sequence laid end to end, in order.
pub open spec fn concat_chunks<T>(s: Seq<T>, bounds: Seq<(int, int)>) -> Seq<T>
    decreases bounds.len(),
{
    if bounds.len() == 0 {
        Seq::empty()
    } else {
        s.subrange(bounds[0].0, bounds[0].1) + concat_chunks(s, bounds.drop_first())
    }
}

proof fn lemma_concat_contiguous<T>(s: Seq<T>, bounds: Seq<(int, int)>)
    requires
        bounds.len() >= 1,
        forall|k: int| 0 <= k < bounds.len() ==> 0 <= (#[trigger] bounds[k]).0 <= bounds[k].1
            <= s.len(),
        forall|k: int| 0 <= k < bounds.len() - 1 ==> (#[trigger] bounds[k]).1 == bounds[k + 1].0,
    ensures
        concat_chunks(s, bounds) == s.subrange(bounds[0].0, bounds[bounds.len() - 1].1),
        bounds[0].0 <= bounds[bounds.len() - 1].1,
    decreases bounds.len(),
{
    if bounds.len() == 1 {
        assert(concat_chunks(s, bounds.drop_first()) =~= Seq::<T>::empty());
        assert(concat_chunks(s, bounds) =~= s.subrange(bounds[0].0, bounds[0].1));
    } else {
        lemma_concat_contiguous(s, bounds.drop_first());
        assert(s.subrange(bounds[0].0, bounds[0].1) + s.subrange(
            bounds[1].0,
            bounds[bounds.len() - 1].1,
        ) =~= s.subrange(bounds[0].0, bounds[bounds.len() - 1].1));
    }
}

/// Law: splitting a batch into per-worker chunks loses nothing, duplicates
/// nothing, and keeps the order: the chunks laid end to end are exactly the
/// batch.  This is the structural half of the equivalence between parallel
/// and sequential batch training; the workers' gradient sums themselves are
/// floating-point work outside this crate.
pub proof fn lemma_chunks_cover<T>(s: Seq<T>, threads: int)
    requires
        threads >= 1,
    ensures
        concat_chunks(s, chunk_bounds_spec(s.len() as int, threads)) == s,
{
    let bounds = chunk_bounds_spec(s.len() as int, threads);
    lemma_chunk_bounds_wf(s.len() as int, threads);
    lemma_concat_contiguous(s, bounds);
    assert(s.subrange(0, s.len() as int) =~= s);
}

/// Splits a batch of `len` samples over `threads` workers into contiguous
/// chunks, exactly at the bounds of `chunk_bounds_spec`.
pub fn chunk_bounds(len: usize, threads: usize) -> (r: Vec<(usize, usize)>)
    requires
        threads >= 1,
    ensures
        r@.map_values(|p: (usize, usize)| (p.0 as int, p.1 as int)) == chunk_bounds_spec(
            len as int,
            threads as int,
        ),
{
    let ghost bounds = chunk_bounds_spec(len as int, threads as int);
    proof {
        lemma_chunk_bounds_wf(len as int, threads as int);
    }
    let mut r: Vec<(usize, usize)> = Vec::new();
    if len >= threads {
        let size = len / threads;
        proof {
            assert(threads * size <= len) by (nonlinear_arith)
                requires
                    threads >= 1,
                    len >= 0,
                    size == len as int / threads as int,
            ;
        }
        let mut k: usize = 0;
        while k < threads - 1
            invariant
                k <= threads - 1,
                threads >= 1,
                size == len as int / threads as int,
                threads * size <= len,
                bounds == chunk_bounds_spec(len as int, threads as int),
                len >= threads,
                r@.len() == k,
                forall|j: int|
                    0 <= j < k ==> (#[trigger] r@[j]).0 == bounds[j].0 && r@[j].1 == bounds[j].1,
            decreases threads - 1 - k,
        {
            proof {
                assert(0 <= k * size && (k + 1) * size <= threads * size && k * size + size == (k
                    + 1) * size) by (nonlinear_arith)
                    requires
                        0 <= k,
                        k + 1 <= threads,
                        size >= 0,
                ;
            }
            r.push((k * size, (k + 1) * size));
            k = k + 1;
        }
        proof {
            assert(0 <= (threads - 1) * size && (threads - 1) * size + size == threads * size)
                by (nonlinear_arith)
                requires
                    threads >= 1,
                    size >= 0,
            ;
        }
        r.push(((threads - 1) * size, len));
    } else {
        r.push((0, len));
    }
    proof {
        assert(r@.map_values(|p: (usize, usize)| (p.0 as int, p.1 as int)) =~= bounds);
    }
    r
}

/// The dataset row that position `offset` of the batch of training step
/// `iteration` is drawn from, walking the dataset cyclically from `begin`.
pub open spec fn batch_index(iteration: int, offset: int, begin: int, len: int) -> int {
    (iteration + offset + begin) % len
}

/// The dataset rows that feed the batch of one training step, exactly as
/// `batch_index` places them.
pub fn batch_indices(iteration: usize, batch_size: usize, begin: usize, len: usize) -> (r: Vec<
    usize,
>)
    requires
        len >= 1,
        iteration + batch_size + begin <= usize::MAX,
    ensures
        r@.len() == batch_size,
        forall|b: int|
            0 <= b < batch_size ==> #[trigger] r@[b] == batch_index(
                iteration as int,
                b,
                begin as int,
                len as int,
            ),
        forall|b: int| 0 <= b < batch_size ==> #[trigger] r@[b] < len,
{
    let mut r: Vec<usize> = Vec::new();
    let mut b: usize = 0;
    while b < batch_size
        invariant
            b <= batch_size,
            len >= 1,
            iteration + batch_size + begin <= usize::MAX,
            r@.len() == b,
            forall|j: int|
                0 <= j < b ==> #[trigger] r@[j] == batch_index(
                    iteration as int,
                    j,
                    begin as int,
                    len as int,
                ),
        decreases batch_size - b,
    {
        r.push((iteration + b + begin) % len);
        b = b + 1;
    }
    r
}

/// Whether `x` is a power of two.
pub open spec fn is_pow2(x: int) -> bool
    decreases x,
{
    if x <= 0 {
        false
    } else if x == 1 {
        true
    } else {
        x % 2 == 0 && is_pow2(x / 2)
    }
}

/// The width of the progress-report window for a training run: the smallest
/// power of two no smaller than a hundredth of the iteration count.  A
/// training step reports progress when its number is a multiple of this.
pub fn progress_window(iterations: usize) -> (r: usize)
    ensures
        is_pow2(r as int),
        iterations as int / 100 <= r,
        r == 1 || r as int / 2 < iterations as int / 100,
{
    let target = iterations / 100;
    let mut progress: usize = 1;
    while target > progress
        invariant
            1 <= progress,
            target == iterations as int / 100,
            is_pow2(progress as int),
            progress == 1 || progress as int / 2 < target,
        decreases 2 * target - progress,
    {
        progress = progress * 2;
    }
    progress
}

/// Relies on `rand::random`: a fresh sample of the standard distribution of
/// the result type; nothing is promised of the value.
pub assume_specification<T>[ rand::random::<T> ]() -> (r: T)
    where
        rand::distributions::Standard: rand::distributions::Distribution<T>,
;

/// Draws the pseudo-random dataset offset that a training run starts its
/// batch sampling at: a fresh seed scrambled by one xorshift round, reduced
/// to a valid row index.  Whatever the seed, the result indexes the dataset.
pub fn random_batch_begin(len: usize) -> (r: usize)
    requires
        len >= 1,
    ensures
        r < len,
{
    let seed = rand::random::<u32>();
    (xorshift(seed) as usize) % len
}

} // verus!
