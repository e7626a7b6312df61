//! The parallel execution strategy: a verified partition / recombine
//! skeleton around a rayon worker pool.  A pool is built fresh per call,
//! the input is split into one contiguous chunk per worker, every chunk is
//! handed to a verified per-chunk function on the pool, and the outputs are
//! recombined in input order.

use crate::shape::ShapeKind;
use rayon::iter::IntoParallelRefIterator;
use rayon::iter::ParallelIterator;
use vstd::prelude::*;

verus! {

/// Declares rayon's thread-pool type so that verified signatures can
/// carry a pool.
#[verifier::external_type_specification]
#[verifier::external_body]
pub struct ExThreadPool(rayon::ThreadPool);

/// Declares the standard library's monotonic clock instant, used only for
/// the observational `elapsed` field of the result records.
#[verifier::external_type_specification]
#[verifier::external_body]
pub struct ExInstant(std::time::Instant);

/// Relies on `std::time::Instant::now`: an opaque reading of the clock.
/// Nothing is promised of the value.
#[verifier::external_body]
pub(crate) fn clock_now() -> std::time::Instant {
    std::time::Instant::now()
}

/// Relies on `Instant::elapsed` and `Duration::as_millis`: the whole
/// milliseconds elapsed since `start`.  Purely observational; nothing is
/// promised of the value.
#[verifier::external_body]
pub(crate) fn clock_elapsed_millis(start: &std::time::Instant) -> u64 {
    u64::try_from(start.elapsed().as_millis()).unwrap_or(u64::MAX)
}

/// Relies on rayon's `ThreadPoolBuilder::{new, num_threads, build}`: either
/// a pool of exactly `threads` workers, or a failure report before any work
/// has begun.  Whether construction succeeds depends on the machine, so
/// nothing is promised of the outcome.
#[verifier::external_body]
pub(crate) fn build_pool(threads: usize) -> (r: Option<rayon::ThreadPool>)
{
    rayon::ThreadPoolBuilder::new().num_threads(threads).build().ok()
}

/// Relies on rayon's `ThreadPool::install` and on `par_iter().map(f).collect()`
/// over a vector, an indexed parallel pipeline: `map` applies `f` to every
/// element and `collect` into a vector keeps input order, so the output at
/// each index is an output of `f` for the input at the same index.
#[verifier::external_body]
pub(crate) fn pool_map<T, U, F>(pool: &rayon::ThreadPool, items: &Vec<T>, f: F) -> (r: Vec<
    U,
>) where
    T: Sync,
    U: Send,
    F: Fn(&T) -> U + Sync + Send,

    requires
        forall|i: int| 0 <= i < items@.len() ==> call_requires(f, (&items@[i],)),
    ensures
        r@.len() == items@.len(),
        forall|i: int| 0 <= i < items@.len() ==> call_ensures(f, (&items@[i],), #[trigger] r@[i]),
{
    pool.install(|| items.par_iter().map(|x| f(x)).collect())
}

/// The views of a sequence of chunks.
pub open spec fn chunk_views(chunks: Seq<Vec<ShapeKind>>) -> Seq<Seq<ShapeKind>> {
    chunks.map_values(|c: Vec<ShapeKind>| c@)
}

/// The concatenation of a sequence of chunks, in order.
pub open spec fn concat_all(css: Seq<Seq<ShapeKind>>) -> Seq<ShapeKind>
    decreases css.len(),
{
    if css.len() == 0 {
        Seq::empty()
    } else {
        concat_all(css.drop_last()) + css.last()
    }
}

/// Each element of each chunk occurs in the concatenation.
pub proof fn lemma_concat_contains(css: Seq<Seq<ShapeKind>>, i: int, j: int)
    requires
        0 <= i < css.len(),
        0 <= j < css[i].len(),
    ensures
        concat_all(css).contains(css[i][j]),
    decreases css.len(),
{
    if i == css.len() - 1 {
        assert(concat_all(css)[concat_all(css.drop_last()).len() + j] == css[i][j]);
    } else {
        lemma_concat_contains(css.drop_last(), i, j);
        let x = css[i][j];
        let prefix = concat_all(css.drop_last());
        let w = choose|w: int| 0 <= w < prefix.len() && prefix[w] == x;
        assert(concat_all(css)[w] == x);
    }
}

/// Splits the input into `parts` contiguous chunks whose concatenation, in
/// order, is the input again.  The chunk sizes differ by at most one, but no
/// caller may observe the boundaries: only the concatenation is promised.
pub fn partition_shapes(shapes: &Vec<ShapeKind>, parts: usize) -> (chunks: Vec<Vec<ShapeKind>>)
    requires
        1 <= parts,
    ensures
        chunks@.len() == parts as int,
        concat_all(chunk_views(chunks@)) == shapes@,
{
    let n = shapes.len();
    let mut chunks: Vec<Vec<ShapeKind>> = Vec::new();
    let mut idx: usize = 0;
    for p in 0..parts
        invariant
            n == shapes@.len(),
            idx <= n,
            chunks@.len() == p as int,
            concat_all(chunk_views(chunks@)) == shapes@.take(idx as int),
            p == parts ==> idx == n,
    {
        let left = parts - p;
        let remaining = n - idx;
        let q = remaining / left;
        let r = remaining % left;
        proof {
            vstd::arithmetic::div_mod::lemma_fundamental_div_mod(remaining as int, left as int);
            assert((left as int) * (q as int) >= q as int) by (nonlinear_arith)
                requires
                    left as int >= 1,
                    q as int >= 0,
            ;
        }
        let size = if r > 0 {
            q + 1
        } else {
            q
        };
        assert(size <= remaining);
        assert(left == 1 ==> size == remaining);
        let mut chunk: Vec<ShapeKind> = Vec::new();
        for j in 0..size
            invariant
                n == shapes@.len(),
                idx + size <= n,
                chunk@ == shapes@.subrange(idx as int, idx as int + j as int),
        {
            chunk.push(shapes[idx + j].clone());
            proof {
                assert(shapes@.subrange(idx as int, idx as int + j + 1) =~= shapes@.subrange(
                    idx as int,
                    idx as int + j,
                ).push(shapes@[idx as int + j]));
            }
        }
        let ghost prev_views = chunk_views(chunks@);
        let ghost prev_idx = idx as int;
        chunks.push(chunk);
        idx = idx + size;
        proof {
            assert(chunk_views(chunks@) =~= prev_views.push(shapes@.subrange(
                prev_idx,
                idx as int,
            )));
            assert(chunk_views(chunks@).drop_last() =~= prev_views);
            assert(shapes@.take(idx as int) =~= shapes@.take(prev_idx) + shapes@.subrange(
                prev_idx,
                idx as int,
            ));
        }
    }
    proof {
        assert(shapes@.take(n as int) =~= shapes@);
    }
    chunks
}

/// Concatenates the chunks back into one vector, in chunk order.
pub fn concat_chunks(chunks: &Vec<Vec<ShapeKind>>) -> (r: Vec<ShapeKind>)
    ensures
        r@ == concat_all(chunk_views(chunks@)),
{
    let mut r: Vec<ShapeKind> = Vec::new();
    let m = chunks.len();
    for i in 0..m
        invariant
            m == chunks@.len(),
            r@ == concat_all(chunk_views(chunks@.take(i as int))),
    {
        let cn = chunks[i].len();
        for j in 0..cn
            invariant
                m == chunks@.len(),
                i < m,
                cn == chunks@[i as int]@.len(),
                r@ == concat_all(chunk_views(chunks@.take(i as int))) + chunks@[i as int]@.take(
                    j as int,
                ),
        {
            r.push(chunks[i][j].clone());
            proof {
                assert(chunks@[i as int]@.take(j + 1) =~= chunks@[i as int]@.take(j as int).push(
                    chunks@[i as int]@[j as int],
                ));
            }
        }
        proof {
            assert(chunk_views(chunks@.take(i + 1)).drop_last() =~= chunk_views(chunks@.take(
                i as int,
            )));
            assert(chunk_views(chunks@.take(i + 1)).last() == chunks@[i as int]@);
            assert(chunks@[i as int]@.take(cn as int) =~= chunks@[i as int]@);
        }
    }
    proof {
        assert(chunks@.take(m as int) =~= chunks@);
    }
    r
}

} // verus!
