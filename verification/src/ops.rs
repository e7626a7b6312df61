//! The three operations over a sequence of shapes — occupation, filter by
//! kind, circle-to-rectangle mutation — together with the specification-level
//! fold they are measured against and its algebraic lemmas.

use crate::coordinates::{
    area_of, bounds_in_range, combine, dominated, empty_bounds, Bounds, MinMaxCoordinates,
};
use crate::shape::{
    mutate_shape, parse_kind, shape_bounds, shape_matches, shape_matches_exec, spec_kind_sel,
    spec_mutate_shape, wf_shape, KindSel, ShapeKind,
};
use crate::strategy::{
    build_pool, chunk_views, clock_elapsed_millis, clock_now, concat_all, concat_chunks,
    lemma_concat_contains, partition_shapes, pool_map,
};
use vstd::prelude::*;

verus! {

/// Every shape of the sequence is well formed.
pub open spec fn all_wf(s: Seq<ShapeKind>) -> bool {
    forall|i: int| 0 <= i < s.len() ==> wf_shape(#[trigger] s[i])
}

/// The sequential left fold of every shape's bounding contribution into the
/// identity box.
pub open spec fn fold_bounds(s: Seq<ShapeKind>) -> Bounds
    decreases s.len(),
{
    if s.len() == 0 {
        empty_bounds()
    } else {
        combine(fold_bounds(s.drop_last()), shape_bounds(s.last()))
    }
}

/// The shapes retained by the selector, in input order.
pub open spec fn spec_filter_shapes(s: Seq<ShapeKind>, k: KindSel) -> Seq<ShapeKind> {
    s.filter(|x: ShapeKind| shape_matches(x, k))
}

/// Every circle rewritten to its enclosing rectangle, in input order.
pub open spec fn spec_mutate_shapes(s: Seq<ShapeKind>) -> Seq<ShapeKind> {
    s.map_values(|x: ShapeKind| spec_mutate_shape(x))
}

/// The occupation of a shape sequence: the area of the fold of every
/// bounding contribution, and zero for an empty sequence (the identity box
/// area is a non-physical sentinel and is never reported).
pub open spec fn spec_occupation(s: Seq<ShapeKind>) -> int {
    if s.len() == 0 {
        0
    } else {
        area_of(fold_bounds(s))
    }
}

/// Every fold result is dominated by the identity box, whatever the shapes.
pub proof fn lemma_fold_dominated(s: Seq<ShapeKind>)
    ensures
        dominated(fold_bounds(s)),
    decreases s.len(),
{
    if s.len() > 0 {
        lemma_fold_dominated(s.drop_last());
    }
}

/// Folding a concatenation is combining the folds of the parts: the heart of
/// partition invariance.
pub proof fn lemma_fold_append(s1: Seq<ShapeKind>, s2: Seq<ShapeKind>)
    ensures
        fold_bounds(s1 + s2) == combine(fold_bounds(s1), fold_bounds(s2)),
    decreases s2.len(),
{
    if s2.len() == 0 {
        assert(s1 + s2 =~= s1);
        lemma_fold_dominated(s1);
    } else {
        assert((s1 + s2).drop_last() =~= s1 + s2.drop_last());
        lemma_fold_append(s1, s2.drop_last());
    }
}

/// The fold of a non-empty sequence of well-formed shapes has all four
/// corners inside `BOUND_LIMIT`.
pub proof fn lemma_fold_in_range(s: Seq<ShapeKind>)
    requires
        all_wf(s),
        s.len() > 0,
    ensures
        bounds_in_range(fold_bounds(s)),
    decreases s.len(),
{
    assert(wf_shape(s.last()));
    assert(bounds_in_range(shape_bounds(s.last())));
    if s.len() == 1 {
        assert(fold_bounds(s.drop_last()) == empty_bounds());
    }
    if s.len() > 1 {
        assert(all_wf(s.drop_last())) by {
            assert(forall|i: int|
                0 <= i < s.drop_last().len() ==> #[trigger] s.drop_last()[i] == s[i]);
        }
        lemma_fold_in_range(s.drop_last());
    }
}

/// The box covering every shape of a chunk, by a sequential left fold.
pub fn fold_chunk(shapes: &Vec<ShapeKind>) -> (m: MinMaxCoordinates)
    requires
        all_wf(shapes@),
    ensures
        m@ == fold_bounds(shapes@),
{
    let mut acc = MinMaxCoordinates::new();
    let n = shapes.len();
    for i in 0..n
        invariant
            n == shapes@.len(),
            all_wf(shapes@),
            acc@ == fold_bounds(shapes@.take(i as int)),
    {
        let b = shapes[i].bounding_box();
        acc = acc.min_max(&b);
        proof {
            assert(shapes@.take(i + 1).drop_last() =~= shapes@.take(i as int));
            assert(shapes@.take(i + 1).last() == shapes@[i as int]);
        }
    }
    proof {
        assert(shapes@.take(n as int) =~= shapes@);
    }
    acc
}

/// The shapes of a chunk retained by the selector, in order.
pub fn filter_chunk(shapes: &Vec<ShapeKind>, k: KindSel) -> (r: Vec<ShapeKind>)
    ensures
        r@ == spec_filter_shapes(shapes@, k),
{
    let mut r: Vec<ShapeKind> = Vec::new();
    let n = shapes.len();
    proof {
        reveal(Seq::filter);
    }
    for i in 0..n
        invariant
            n == shapes@.len(),
            r@ == spec_filter_shapes(shapes@.take(i as int), k),
    {
        if shape_matches_exec(&shapes[i], k) {
            r.push(shapes[i].clone());
        }
        proof {
            reveal(Seq::filter);
            assert(shapes@.take(i + 1).drop_last() =~= shapes@.take(i as int));
            assert(shapes@.take(i + 1).last() == shapes@[i as int]);
        }
    }
    proof {
        assert(shapes@.take(n as int) =~= shapes@);
    }
    r
}

/// Every circle of a chunk rewritten to its enclosing rectangle, in order.
pub fn mutate_chunk(shapes: &Vec<ShapeKind>) -> (r: Vec<ShapeKind>)
    requires
        all_wf(shapes@),
    ensures
        r@ == spec_mutate_shapes(shapes@),
{
    let mut r: Vec<ShapeKind> = Vec::new();
    let n = shapes.len();
    for i in 0..n
        invariant
            n == shapes@.len(),
            all_wf(shapes@),
            r@ == spec_mutate_shapes(shapes@.take(i as int)),
    {
        let s = shapes[i].clone();
        r.push(mutate_shape(s));
        proof {
            assert(r@ =~= spec_mutate_shapes(shapes@.take(i + 1)));
        }
    }
    proof {
        assert(shapes@.take(n as int) =~= shapes@);
    }
    r
}

/// The occupation of a shape sequence by the sequential strategy.
pub fn occupation_value_seq(shapes: &Vec<ShapeKind>) -> (a: i64)
    requires
        all_wf(shapes@),
    ensures
        a as int == spec_occupation(shapes@),
{
    if shapes.len() == 0 {
        return 0;
    }
    let m = fold_chunk(shapes);
    proof {
        lemma_fold_in_range(shapes@);
    }
    m.area()
}

/// The combination of a sequence of boxes into the identity, left to right.
pub open spec fn combine_seq(bs: Seq<Bounds>) -> Bounds
    decreases bs.len(),
{
    if bs.len() == 0 {
        empty_bounds()
    } else {
        combine(combine_seq(bs.drop_last()), bs.last())
    }
}

/// Partition invariance: folding each chunk of a partition separately and
/// combining the partial boxes in order yields the fold of the whole
/// concatenation, whatever the chunk boundaries.
pub proof fn lemma_fold_partition(css: Seq<Seq<ShapeKind>>)
    ensures
        combine_seq(css.map_values(|cs: Seq<ShapeKind>| fold_bounds(cs))) == fold_bounds(
            concat_all(css),
        ),
    decreases css.len(),
{
    let folded = css.map_values(|cs: Seq<ShapeKind>| fold_bounds(cs));
    if css.len() == 0 {
        assert(folded.len() == 0);
    } else {
        lemma_fold_partition(css.drop_last());
        assert(folded.drop_last() =~= css.drop_last().map_values(
            |cs: Seq<ShapeKind>| fold_bounds(cs),
        ));
        lemma_fold_append(concat_all(css.drop_last()), css.last());
    }
}

/// Filtering distributes over concatenation.
pub proof fn lemma_filter_append(a: Seq<ShapeKind>, b: Seq<ShapeKind>, k: KindSel)
    ensures
        spec_filter_shapes(a + b, k) == spec_filter_shapes(a, k) + spec_filter_shapes(b, k),
    decreases b.len(),
{
    reveal(Seq::filter);
    if b.len() == 0 {
        assert(a + b =~= a);
        assert(spec_filter_shapes(a, k) + spec_filter_shapes(b, k) =~= spec_filter_shapes(a, k));
    } else {
        assert((a + b).drop_last() =~= a + b.drop_last());
        lemma_filter_append(a, b.drop_last(), k);
        if shape_matches(b.last(), k) {
            assert(spec_filter_shapes(a, k) + spec_filter_shapes(b, k) =~= (spec_filter_shapes(
                a,
                k,
            ) + spec_filter_shapes(b.drop_last(), k)).push(b.last()));
        }
    }
}

/// Filtering a concatenation of chunks is concatenating the filtered chunks.
pub proof fn lemma_filter_concat(css: Seq<Seq<ShapeKind>>, k: KindSel)
    ensures
        spec_filter_shapes(concat_all(css), k) == concat_all(
            css.map_values(|cs: Seq<ShapeKind>| spec_filter_shapes(cs, k)),
        ),
    decreases css.len(),
{
    let mapped = css.map_values(|cs: Seq<ShapeKind>| spec_filter_shapes(cs, k));
    if css.len() == 0 {
        reveal(Seq::filter);
        assert(mapped.len() == 0);
    } else {
        lemma_filter_concat(css.drop_last(), k);
        assert(mapped.drop_last() =~= css.drop_last().map_values(
            |cs: Seq<ShapeKind>| spec_filter_shapes(cs, k),
        ));
        lemma_filter_append(concat_all(css.drop_last()), css.last(), k);
    }
}

/// Mutation distributes over concatenation.
pub proof fn lemma_mutate_append(a: Seq<ShapeKind>, b: Seq<ShapeKind>)
    ensures
        spec_mutate_shapes(a + b) == spec_mutate_shapes(a) + spec_mutate_shapes(b),
{
    assert(spec_mutate_shapes(a + b) =~= spec_mutate_shapes(a) + spec_mutate_shapes(b));
}

/// Mutating a concatenation of chunks is concatenating the mutated chunks.
pub proof fn lemma_mutate_concat(css: Seq<Seq<ShapeKind>>)
    ensures
        spec_mutate_shapes(concat_all(css)) == concat_all(
            css.map_values(|cs: Seq<ShapeKind>| spec_mutate_shapes(cs)),
        ),
    decreases css.len(),
{
    let mapped = css.map_values(|cs: Seq<ShapeKind>| spec_mutate_shapes(cs));
    if css.len() == 0 {
        assert(spec_mutate_shapes(concat_all(css)) =~= Seq::empty());
        assert(mapped.len() == 0);
    } else {
        lemma_mutate_concat(css.drop_last());
        assert(mapped.drop_last() =~= css.drop_last().map_values(
            |cs: Seq<ShapeKind>| spec_mutate_shapes(cs),
        ));
        lemma_mutate_append(concat_all(css.drop_last()), css.last());
    }
}

/// Every chunk of a partition of a well-formed sequence is well formed.
proof fn lemma_chunks_wf(chunks: Seq<Seq<ShapeKind>>, s: Seq<ShapeKind>)
    requires
        concat_all(chunks) == s,
        all_wf(s),
    ensures
        forall|i: int| 0 <= i < chunks.len() ==> all_wf(#[trigger] chunks[i]),
{
    assert forall|i: int| 0 <= i < chunks.len() implies all_wf(chunks[i]) by {
        assert forall|j: int| 0 <= j < chunks[i].len() implies wf_shape(#[trigger] chunks[i][j]) by {
            lemma_concat_contains(chunks, i, j);
            let x = chunks[i][j];
            let w = choose|w: int| 0 <= w < s.len() && s[w] == x;
            assert(wf_shape(s[w]));
        };
    };
}

/// The occupation of a shape sequence by the worker-pool strategy: one
/// contiguous chunk per worker, folded in parallel, partial boxes combined
/// in order.  The result equals the sequential fold.
fn occupation_value_par(pool: &rayon::ThreadPool, shapes: &Vec<ShapeKind>, threads: usize) -> (a:
    i64)
    requires
        all_wf(shapes@),
        1 <= threads,
    ensures
        a as int == spec_occupation(shapes@),
{
    if shapes.len() == 0 {
        return 0;
    }
    let chunks = partition_shapes(shapes, threads);
    let f = |c: &Vec<ShapeKind>| -> (m: MinMaxCoordinates)
        requires
            all_wf(c@),
        ensures
            m@ == fold_bounds(c@),
        { fold_chunk(c) };
    proof {
        lemma_chunks_wf(chunk_views(chunks@), shapes@);
        assert forall|i: int| 0 <= i < chunks@.len() implies call_requires(
            f,
            (&chunks@[i],),
        ) by {
            assert(all_wf(chunk_views(chunks@)[i]));
        };
    }
    let partials = pool_map(pool, &chunks, f);
    let mut acc = MinMaxCoordinates::new();
    let m = partials.len();
    for i in 0..m
        invariant
            m == partials@.len(),
            acc@ == combine_seq(partials@.take(i as int).map_values(
                |p: MinMaxCoordinates| p@,
            )),
    {
        acc = acc.min_max(&partials[i]);
        proof {
            let boxes = partials@.take(i + 1).map_values(|p: MinMaxCoordinates| p@);
            assert(boxes.drop_last() =~= partials@.take(i as int).map_values(
                |p: MinMaxCoordinates| p@,
            ));
            assert(boxes.last() == partials@[i as int]@);
        }
    }
    proof {
        assert(partials@.take(m as int) =~= partials@);
        assert(partials@.map_values(|p: MinMaxCoordinates| p@) =~= chunk_views(chunks@).map_values(
            |cs: Seq<ShapeKind>| fold_bounds(cs),
        ));
        lemma_fold_partition(chunk_views(chunks@));
        lemma_fold_in_range(shapes@);
    }
    acc.area()
}

/// The filtered shapes by the worker-pool strategy: one contiguous chunk per
/// worker, filtered in parallel, concatenated in input order.
fn filter_value_par(pool: &rayon::ThreadPool, shapes: &Vec<ShapeKind>, k: KindSel, threads: usize)
    -> (r: Vec<ShapeKind>)
    requires
        1 <= threads,
    ensures
        r@ == spec_filter_shapes(shapes@, k),
{
    let chunks = partition_shapes(shapes, threads);
    let f = |c: &Vec<ShapeKind>| -> (out: Vec<ShapeKind>)
        ensures
            out@ == spec_filter_shapes(c@, k),
        { filter_chunk(c, k) };
    let filtered = pool_map(pool, &chunks, f);
    let r = concat_chunks(&filtered);
    proof {
        assert(chunk_views(filtered@) =~= chunk_views(chunks@).map_values(
            |cs: Seq<ShapeKind>| spec_filter_shapes(cs, k),
        ));
        lemma_filter_concat(chunk_views(chunks@), k);
    }
    r
}

/// The mutated shapes by the worker-pool strategy: one contiguous chunk per
/// worker, rewritten in parallel, concatenated in input order.
fn mutate_value_par(pool: &rayon::ThreadPool, shapes: &Vec<ShapeKind>, threads: usize) -> (r: Vec<
    ShapeKind,
>)
    requires
        all_wf(shapes@),
        1 <= threads,
    ensures
        r@ == spec_mutate_shapes(shapes@),
{
    let chunks = partition_shapes(shapes, threads);
    let f = |c: &Vec<ShapeKind>| -> (out: Vec<ShapeKind>)
        requires
            all_wf(c@),
        ensures
            out@ == spec_mutate_shapes(c@),
        { mutate_chunk(c) };
    proof {
        lemma_chunks_wf(chunk_views(chunks@), shapes@);
        assert forall|i: int| 0 <= i < chunks@.len() implies call_requires(
            f,
            (&chunks@[i],),
        ) by {
            assert(all_wf(chunk_views(chunks@)[i]));
        };
    }
    let mutated = pool_map(pool, &chunks, f);
    let r = concat_chunks(&mutated);
    proof {
        assert(chunk_views(mutated@) =~= chunk_views(chunks@).map_values(
            |cs: Seq<ShapeKind>| spec_mutate_shapes(cs),
        ));
        lemma_mutate_concat(chunk_views(chunks@));
    }
    r
}

/// The outcome of an occupation call: the bounding-box area covering every
/// shape, and the wall-clock milliseconds the operation took.
pub struct OccupationResult {
    pub occupation: i64,
    pub elapsed: u64,
}

/// The outcome of a filter call: the retained shapes in input order, and the
/// wall-clock milliseconds the operation took.
pub struct FilterResult {
    pub filtered: Vec<ShapeKind>,
    pub elapsed: u64,
}

/// The outcome of a mutation call: the rewritten shapes in input order, and
/// the wall-clock milliseconds the operation took.
pub struct MutationResult {
    pub values: Vec<ShapeKind>,
    pub elapsed: u64,
}

/// Worker-pool construction failed: the one fatal condition of a call.  The
/// call is aborted before any work begins.
#[derive(Debug, PartialEq, Eq, Structural)]
pub struct PoolError;

/// The axis-aligned bounding-box area covering every shape, zero on empty
/// input, computed sequentially for `threads == 0` and on a fresh pool of
/// exactly `threads` workers otherwise.  Every thread count yields the same
/// area; only pool construction can fail, and never after work has begun.
pub fn occupation(shapes: Vec<ShapeKind>, threads: usize) -> (r: Result<
    OccupationResult,
    PoolError,
>)
    requires
        all_wf(shapes@),
    ensures
        threads == 0 ==> r is Ok,
        r is Ok ==> r->Ok_0.occupation as int == spec_occupation(shapes@),
{
    let start = clock_now();
    let value: i64;
    if threads == 0 {
        value = occupation_value_seq(&shapes);
    } else {
        let pool = match build_pool(threads) {
            Some(p) => p,
            None => {
                return Err(PoolError);
            },
        };
        value = occupation_value_par(&pool, &shapes, threads);
    }
    Ok(OccupationResult { occupation: value, elapsed: clock_elapsed_millis(&start) })
}

/// The shapes whose kind the selector string names, matched case
/// insensitively against `"circle"` and `"rectangle"`, in input order; an
/// unknown selector is no error and retains nothing.  Computed sequentially
/// for `threads == 0` and on a fresh pool of exactly `threads` workers
/// otherwise, with the same result either way.
pub fn filter(shapes: Vec<ShapeKind>, kind: String, threads: usize) -> (r: Result<
    FilterResult,
    PoolError,
>)
    ensures
        threads == 0 ==> r is Ok,
        r is Ok ==> r->Ok_0.filtered@ == spec_filter_shapes(shapes@, spec_kind_sel(kind@)),
{
    let start = clock_now();
    let k = parse_kind(kind.as_str());
    let value: Vec<ShapeKind>;
    if threads == 0 {
        value = filter_chunk(&shapes, k);
    } else {
        let pool = match build_pool(threads) {
            Some(p) => p,
            None => {
                return Err(PoolError);
            },
        };
        value = filter_value_par(&pool, &shapes, k, threads);
    }
    Ok(FilterResult { filtered: value, elapsed: clock_elapsed_millis(&start) })
}

/// Every circle replaced by its enclosing rectangle — anchor moved to
/// `(x-r, y-r)`, sides `2r`, color preserved — and every rectangle passed
/// through unchanged, in input order.  Computed sequentially for
/// `threads == 0` and on a fresh pool of exactly `threads` workers
/// otherwise, with the same result either way.
pub fn mutate_circles_to_rectangles(shapes: Vec<ShapeKind>, threads: usize) -> (r: Result<
    MutationResult,
    PoolError,
>)
    requires
        all_wf(shapes@),
    ensures
        threads == 0 ==> r is Ok,
        r is Ok ==> r->Ok_0.values@ == spec_mutate_shapes(shapes@),
{
    let start = clock_now();
    let value: Vec<ShapeKind>;
    if threads == 0 {
        value = mutate_chunk(&shapes);
    } else {
        let pool = match build_pool(threads) {
            Some(p) => p,
            None => {
                return Err(PoolError);
            },
        };
        value = mutate_value_par(&pool, &shapes, threads);
    }
    Ok(MutationResult { values: value, elapsed: clock_elapsed_millis(&start) })
}

} // verus!
