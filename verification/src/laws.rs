//! Library-wide laws, stated over the specification functions that the
//! operations' contracts are written in and proved once and for all.

use crate::ops::{spec_filter_shapes, spec_mutate_shapes};
use crate::shape::{
    char_lower, chars_match_ci, circle_chars, rectangle_chars, shape_matches, spec_kind_sel,
    spec_mutate_shape, KindSel, ShapeKind,
};
use vstd::prelude::*;

verus! {

/// The original indices of the shapes that the selector retains, ascending.
pub open spec fn retained_indices(s: Seq<ShapeKind>, k: KindSel) -> Seq<int>
    decreases s.len(),
{
    if s.len() == 0 {
        Seq::empty()
    } else {
        let rest = retained_indices(s.drop_last(), k);
        if shape_matches(s.last(), k) {
            rest.push(s.len() - 1)
        } else {
            rest
        }
    }
}

/// Order preservation of filtering: the retained shapes are exactly the
/// shapes at a strictly ascending sequence of original indices, so their
/// relative order matches the input order.
pub proof fn lemma_filter_preserves_order(s: Seq<ShapeKind>, k: KindSel)
    ensures
        retained_indices(s, k).len() == spec_filter_shapes(s, k).len(),
        forall|j: int|
            0 <= j < retained_indices(s, k).len() ==> 0 <= #[trigger] retained_indices(s, k)[j]
                < s.len(),
        forall|j: int|
            0 <= j < retained_indices(s, k).len() ==> spec_filter_shapes(s, k)[j] == s[
                #[trigger] retained_indices(s, k)[j]
            ],
        forall|j1: int, j2: int|
            0 <= j1 < j2 < retained_indices(s, k).len() ==> #[trigger] retained_indices(s, k)[j1]
                < #[trigger] retained_indices(s, k)[j2],
        forall|i: int|
            0 <= i < s.len() ==> (retained_indices(s, k).contains(i) <==> shape_matches(
                #[trigger] s[i],
                k,
            )),
    decreases s.len(),
{
    reveal(Seq::filter);
    if s.len() > 0 {
        let rest = retained_indices(s.drop_last(), k);
        lemma_filter_preserves_order(s.drop_last(), k);
        assert forall|i: int|
            0 <= i < s.len() implies (retained_indices(s, k).contains(i) <==> shape_matches(
            s[i],
            k,
        )) by {
            if i < s.len() - 1 {
                assert(s.drop_last()[i] == s[i]);
                if rest.contains(i) {
                    let j = choose|j: int| 0 <= j < rest.len() && rest[j] == i;
                    if shape_matches(s.last(), k) {
                        assert(rest.push(s.len() - 1)[j] == i);
                    }
                }
                if retained_indices(s, k).contains(i) {
                    let j = choose|j: int|
                        0 <= j < retained_indices(s, k).len() && retained_indices(s, k)[j] == i;
                    if shape_matches(s.last(), k) && j < rest.len() {
                        assert(rest[j] == i);
                    }
                    if !shape_matches(s.last(), k) {
                        assert(rest[j] == i);
                    }
                }
            } else {
                if shape_matches(s.last(), k) {
                    assert(retained_indices(s, k)[rest.len() as int] == i);
                }
                if retained_indices(s, k).contains(i) && !shape_matches(s.last(), k) {
                    let j = choose|j: int|
                        0 <= j < retained_indices(s, k).len() && retained_indices(s, k)[j] == i;
                    assert(rest[j] == i);
                }
            }
        };
    }
}

/// Completeness of filtering: every shape is of exactly one of the two
/// kinds, so the circle selection and the rectangle selection are disjoint,
/// their sizes add up to the input size, and together with the index maps of
/// `lemma_filter_preserves_order` they reconstruct the input exactly.
pub proof fn lemma_filter_complete(s: Seq<ShapeKind>)
    ensures
        forall|i: int|
            0 <= i < s.len() ==> (shape_matches(#[trigger] s[i], KindSel::Circle)
                <==> !shape_matches(s[i], KindSel::Rectangle)),
        spec_filter_shapes(s, KindSel::Circle).len() + spec_filter_shapes(
            s,
            KindSel::Rectangle,
        ).len() == s.len(),
    decreases s.len(),
{
    reveal(Seq::filter);
    if s.len() > 0 {
        lemma_filter_complete(s.drop_last());
    }
}

/// Mutation preserves order and length: the output at each index is the
/// rewrite of the input at the same index.
pub proof fn lemma_mutate_preserves_order(s: Seq<ShapeKind>)
    ensures
        spec_mutate_shapes(s).len() == s.len(),
        forall|i: int|
            0 <= i < s.len() ==> #[trigger] spec_mutate_shapes(s)[i] == spec_mutate_shape(s[i]),
{
}

/// Mutation is the identity on all-rectangle input.
pub proof fn lemma_mutate_rectangles_identity(s: Seq<ShapeKind>)
    requires
        forall|i: int| 0 <= i < s.len() ==> (#[trigger] s[i]) is Rectangle,
    ensures
        spec_mutate_shapes(s) == s,
{
    assert(spec_mutate_shapes(s) =~= s);
}

/// Kind selection is case insensitive: two selector strings with the same
/// ASCII lowercasing select the same kind, so filtering behaves identically
/// under them.
pub proof fn lemma_kind_case_insensitive(k1: Seq<char>, k2: Seq<char>)
    requires
        k1.map_values(|c: char| char_lower(c)) == k2.map_values(|c: char| char_lower(c)),
    ensures
        spec_kind_sel(k1) == spec_kind_sel(k2),
{
    let l1 = k1.map_values(|c: char| char_lower(c));
    let l2 = k2.map_values(|c: char| char_lower(c));
    assert(k1.len() == l1.len());
    assert(k2.len() == l2.len());
    assert forall|i: int| 0 <= i < k1.len() implies char_lower(#[trigger] k1[i]) == char_lower(
        k2[i],
    ) by {
        assert(l1[i] == char_lower(k1[i]));
        assert(l2[i] == char_lower(k2[i]));
    };
    lemma_match_ci_transfer(k1, k2, circle_chars());
    lemma_match_ci_transfer(k1, k2, rectangle_chars());
}

/// Strings with the same lowercasing match the same targets.
proof fn lemma_match_ci_transfer(k1: Seq<char>, k2: Seq<char>, t: Seq<char>)
    requires
        k1.len() == k2.len(),
        forall|i: int| 0 <= i < k1.len() ==> char_lower(#[trigger] k1[i]) == char_lower(k2[i]),
    ensures
        chars_match_ci(k1, t) <==> chars_match_ci(k2, t),
{
    if chars_match_ci(k1, t) {
        assert forall|i: int| 0 <= i < k2.len() implies char_lower(#[trigger] k2[i]) == t[i] by {
            assert(char_lower(k1[i]) == t[i]);
        };
    }
    if chars_match_ci(k2, t) {
        assert forall|i: int| 0 <= i < k1.len() implies char_lower(#[trigger] k1[i]) == t[i] by {
            assert(char_lower(k2[i]) == t[i]);
        };
    }
}

} // verus!
