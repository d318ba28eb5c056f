//! The least index at which something holds.
//!
//! An operation reads the elements of a reply in order and fails at the
//! first one that it does not accept. `first_index` names that element.

use vstd::prelude::*;

verus! {

/// Whether `at` is the least index below `len` at which `hit` holds.
pub open spec fn is_first_hit(len: int, hit: spec_fn(int) -> bool, at: int) -> bool {
    &&& 0 <= at < len
    &&& hit(at)
    &&& forall|earlier: int| 0 <= earlier < at ==> !#[trigger] hit(earlier)
}

/// The least index below `len` at which `hit` holds, if there is one.
pub open spec fn first_index(len: int, hit: spec_fn(int) -> bool) -> Option<int> {
    if exists|at: int| is_first_hit(len, hit, at) {
        Some(choose|at: int| is_first_hit(len, hit, at))
    } else {
        None
    }
}

/// The least index is unique.
pub proof fn lemma_first_index(len: int, hit: spec_fn(int) -> bool, at: int)
    requires
        is_first_hit(len, hit, at),
    ensures
        first_index(len, hit) == Some(at),
{
    let chosen = choose|i: int| is_first_hit(len, hit, i);
    assert(is_first_hit(len, hit, chosen));
    if chosen < at {
        assert(!hit(chosen));
    }
    if at < chosen {
        assert(!hit(at));
    }
}

/// Where nothing is hit there is no least index.
pub proof fn lemma_no_index(len: int, hit: spec_fn(int) -> bool)
    requires
        forall|at: int| 0 <= at < len ==> !#[trigger] hit(at),
    ensures
        first_index(len, hit) is None,
{
}

/// Where something is hit there is a least index, and it is not above any
/// index that is hit.
pub proof fn lemma_first_index_found(len: int, hit: spec_fn(int) -> bool, witness: int)
    requires
        0 <= witness < len,
        hit(witness),
    ensures
        first_index(len, hit) matches Some(at) && is_first_hit(len, hit, at) && at <= witness,
    decreases witness,
{
    if exists|earlier: int| 0 <= earlier < witness && #[trigger] hit(earlier) {
        let earlier = choose|earlier: int| 0 <= earlier < witness && #[trigger] hit(earlier);
        lemma_first_index_found(len, hit, earlier);
    } else {
        assert(is_first_hit(len, hit, witness));
        lemma_first_index(len, hit, witness);
    }
}

/// What `first_index` returns is the least index that is hit; where it
/// returns none, nothing is hit.
pub proof fn lemma_first_index_is_first(len: int, hit: spec_fn(int) -> bool)
    ensures
        match first_index(len, hit) {
            Some(at) => is_first_hit(len, hit, at),
            None => forall|at: int| 0 <= at < len ==> !#[trigger] hit(at),
        },
{
    if first_index(len, hit) is None {
        assert forall|at: int| 0 <= at < len implies !#[trigger] hit(at) by {
            if hit(at) {
                lemma_first_index_found(len, hit, at);
            }
        }
    }
}

/// The index that the element at `at` had before the element at `gone` was
/// taken out.
pub open spec fn before_removal(gone: int, at: int) -> int {
    if at < gone {
        at
    } else {
        at + 1
    }
}

/// The index that the element at `at` has after the element at `gone` was
/// taken out.
pub open spec fn after_removal(gone: int, at: int) -> int {
    if at < gone {
        at
    } else {
        at - 1
    }
}

/// Taking out an index that is not hit moves the least index that is hit
/// along with its element, and brings none where there was none.
pub proof fn lemma_first_index_without(
    len: int,
    hit: spec_fn(int) -> bool,
    less: spec_fn(int) -> bool,
    gone: int,
)
    requires
        0 <= gone < len,
        !hit(gone),
        forall|at: int| 0 <= at < len - 1 ==> #[trigger] less(at) == hit(before_removal(gone, at)),
    ensures
        first_index(len - 1, less) == match first_index(len, hit) {
            Some(at) => Some(after_removal(gone, at)),
            None => None,
        },
{
    lemma_first_index_is_first(len, hit);
    match first_index(len, hit) {
        Some(at) => {
            let moved = after_removal(gone, at);
            assert(before_removal(gone, moved) == at);
            assert(less(moved));
            assert forall|earlier: int| 0 <= earlier < moved implies !#[trigger] less(earlier) by {
                assert(before_removal(gone, earlier) < at);
            }
            lemma_first_index(len - 1, less, moved);
        },
        None => {
            assert forall|at: int| 0 <= at < len - 1 implies !#[trigger] less(at) by {
                assert(!hit(before_removal(gone, at)));
            }
            lemma_no_index(len - 1, less);
        },
    }
}

} // verus!
