//! Doing a fallible thing to each item of a sequence, in order, where the
//! first failure ends it.

use vstd::prelude::*;

verus! {

/// What `f` makes of each item of `xs`, in order; the first failure where
/// it fails on one.
pub open spec fn try_map<A, B, E>(xs: Seq<A>, f: spec_fn(A) -> Result<B, E>) -> Result<Seq<B>, E>
    decreases xs.len(),
{
    if xs.len() == 0 {
        Ok(Seq::empty())
    } else {
        match try_map(xs.drop_last(), f) {
            Err(fault) => Err(fault),
            Ok(ys) => match f(xs.last()) {
                Err(fault) => Err(fault),
                Ok(y) => Ok(ys.push(y)),
            },
        }
    }
}

/// The state that `f` makes of `state` and each item of `xs` in turn; the
/// first failure where it fails on one.
pub open spec fn try_fold<S, A, E>(state: S, xs: Seq<A>, f: spec_fn(S, A) -> Result<S, E>) -> Result<
    S,
    E,
>
    decreases xs.len(),
{
    if xs.len() == 0 {
        Ok(state)
    } else {
        match try_fold(state, xs.drop_last(), f) {
            Err(fault) => Err(fault),
            Ok(next) => f(next, xs.last()),
        }
    }
}

/// One more item: the items before it, then the item itself.
pub proof fn lemma_try_map_next<A, B, E>(xs: Seq<A>, f: spec_fn(A) -> Result<B, E>, i: int)
    requires
        0 <= i < xs.len(),
    ensures
        try_map(xs.take(i + 1), f) == match try_map(xs.take(i), f) {
            Err(fault) => Err(fault),
            Ok(ys) => match f(xs[i]) {
                Err(fault) => Err(fault),
                Ok(y) => Ok(ys.push(y)),
            },
        },
{
    assert(xs.take(i + 1).drop_last() =~= xs.take(i));
}

/// A failure among the first items is the failure of the whole.
pub proof fn lemma_try_map_failed<A, B, E>(xs: Seq<A>, f: spec_fn(A) -> Result<B, E>, i: int)
    requires
        0 <= i <= xs.len(),
        try_map(xs.take(i), f) is Err,
    ensures
        try_map(xs, f) == try_map(xs.take(i), f),
    decreases xs.len() - i,
{
    if i == xs.len() {
        assert(xs.take(i) =~= xs);
    } else {
        lemma_try_map_next(xs, f, i);
        lemma_try_map_failed(xs, f, i + 1);
    }
}

/// Where `f` succeeds on all items there is one result for each, and it
/// is what `f` makes of the item; where it fails, it fails on some item.
pub proof fn lemma_try_map_items<A, B, E>(xs: Seq<A>, f: spec_fn(A) -> Result<B, E>)
    ensures
        try_map(xs, f) matches Ok(ys) ==> ys.len() == xs.len() && forall|i: int|
            0 <= i < xs.len() ==> f(xs[i]) == Ok::<B, E>(ys[i]),
        try_map(xs, f) matches Err(fault) ==> exists|i: int|
            0 <= i < xs.len() && f(xs[i]) == Err::<B, E>(fault),
    decreases xs.len(),
{
    if xs.len() > 0 {
        let front = xs.drop_last();
        lemma_try_map_items(front, f);
        match try_map(front, f) {
            Err(fault) => {
                let k = choose|i: int| 0 <= i < front.len() && f(front[i]) == Err::<B, E>(fault);
                assert(front[k] == xs[k]);
            },
            Ok(ys) => {
                match f(xs.last()) {
                    Err(fault) => {
                        assert(f(xs[xs.len() - 1]) == Err::<B, E>(fault));
                    },
                    Ok(y) => {
                        assert forall|i: int| 0 <= i < xs.len() implies f(xs[i]) == Ok::<B, E>(
                            ys.push(y)[i],
                        ) by {
                            if i < xs.len() - 1 {
                                assert(front[i] == xs[i]);
                            }
                        }
                    },
                }
            },
        }
    }
}

/// One more item: the state after the items before it, then the item.
pub proof fn lemma_try_fold_next<S, A, E>(
    state: S,
    xs: Seq<A>,
    f: spec_fn(S, A) -> Result<S, E>,
    i: int,
)
    requires
        0 <= i < xs.len(),
    ensures
        try_fold(state, xs.take(i + 1), f) == match try_fold(state, xs.take(i), f) {
            Err(fault) => Err(fault),
            Ok(next) => f(next, xs[i]),
        },
{
    assert(xs.take(i + 1).drop_last() =~= xs.take(i));
}

/// A failure among the first items is the failure of the whole.
pub proof fn lemma_try_fold_failed<S, A, E>(
    state: S,
    xs: Seq<A>,
    f: spec_fn(S, A) -> Result<S, E>,
    i: int,
)
    requires
        0 <= i <= xs.len(),
        try_fold(state, xs.take(i), f) is Err,
    ensures
        try_fold(state, xs, f) == try_fold(state, xs.take(i), f),
    decreases xs.len() - i,
{
    if i == xs.len() {
        assert(xs.take(i) =~= xs);
    } else {
        lemma_try_fold_next(state, xs, f, i);
        lemma_try_fold_failed(state, xs, f, i + 1);
    }
}

/// All items have been taken in.
pub proof fn lemma_try_all<A>(xs: Seq<A>)
    ensures
        xs.take(xs.len() as int) == xs,
{
    assert(xs.take(xs.len() as int) =~= xs);
}

} // verus!
