//! Taking items in one by one.

use vstd::prelude::*;

verus! {

/// `end` is what `start` can come to when the items are taken in, in order.
/// `step` tells what taking in one item can make of a state.
pub open spec fn folds<S, T>(
    step: spec_fn(S, T, S) -> bool,
    start: S,
    items: Seq<T>,
    end: S,
) -> bool
    decreases items.len(),
{
    if items.len() == 0 {
        end == start
    } else {
        exists|between: S|
            folds(step, start, items.drop_last(), between) && #[trigger] step(
                between,
                items.last(),
                end,
            )
    }
}

/// Taking in one item more.
pub proof fn folds_push<S, T>(
    step: spec_fn(S, T, S) -> bool,
    start: S,
    items: Seq<T>,
    between: S,
    item: T,
    end: S,
)
    requires
        folds(step, start, items, between),
        step(between, item, end),
    ensures
        folds(step, start, items.push(item), end),
{
    assert(items.push(item).drop_last() =~= items);
    assert(items.push(item).last() == item);
}

/// Taking in the items in two lots comes to the same as taking them in at once.
pub proof fn folds_append<S, T>(
    step: spec_fn(S, T, S) -> bool,
    start: S,
    first: Seq<T>,
    second: Seq<T>,
    end: S,
)
    ensures
        folds(step, start, first + second, end) <==> exists|middle: S|
            folds(step, start, first, middle) && #[trigger] folds(step, middle, second, end),
    decreases second.len(),
{
    if second.len() == 0 {
        assert(first + second =~= first);
        if folds(step, start, first + second, end) {
            assert(folds(step, end, second, end));
        }
    } else {
        let (rest, last) = (second.drop_last(), second.last());
        assert((first + second).drop_last() =~= first + rest);
        assert((first + second).last() == last);
        if folds(step, start, first + second, end) {
            let between = choose|between: S|
                folds(step, start, first + rest, between) && #[trigger] step(between, last, end);
            folds_append(step, start, first, rest, between);
            let middle = choose|middle: S|
                folds(step, start, first, middle) && #[trigger] folds(step, middle, rest, between);
            assert(folds(step, middle, second, end));
        }
        if exists|middle: S|
            folds(step, start, first, middle) && #[trigger] folds(step, middle, second, end) {
            let middle = choose|middle: S|
                folds(step, start, first, middle) && #[trigger] folds(step, middle, second, end);
            let between = choose|between: S|
                folds(step, middle, rest, between) && #[trigger] step(between, last, end);
            folds_append(step, start, first, rest, between);
            assert(folds(step, start, first + rest, between));
        }
    }
}

/// The states that the items lead through, one by one.
pub proof fn folds_trail<S, T>(
    step: spec_fn(S, T, S) -> bool,
    start: S,
    items: Seq<T>,
    end: S,
) -> (trail: Seq<S>)
    requires
        folds(step, start, items, end),
    ensures
        trail.len() == items.len() + 1,
        trail[0] == start,
        trail[items.len() as int] == end,
        forall|i: int| 0 <= i < items.len() ==> step(trail[i], #[trigger] items[i], trail[i + 1]),
    decreases items.len(),
{
    if items.len() == 0 {
        seq![start]
    } else {
        let (rest, last) = (items.drop_last(), items.last());
        let between = choose|between: S|
            folds(step, start, rest, between) && #[trigger] step(between, last, end);
        let before = folds_trail(step, start, rest, between);
        let trail = before.push(end);
        assert forall|i: int| 0 <= i < items.len() implies step(
            trail[i],
            #[trigger] items[i],
            trail[i + 1],
        ) by {
            if i < rest.len() {
                assert(rest[i] == items[i]);
            }
        }
        trail
    }
}

/// Where each step has one outcome only, so have all of them together.
pub proof fn folds_agree<S, T>(
    step: spec_fn(S, T, S) -> bool,
    start: S,
    items: Seq<T>,
    a: S,
    b: S,
)
    requires
        forall|state: S, item: T, x: S, y: S| #[trigger]
            step(state, item, x) && #[trigger] step(state, item, y) ==> x == y,
        folds(step, start, items, a),
        folds(step, start, items, b),
    ensures
        a == b,
    decreases items.len(),
{
    if items.len() > 0 {
        let (rest, last) = (items.drop_last(), items.last());
        let x = choose|x: S| folds(step, start, rest, x) && #[trigger] step(x, last, a);
        let y = choose|y: S| folds(step, start, rest, y) && #[trigger] step(y, last, b);
        folds_agree(step, start, rest, x, y);
    }
}

} // verus!
