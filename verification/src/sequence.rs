//! Item-by-item conversion of a sequence that stops at the first failure.

use vstd::prelude::*;

verus! {

/// The results of `each` on the items of `items`, in order, or the error of
/// the first item on which `each` fails.
pub open spec fn all_or_first_error<A, B, E>(
    items: Seq<A>,
    each: spec_fn(A) -> Result<B, E>,
) -> Result<Seq<B>, E>
    decreases items.len(),
{
    if items.len() == 0 {
        Ok(Seq::empty())
    } else {
        match each(items[0]) {
            Err(e) => Err(e),
            Ok(first) => match all_or_first_error(items.drop_first(), each) {
                Err(e) => Err(e),
                Ok(rest) => Ok(seq![first] + rest),
            },
        }
    }
}

/// `done` with the outcome for the remaining items behind it.
pub open spec fn followed_by<B, E>(done: Seq<B>, rest: Result<Seq<B>, E>) -> Result<Seq<B>, E> {
    match rest {
        Err(e) => Err(e),
        Ok(rest) => Ok(done + rest),
    }
}

/// Before the first item nothing is done.
pub proof fn lemma_conversion_starts<A, B, E>(items: Seq<A>, each: spec_fn(A) -> Result<B, E>)
    ensures
        followed_by(Seq::<B>::empty(), all_or_first_error(items.skip(0), each))
            == all_or_first_error(items, each),
{
    assert(items.skip(0) == items);
    match all_or_first_error(items, each) {
        Ok(rest) => {
            assert(Seq::<B>::empty() + rest == rest);
        },
        Err(_) => {},
    }
}

/// One step: the item at `i` fails and so does the whole, or its result joins
/// what is done.
pub proof fn lemma_conversion_step<A, B, E>(
    items: Seq<A>,
    each: spec_fn(A) -> Result<B, E>,
    done: Seq<B>,
    i: int,
)
    requires
        0 <= i < items.len(),
    ensures
        followed_by(done, all_or_first_error(items.skip(i), each)) == match each(items[i]) {
            Err(e) => Err(e),
            Ok(result) => followed_by(
                done.push(result),
                all_or_first_error(items.skip(i + 1), each),
            ),
        },
{
    assert(items.skip(i)[0] == items[i]);
    assert(items.skip(i).drop_first() == items.skip(i + 1));
    match each(items[i]) {
        Err(_) => {},
        Ok(result) => match all_or_first_error(items.skip(i + 1), each) {
            Err(_) => {},
            Ok(rest) => {
                assert(done + (seq![result] + rest) == done.push(result) + rest);
            },
        },
    }
}

/// After the last item what is done is the result.
pub proof fn lemma_conversion_ends<A, B, E>(
    items: Seq<A>,
    each: spec_fn(A) -> Result<B, E>,
    done: Seq<B>,
)
    ensures
        followed_by(done, all_or_first_error(items.skip(items.len() as int), each)) == Ok::<
            Seq<B>,
            E,
        >(done),
{
    assert(items.skip(items.len() as int).len() == 0);
    assert(done + Seq::<B>::empty() == done);
}

/// Where every item converts, the result has one entry per item: the item's
/// own result. Where one fails, the error is that of the first that does.
pub proof fn lemma_conversion_by_item<A, B, E>(items: Seq<A>, each: spec_fn(A) -> Result<B, E>)
    ensures
        match all_or_first_error(items, each) {
            Ok(results) => results.len() == items.len() && forall|i: int|
                0 <= i < items.len() ==> each(#[trigger] items[i]) == Ok::<B, E>(results[i]),
            Err(e) => exists|i: int|
                0 <= i < items.len() && each(#[trigger] items[i]) == Err::<B, E>(e) && forall|k: int|
                    0 <= k < i ==> each(#[trigger] items[k]) is Ok,
        },
    decreases items.len(),
{
    if items.len() > 0 {
        let tail = items.drop_first();
        lemma_conversion_by_item(tail, each);
        match each(items[0]) {
            Err(e) => {
                assert(each(items[0]) == Err::<B, E>(e));
            },
            Ok(first) => match all_or_first_error(tail, each) {
                Err(e) => {
                    let i = choose|i: int|
                        0 <= i < tail.len() && each(#[trigger] tail[i]) == Err::<B, E>(e) && forall|
                            k: int,
                        |
                            0 <= k < i ==> each(#[trigger] tail[k]) is Ok;
                    assert(items[i + 1] == tail[i]);
                    assert forall|k: int| 0 <= k < i + 1 implies each(#[trigger] items[k]) is Ok by {
                        if k > 0 {
                            assert(items[k] == tail[k - 1]);
                        }
                    }
                },
                Ok(rest) => {
                    let results = seq![first] + rest;
                    assert forall|i: int| 0 <= i < items.len() implies each(#[trigger] items[i])
                        == Ok::<B, E>(results[i]) by {
                        if i > 0 {
                            assert(items[i] == tail[i - 1]);
                            assert(results[i] == rest[i - 1]);
                        }
                    }
                },
            },
        }
    }
}

} // verus!
