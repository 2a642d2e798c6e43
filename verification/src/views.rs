//! The views of compound values, and facts about sequences.
use vstd::prelude::*;

verus! {

/// The views of a sequence of values.
pub open spec fn views<T: View>(items: Seq<T>) -> Seq<T::V> {
    items.map_values(|item: T| item@)
}

/// The view of an optional value.
pub open spec fn option_view<T: View>(value: Option<T>) -> Option<T::V> {
    match value {
        Some(inner) => Some(inner@),
        None => None,
    }
}

/// The view of a result.
pub open spec fn result_view<T: View, E: View>(value: Result<T, E>) -> Result<T::V, E::V> {
    match value {
        Ok(inner) => Ok(inner@),
        Err(error) => Err(error@),
    }
}

/// The view of a result that holds a list.
pub open spec fn list_result_view<T: View, E: View>(value: Result<Vec<T>, E>) -> Result<
    Seq<T::V>,
    E::V,
> {
    match value {
        Ok(items) => Ok(views(items@)),
        Err(error) => Err(error@),
    }
}

/// The views of a sequence that grew by one value.
pub proof fn views_push<T: View>(items: Seq<T>, item: T)
    ensures
        views(items.push(item)) == views(items).push(item@),
{
    assert(views(items.push(item)) =~= views(items).push(item@));
}

/// The views of a sequence in which one value changed.
pub proof fn views_update<T: View>(items: Seq<T>, at: int)
    requires
        0 <= at < items.len(),
    ensures
        forall|item: T| views(#[trigger] items.update(at, item)) == views(items).update(at, item@),
{
    assert forall|item: T| views(#[trigger] items.update(at, item)) == views(items).update(
        at,
        item@,
    ) by {
        assert(views(items.update(at, item)) =~= views(items).update(at, item@));
    }
}

/// A filter over one more item.
pub proof fn filter_step<T>(all: Seq<T>, keep: spec_fn(T) -> bool, i: int)
    requires
        0 <= i < all.len(),
    ensures
        all.take(i + 1).filter(keep) == if keep(all[i]) {
            all.take(i).filter(keep).push(all[i])
        } else {
            all.take(i).filter(keep)
        },
{
    reveal(Seq::filter);
    assert(all.take(i + 1).drop_last() == all.take(i));
}

/// What a filter keeps stands in what it returns.
pub proof fn filter_keeps<T>(all: Seq<T>, keep: spec_fn(T) -> bool, i: int)
    requires
        0 <= i < all.len(),
        keep(all[i]),
    ensures
        exists|at: int| 0 <= at < all.filter(keep).len() && all.filter(keep)[at] == all[i],
{
    broadcast use vstd::seq_lib::group_filter_ensures;

    assert(all.filter(keep).contains(all[i]));
}

/// Where the first item that passes `test` stands.
pub open spec fn position<T>(items: Seq<T>, test: spec_fn(T) -> bool) -> Option<int>
    decreases items.len(),
{
    if items.len() == 0 {
        None
    } else if test(items.first()) {
        Some(0)
    } else {
        match position(items.drop_first(), test) {
            Some(at) => Some(at + 1),
            None => None,
        }
    }
}

/// The item that passes where none before it does is the first.
pub proof fn position_is<T>(items: Seq<T>, test: spec_fn(T) -> bool, at: int)
    requires
        0 <= at < items.len(),
        test(items[at]),
        forall|i: int| 0 <= i < at ==> !test(#[trigger] items[i]),
    ensures
        position(items, test) == Some(at),
    decreases items.len(),
{
    if at > 0 {
        let rest = items.drop_first();
        assert(!test(items[0]));
        assert forall|i: int| 0 <= i < at - 1 implies !test(#[trigger] rest[i]) by {
            assert(!test(items[i + 1]));
        }
        position_is(rest, test, at - 1);
    }
}

/// Where no item passes, there is no first one.
pub proof fn position_is_none<T>(items: Seq<T>, test: spec_fn(T) -> bool)
    requires
        forall|i: int| 0 <= i < items.len() ==> !test(#[trigger] items[i]),
    ensures
        position(items, test) is None,
    decreases items.len(),
{
    if items.len() > 0 {
        let rest = items.drop_first();
        assert(!test(items[0]));
        assert forall|i: int| 0 <= i < rest.len() implies !test(#[trigger] rest[i]) by {
            assert(!test(items[i + 1]));
        }
        position_is_none(rest, test);
    }
}

/// What the first position tells of the items.
pub proof fn position_tells<T>(items: Seq<T>, test: spec_fn(T) -> bool)
    ensures
        match position(items, test) {
            Some(at) => 0 <= at < items.len() && test(items[at]) && forall|i: int|
                0 <= i < at ==> !test(#[trigger] items[i]),
            None => forall|i: int| 0 <= i < items.len() ==> !test(#[trigger] items[i]),
        },
    decreases items.len(),
{
    if items.len() > 0 && !test(items.first()) {
        let rest = items.drop_first();
        position_tells(rest, test);
        match position(rest, test) {
            Some(at) => {
                assert forall|i: int| 0 <= i < at + 1 implies !test(#[trigger] items[i]) by {
                    if i > 0 {
                        assert(!test(rest[i - 1]));
                    }
                }
            },
            None => {
                assert forall|i: int| 0 <= i < items.len() implies !test(#[trigger] items[i]) by {
                    if i > 0 {
                        assert(!test(rest[i - 1]));
                    }
                }
            },
        }
    }
}

} // verus!
