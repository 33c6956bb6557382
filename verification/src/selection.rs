//! Choosing from a list without changing the order.

use vstd::prelude::*;

verus! {

/// What is kept of a list is the entries that are to be kept, all of them, as often and in
/// the order in which the list has them: there are places in the list, going up, that are
/// exactly those of the entries to keep, and what is kept stands at them.
pub proof fn kept_in_order<A>(list: Seq<A>, keep: spec_fn(A) -> bool) -> (places: Seq<int>)
    ensures
        places.len() == list.filter(keep).len(),
        forall|a: int|
            0 <= a < places.len() ==> 0 <= #[trigger] places[a] < list.len() && keep(
                list[places[a]],
            ) && list.filter(keep)[a] == list[places[a]],
        forall|a: int, b: int| 0 <= a < b < places.len() ==> places[a] < places[b],
        forall|i: int| 0 <= i < list.len() && keep(#[trigger] list[i]) ==> places.contains(i),
    decreases list.len(),
{
    reveal(Seq::filter);
    if list.len() == 0 {
        Seq::empty()
    } else {
        let fewer = list.drop_last();
        let some = kept_in_order(fewer, keep);
        let last = list.len() - 1;
        assert forall|i: int| 0 <= i < last && keep(#[trigger] list[i]) implies some.contains(
            i,
        ) by {
            assert(fewer[i] == list[i]);
        }
        if keep(list.last()) {
            let places = some.push(last);
            assert forall|i: int| 0 <= i < list.len() && keep(
                #[trigger] list[i],
            ) implies places.contains(i) by {
                if i < last {
                    let a = choose|a: int| 0 <= a < some.len() && some[a] == i;
                    assert(places[a] == i);
                } else {
                    assert(places[some.len() as int] == i);
                }
            }
            places
        } else {
            some
        }
    }
}

} // verus!
