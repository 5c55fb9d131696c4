//! Lists, and what is left of them.

use vstd::prelude::*;

verus! {

/// What is left of a list are those of its items that pass, and no others.
pub proof fn filtered_has<T>(list: Seq<T>, pass: spec_fn(T) -> bool, item: T)
    ensures
        list.filter(pass).contains(item) <==> list.contains(item) && pass(item),
        list.filter(pass).len() <= list.len(),
    decreases list.len(),
{
    reveal(Seq::filter);
    if list.len() > 0 {
        let front = list.drop_last();
        filtered_has(front, pass, item);
        let some = front.filter(pass);
        let all = list.filter(pass);
        if all.contains(item) {
            let k = choose|k: int| 0 <= k < all.len() && all[k] == item;
            if k < some.len() {
                assert(some[k] == item);
                let i = choose|i: int| 0 <= i < front.len() && front[i] == item;
                assert(list[i] == item);
            } else {
                assert(list[list.len() - 1] == item);
            }
        }
        if list.contains(item) && pass(item) {
            let i = choose|i: int| 0 <= i < list.len() && list[i] == item;
            if i < list.len() - 1 {
                assert(front[i] == item);
                let k = choose|k: int| 0 <= k < some.len() && some[k] == item;
                assert(all[k] == item);
            } else {
                assert(all[all.len() - 1] == item);
            }
        }
    }
}

/// Where every item passes the list is left as it is.
pub proof fn kept_in_order<T>(list: Seq<T>, pass: spec_fn(T) -> bool)
    requires
        forall|i: int| 0 <= i < list.len() ==> pass(#[trigger] list[i]),
    ensures
        list.filter(pass) == list,
    decreases list.len(),
{
    reveal(Seq::filter);
    if list.len() > 0 {
        let front = list.drop_last();
        assert forall|i: int| 0 <= i < front.len() implies pass(#[trigger] front[i]) by {
            assert(front[i] == list[i]);
        }
        kept_in_order(front, pass);
        assert(pass(list[list.len() - 1]));
        assert(list.filter(pass) =~= list);
    } else {
        assert(list.filter(pass) =~= list);
    }
}

} // verus!
