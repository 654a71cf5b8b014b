//! Lists that leave something out of other lists: which positions they keep.

use vstd::prelude::*;

verus! {

/// `pos` are the positions below `n` that `chosen` picks, all of them, in order.
pub open spec fn picks(pos: Seq<int>, n: int, chosen: spec_fn(int) -> bool) -> bool {
    &&& forall|p: int, q: int| 0 <= p < q < pos.len() ==> #[trigger] pos[p] < #[trigger] pos[q]
    &&& forall|p: int| 0 <= p < pos.len() ==> 0 <= #[trigger] pos[p] < n && chosen(pos[p])
    &&& forall|j: int| 0 <= j < n && #[trigger] chosen(j) ==> pos.contains(j)
}

/// `list` holds what `show` makes of the positions below `n` that `chosen` picks: each of them once,
/// in order, and nothing else.
pub open spec fn shows<T>(list: Seq<T>, n: int, chosen: spec_fn(int) -> bool, show: spec_fn(int) -> T) -> bool {
    exists|pos: Seq<int>|
        #[trigger] picks(pos, n, chosen) && pos.len() == list.len() && forall|p: int|
            0 <= p < pos.len() ==> #[trigger] list[p] == show(pos[p])
}

pub proof fn lemma_shows_none<T>(list: Seq<T>, chosen: spec_fn(int) -> bool, show: spec_fn(int) -> T)
    requires
        list.len() == 0,
    ensures
        shows(list, 0, chosen, show),
{
    assert(picks(Seq::<int>::empty(), 0, chosen));
}

/// A list with one position more.
pub proof fn lemma_shows_next<T>(
    before: Seq<T>,
    list: Seq<T>,
    n: int,
    chosen: spec_fn(int) -> bool,
    show: spec_fn(int) -> T,
)
    requires
        n >= 0,
        shows(before, n, chosen, show),
        list == if chosen(n) {
            before.push(show(n))
        } else {
            before
        },
    ensures
        shows(list, n + 1, chosen, show),
{
    let pos = choose|pos: Seq<int>|
        #[trigger] picks(pos, n, chosen) && pos.len() == before.len() && forall|p: int|
            0 <= p < pos.len() ==> #[trigger] before[p] == show(pos[p]);
    let next = if chosen(n) {
        pos.push(n)
    } else {
        pos
    };
    assert forall|j: int| 0 <= j < n + 1 && #[trigger] chosen(j) implies next.contains(j) by {
        if j < n {
            assert(pos.contains(j));
            let p = choose|p: int| 0 <= p < pos.len() && pos[p] == j;
            assert(next[p] == j);
        } else {
            assert(next[pos.len() as int] == j);
        }
    }
    assert(picks(next, n + 1, chosen));
}

/// What a position that is picked shows is in the list.
pub proof fn lemma_shown<T>(list: Seq<T>, n: int, chosen: spec_fn(int) -> bool, show: spec_fn(int) -> T, j: int)
    requires
        shows(list, n, chosen, show),
        0 <= j < n,
        chosen(j),
    ensures
        list.contains(show(j)),
{
    let pos = choose|pos: Seq<int>|
        #[trigger] picks(pos, n, chosen) && pos.len() == list.len() && forall|p: int|
            0 <= p < pos.len() ==> #[trigger] list[p] == show(pos[p]);
    let p = choose|p: int| 0 <= p < pos.len() && pos[p] == j;
    assert(list[p] == show(j));
}

/// Whatever is in the list is shown of a position that is picked.
pub proof fn lemma_shown_only<T>(list: Seq<T>, n: int, chosen: spec_fn(int) -> bool, show: spec_fn(int) -> T, x: T)
    requires
        shows(list, n, chosen, show),
        list.contains(x),
    ensures
        exists|j: int| 0 <= j < n && #[trigger] chosen(j) && show(j) == x,
{
    let pos = choose|pos: Seq<int>|
        #[trigger] picks(pos, n, chosen) && pos.len() == list.len() && forall|p: int|
            0 <= p < pos.len() ==> #[trigger] list[p] == show(pos[p]);
    let p = choose|p: int| 0 <= p < list.len() && list[p] == x;
    assert(chosen(pos[p]) && show(pos[p]) == x);
}

} // verus!
