//! Facts about lists that the laws share.
use vstd::prelude::*;

use crate::text;

verus! {

/// What is picked from two lists put together is what is picked from each.
pub proof fn lemma_filter_map_add<A, B>(a: Seq<A>, b: Seq<A>, pick: spec_fn(A) -> Option<B>)
    ensures
        (a + b).filter_map(pick) == a.filter_map(pick) + b.filter_map(pick),
    decreases b.len(),
{
    if b.len() == 0 {
        assert(a + b =~= a);
        assert(b.filter_map(pick) =~= Seq::empty());
        assert((a + b).filter_map(pick) =~= a.filter_map(pick) + b.filter_map(pick));
    } else {
        let n = b.len() - 1;
        let whole = a + b;
        lemma_filter_map_add(a, b.take(n), pick);
        assert(whole.take(a.len() + n) =~= a + b.take(n));
        whole.lemma_filter_map_take_succ(pick, a.len() + n);
        b.lemma_filter_map_take_succ(pick, n);
        assert(whole.take(a.len() + n + 1) =~= whole);
        assert(b.take(n + 1) =~= b);
        assert((a + b).filter_map(pick) =~= a.filter_map(pick) + b.filter_map(pick));
    }
}

/// What is picked from one item.
pub proof fn lemma_filter_map_one<A, B>(item: A, pick: spec_fn(A) -> Option<B>)
    ensures
        seq![item].filter_map(pick) == (match pick(item) {
            Some(given) => seq![given],
            None => Seq::<B>::empty(),
        }),
{
    Seq::lemma_filter_map_singleton(item, pick);
}

/// What stands in several lists put together stands in one of them.
pub proof fn lemma_flatten_from<A>(lists: Seq<Seq<A>>, item: A)
    requires
        lists.flatten().contains(item),
    ensures
        exists|i: int| 0 <= i < lists.len() && (#[trigger] lists[i]).contains(item),
    decreases lists.len(),
{
    if lists.len() == 0 {
        assert(lists.flatten() =~= Seq::empty());
    } else {
        let rest = lists.drop_last();
        rest.lemma_flatten_push(lists.last());
        assert(rest.push(lists.last()) =~= lists);
        text::lemma_add_contains(rest.flatten(), lists.last(), item);
        if rest.flatten().contains(item) {
            lemma_flatten_from(rest, item);
            let i = choose|i: int| 0 <= i < rest.len() && (#[trigger] rest[i]).contains(item);
            assert(lists[i].contains(item));
        } else {
            assert(lists[lists.len() - 1].contains(item));
        }
    }
}

} // verus!
