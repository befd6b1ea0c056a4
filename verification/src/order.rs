//! Items put in the order of their ranks.
use vstd::prelude::*;
use vstd::seq_lib::*;

verus! {

/// The position behind all items whose rank is at most `rank`, in a sequence in order.
pub open spec fn place<T>(sorted: Seq<(u64, T)>, rank: u64) -> int
    decreases sorted.len(),
{
    if sorted.len() == 0 || sorted.last().0 <= rank {
        sorted.len() as int
    } else {
        place(sorted.drop_last(), rank)
    }
}

/// The items in the order of their ranks; items of one rank in the order in which they came.
pub open spec fn in_order<T>(items: Seq<(u64, T)>) -> Seq<(u64, T)>
    decreases items.len(),
{
    if items.len() == 0 {
        Seq::empty()
    } else {
        let head = in_order(items.drop_last());
        head.insert(place(head, items.last().0), items.last())
    }
}

/// The ranks never fall.
pub open spec fn ranks_ascend<T>(items: Seq<(u64, T)>) -> bool {
    forall|i: int, j: int| 0 <= i <= j < items.len() ==> #[trigger] items[i].0 <= #[trigger] items[j].0
}

pub proof fn lemma_place<T>(sorted: Seq<(u64, T)>, rank: u64)
    requires
        ranks_ascend(sorted),
    ensures
        0 <= place(sorted, rank) <= sorted.len(),
        forall|i: int| 0 <= i < place(sorted, rank) ==> #[trigger] sorted[i].0 <= rank,
        forall|i: int| place(sorted, rank) <= i < sorted.len() ==> #[trigger] sorted[i].0 > rank,
    decreases sorted.len(),
{
    if sorted.len() > 0 && sorted.last().0 > rank {
        lemma_place(sorted.drop_last(), rank);
        assert forall|i: int| place(sorted, rank) <= i < sorted.len() implies #[trigger] sorted[i].0
            > rank by {
            if i < sorted.len() - 1 {
                assert(sorted.drop_last()[i] == sorted[i]);
            }
        }
        assert forall|i: int| 0 <= i < place(sorted, rank) implies #[trigger] sorted[i].0
            <= rank by {
            assert(sorted.drop_last()[i] == sorted[i]);
        }
    } else if sorted.len() > 0 {
        assert forall|i: int| 0 <= i < sorted.len() implies #[trigger] sorted[i].0 <= rank by {
            assert(sorted[i].0 <= sorted[sorted.len() - 1].0);
        }
    }
}

/// Putting items in order makes their ranks ascend and neither adds nor loses an item.
pub proof fn law_in_order_sorts<T>(items: Seq<(u64, T)>)
    ensures
        ranks_ascend(in_order(items)),
        in_order(items).len() == items.len(),
        in_order(items).to_multiset() == items.to_multiset(),
    decreases items.len(),
{
    if items.len() == 0 {
        assert(in_order(items) =~= items);
    } else {
        let rest = items.drop_last();
        let head = in_order(rest);
        law_in_order_sorts(rest);
        lemma_place(head, items.last().0);
        let at = place(head, items.last().0);
        broadcast use group_to_multiset_ensures;

        to_multiset_insert(head, at, items.last());
        assert(items =~= rest.push(items.last()));
    }
}

/// Puts one more item in its place.
pub fn insert_in_order<T>(sorted: &mut Vec<(u64, T)>, rank: u64, item: T)
    requires
        ranks_ascend(old(sorted)@),
    ensures
        final(sorted)@ == old(sorted)@.insert(place(old(sorted)@, rank), (rank, item)),
{
    let mut at: usize = sorted.len();
    proof {
        assert(sorted@.take(at as int) =~= sorted@);
    }
    while at > 0 && sorted[at - 1].0 > rank
        invariant
            at <= sorted.len(),
            sorted@ == old(sorted)@,
            place(sorted@, rank) == place(sorted@.take(at as int), rank),
        decreases at,
    {
        proof {
            assert(sorted@.take(at as int).last() == sorted@[at - 1]);
            assert(sorted@.take(at as int).drop_last() =~= sorted@.take(at - 1));
        }
        at = at - 1;
    }
    proof {
        if at > 0 {
            assert(sorted@.take(at as int).last() == sorted@[at - 1]);
        }
        assert(place(sorted@, rank) == at);
    }
    sorted.insert(at, (rank, item));
}

/// Items of one rank keep the order in which they came, so that the order of all is determined.
pub proof fn law_equal_ranks_keep_their_order<T>(items: Seq<(u64, T)>, rank: u64)
    ensures
        in_order(items).filter(|p: (u64, T)| p.0 == rank) == items.filter(
            |p: (u64, T)| p.0 == rank,
        ),
    decreases items.len(),
{
    reveal(Seq::filter);
    let of_rank = |p: (u64, T)| p.0 == rank;
    if items.len() > 0 {
        let item = items.last();
        let head = in_order(items.drop_last());
        law_in_order_sorts(items.drop_last());
        law_equal_ranks_keep_their_order(items.drop_last(), rank);
        lemma_place(head, item.0);
        let at = place(head, item.0);
        let front = head.take(at);
        let back = head.skip(at);
        assert(head =~= front + back);
        assert(head.insert(at, item) =~= front.push(item) + back);
        Seq::filter_distributes_over_add(front, back, of_rank);
        Seq::filter_distributes_over_add(front.push(item), back, of_rank);
        assert(front.push(item).drop_last() =~= front);
        if item.0 == rank {
            assert forall|i: int| 0 <= i < back.len() implies !of_rank(#[trigger] back[i]) by {
                assert(head[at + i].0 > rank);
            }
            lemma_filter_none(back, of_rank);
            assert(front.filter(of_rank) + back.filter(of_rank) =~= front.filter(of_rank));
        }
    }
}

/// Where nothing is kept a filter leaves nothing.
pub proof fn lemma_filter_none<T>(s: Seq<T>, keep: spec_fn(T) -> bool)
    requires
        forall|i: int| 0 <= i < s.len() ==> !keep(#[trigger] s[i]),
    ensures
        s.filter(keep) == Seq::<T>::empty(),
    decreases s.len(),
{
    reveal(Seq::filter);
    if s.len() > 0 {
        assert(!keep(s[s.len() - 1]));
        assert forall|i: int| 0 <= i < s.drop_last().len() implies !keep(
            #[trigger] s.drop_last()[i],
        ) by {
            assert(s.drop_last()[i] == s[i]);
        }
        lemma_filter_none(s.drop_last(), keep);
    }
}

} // verus!
