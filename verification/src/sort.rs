//! A merge sort over any type that carries a total preorder.

use std::collections::VecDeque;
use vstd::prelude::*;

verus! {

/// A type whose values are ranked by a total preorder.
pub trait Ranked: Sized {
    /// Whether `self` may stand before `other`.
    spec fn ranks_before(&self, other: &Self) -> bool;

    /// Of two values one may stand before the other.
    proof fn rank_total(a: &Self, b: &Self)
        ensures
            a.ranks_before(b) || b.ranks_before(a),
    ;

    /// The rank is transitive.
    proof fn rank_transitive(a: &Self, b: &Self, c: &Self)
        requires
            a.ranks_before(b),
            b.ranks_before(c),
        ensures
            a.ranks_before(c),
    ;

    /// Decides whether `self` may stand before `other`.
    fn may_precede(&self, other: &Self) -> (yes: bool)
        ensures
            yes == self.ranks_before(other),
    ;
}

/// Every item may stand before each item that follows it.
pub open spec fn is_ranked<T: Ranked>(items: Seq<T>) -> bool {
    forall|i: int, j: int|
        #![trigger items[i], items[j]]
        0 <= i < j < items.len() ==> items[i].ranks_before(&items[j])
}

/// The two items are of equal rank.
pub open spec fn are_peers<T: Ranked>(a: T, b: T) -> bool {
    a.ranks_before(&b) && b.ranks_before(&a)
}

/// The items of the same rank as `x`, in order.
pub open spec fn peers<T: Ranked>(items: Seq<T>, x: T) -> Seq<T>
    decreases items.len(),
{
    if items.len() == 0 {
        Seq::empty()
    } else {
        let before = peers(items.drop_last(), x);
        if are_peers(items.last(), x) {
            before.push(items.last())
        } else {
            before
        }
    }
}

/// `sorted` holds exactly the items of `items`, in rank order. Items of equal rank
/// keep their order.
pub open spec fn is_sorting_of<T: Ranked>(sorted: Seq<T>, items: Seq<T>) -> bool {
    &&& is_ranked(sorted)
    &&& sorted.to_multiset() == items.to_multiset()
    &&& forall|x: T| #[trigger] peers(sorted, x) == peers(items, x)
}

proof fn lemma_peers_concat<T: Ranked>(a: Seq<T>, b: Seq<T>, x: T)
    ensures
        peers(a + b, x) == peers(a, x) + peers(b, x),
    decreases b.len(),
{
    if b.len() == 0 {
        assert(a + b =~= a);
        assert(peers(a, x) + Seq::empty() =~= peers(a, x));
    } else {
        assert((a + b).drop_last() =~= a + b.drop_last());
        lemma_peers_concat(a, b.drop_last(), x);
        assert(peers(a + b, x) =~= peers(a, x) + peers(b, x));
    }
}

/// Items none of which is of the same rank as `x`.
proof fn lemma_no_peers<T: Ranked>(items: Seq<T>, x: T)
    requires
        forall|i: int| 0 <= i < items.len() ==> !are_peers(#[trigger] items[i], x),
    ensures
        peers(items, x).len() == 0,
    decreases items.len(),
{
    if items.len() > 0 {
        assert(!are_peers(items[items.len() - 1], x));
        let init = items.drop_last();
        assert forall|i: int| 0 <= i < init.len() implies !are_peers(#[trigger] init[i], x) by {
            assert(init[i] == items[i]);
        }
        lemma_no_peers(init, x);
    }
}

proof fn lemma_peers_of_three<T: Ranked>(a: Seq<T>, b: Seq<T>, c: Seq<T>, x: T)
    ensures
        peers(a + b + c, x) == peers(a, x) + peers(b, x) + peers(c, x),
{
    lemma_peers_concat(a + b, c, x);
    lemma_peers_concat(a, b, x);
}

proof fn lemma_multiset_concat<T>(a: Seq<T>, b: Seq<T>)
    ensures
        (a + b).to_multiset() == a.to_multiset().add(b.to_multiset()),
{
    vstd::seq_lib::lemma_multiset_commutative(a, b);
}

/// Ranked items stay ranked when an item is put behind them that each of them may
/// stand before.
proof fn lemma_ranked_append<T: Ranked>(done: Seq<T>, x: T)
    requires
        is_ranked(done),
        forall|i: int| 0 <= i < done.len() ==> (#[trigger] done[i]).ranks_before(&x),
    ensures
        is_ranked(done.push(x)),
{
}

fn merge<T: Ranked>(left: VecDeque<T>, right: VecDeque<T>) -> (merged: VecDeque<T>)
    requires
        is_ranked(left@),
        is_ranked(right@),
    ensures
        is_sorting_of(merged@, left@ + right@),
{
    let mut a = left;
    let mut b = right;
    let mut merged: VecDeque<T> = VecDeque::new();
    let ghost all = (left@ + right@).to_multiset();
    assert(merged@ + a@ + b@ =~= left@ + right@);
    while a.len() > 0 && b.len() > 0
        invariant
            is_ranked(a@),
            is_ranked(b@),
            is_ranked(merged@),
            forall|i: int, j: int|
                #![trigger merged@[i], a@[j]]
                0 <= i < merged@.len() && 0 <= j < a@.len() ==> merged@[i].ranks_before(&a@[j]),
            forall|i: int, j: int|
                #![trigger merged@[i], b@[j]]
                0 <= i < merged@.len() && 0 <= j < b@.len() ==> merged@[i].ranks_before(&b@[j]),
            (merged@ + a@ + b@).to_multiset() == all,
            forall|z: T| #[trigger] peers(merged@ + a@ + b@, z) == peers(left@ + right@, z),
        decreases a@.len() + b@.len(),
    {
        let ghost before = merged@;
        let ghost a0 = a@;
        let ghost b0 = b@;
        let from_left = a[0].may_precede(&b[0]);
        if from_left {
            let x = a.pop_front().unwrap();
            proof {
                assert forall|j: int|
                    #![trigger b0[j]]
                    0 <= j < b0.len() implies x.ranks_before(&b0[j]) by {
                    if j > 0 {
                        T::rank_transitive(&x, &b0[0], &b0[j]);
                    }
                }
                assert forall|j: int|
                    #![trigger a@[j]]
                    0 <= j < a@.len() implies x.ranks_before(&a@[j]) by {
                    assert(a@[j] == a0[j + 1]);
                }
                assert forall|i: int, j: int|
                    #![trigger before[i], a@[j]]
                    0 <= i < before.len() && 0 <= j < a@.len() implies before[i].ranks_before(
                    &a@[j],
                ) by {
                    assert(a@[j] == a0[j + 1]);
                }
                lemma_ranked_append(before, x);
                lemma_move_left(before, x, a@, b0);
                assert(a0 =~= seq![x] + a@);
                assert(before.push(x) + a@ + b0 =~= before + a0 + b0);
            }
            merged.push_back(x);
        } else {
            let x = b.pop_front().unwrap();
            proof {
                T::rank_total(&a0[0], &b0[0]);
                assert forall|j: int|
                    #![trigger a0[j]]
                    0 <= j < a0.len() implies x.ranks_before(&a0[j]) by {
                    if j > 0 {
                        T::rank_transitive(&x, &a0[0], &a0[j]);
                    }
                }
                assert forall|j: int|
                    #![trigger b@[j]]
                    0 <= j < b@.len() implies x.ranks_before(&b@[j]) by {
                    assert(b@[j] == b0[j + 1]);
                }
                assert forall|i: int, j: int|
                    #![trigger before[i], b@[j]]
                    0 <= i < before.len() && 0 <= j < b@.len() implies before[i].ranks_before(
                    &b@[j],
                ) by {
                    assert(b@[j] == b0[j + 1]);
                }
                lemma_ranked_append(before, x);
                lemma_move_right(before, x, a0, b@);
                assert(b0 =~= seq![x] + b@);
                assert forall|z: T| #[trigger]
                    peers(before.push(x) + a0 + b@, z) == peers(left@ + right@, z) by {
                    assert(peers(before + a0 + b0, z) == peers(left@ + right@, z));
                    assert forall|j: int| 0 <= j < a0.len() && are_peers(x, z) implies !are_peers(
                        #[trigger] a0[j],
                        z,
                    ) by {
                        if are_peers(a0[j], z) {
                            T::rank_transitive(&a0[j], &z, &x);
                            if j > 0 {
                                T::rank_transitive(&a0[0], &a0[j], &x);
                            }
                        }
                    }
                    lemma_peers_move(before, x, a0, b@, z);
                }
            }
            merged.push_back(x);
        }
    }
    let ghost before = merged@;
    let ghost rest_a = a@;
    let ghost rest_b = b@;
    merged.append(&mut a);
    merged.append(&mut b);
    assert(merged@ =~= before + rest_a + rest_b);
    merged
}

/// Moving an item to the front keeps the order of its peers where none of them stands
/// in between.
proof fn lemma_peers_move<T: Ranked>(done: Seq<T>, x: T, a: Seq<T>, b: Seq<T>, z: T)
    requires
        are_peers(x, z) ==> forall|j: int| 0 <= j < a.len() ==> !are_peers(#[trigger] a[j], z),
    ensures
        peers(done.push(x) + a + b, z) == peers(done + a + (seq![x] + b), z),
{
    lemma_peers_of_three(done.push(x), a, b, z);
    lemma_peers_of_three(done, a, seq![x] + b, z);
    lemma_peers_concat(seq![x], b, z);
    assert(done.push(x).drop_last() =~= done);
    assert(seq![x].drop_last() =~= Seq::empty());
    reveal_with_fuel(peers, 2);
    if are_peers(x, z) {
        lemma_no_peers(a, z);
        assert(peers(seq![x], z) =~= seq![x]);
    } else {
        assert(peers(seq![x], z) =~= Seq::empty());
    }
    assert(peers(done.push(x) + a + b, z) =~= peers(done + a + (seq![x] + b), z));
}

proof fn lemma_move_left<T>(done: Seq<T>, x: T, a: Seq<T>, b: Seq<T>)
    ensures
        (done.push(x) + a + b).to_multiset() == (done + (seq![x] + a) + b).to_multiset(),
{
    assert(done.push(x) + a + b =~= done + (seq![x] + a) + b);
}

proof fn lemma_move_right<T>(done: Seq<T>, x: T, a: Seq<T>, b: Seq<T>)
    ensures
        (done.push(x) + a + b).to_multiset() == (done + a + (seq![x] + b)).to_multiset(),
{
    lemma_multiset_concat(done.push(x) + a, b);
    lemma_multiset_concat(done.push(x), a);
    lemma_multiset_concat(done, seq![x]);
    assert(done.push(x) =~= done + seq![x]);
    lemma_multiset_concat(done + a, seq![x] + b);
    lemma_multiset_concat(done, a);
    lemma_multiset_concat(seq![x], b);
    assert((done.push(x) + a + b).to_multiset() =~= (done + a + (seq![x] + b)).to_multiset());
}

fn sort_deque<T: Ranked>(items: VecDeque<T>) -> (sorted: VecDeque<T>)
    ensures
        is_sorting_of(sorted@, items@),
    decreases items@.len(),
{
    let mut left = items;
    if left.len() < 2 {
        return left;
    }
    let middle = left.len() / 2;
    let right = left.split_off(middle);
    let ghost l = left@;
    let ghost r = right@;
    assert(l + r =~= items@);
    let sorted_left = sort_deque(left);
    let sorted_right = sort_deque(right);
    proof {
        lemma_multiset_concat(l, r);
        lemma_multiset_concat(sorted_left@, sorted_right@);
        assert forall|x: T| #[trigger]
            peers(sorted_left@ + sorted_right@, x) == peers(items@, x) by {
            lemma_peers_concat(sorted_left@, sorted_right@, x);
            lemma_peers_concat(l, r, x);
        }
    }
    merge(sorted_left, sorted_right)
}

/// Sorts the items by their rank. Items of equal rank keep their order.
pub fn sort_ranked<T: Ranked>(items: Vec<T>) -> (sorted: Vec<T>)
    ensures
        is_sorting_of(sorted@, items@),
{
    let mut queue: VecDeque<T> = VecDeque::new();
    let ghost all = items@;
    for item in it: items
        invariant
            it.seq() == all,
            queue@ == all.take(it.index() as int),
    {
        queue.push_back(item);
        assert(all.take(it.index() as int).push(item) =~= all.take(it.index() as int + 1));
    }
    assert(all.take(all.len() as int) =~= all);
    let mut rest = sort_deque(queue);
    let ghost ranked = rest@;
    let mut sorted: Vec<T> = Vec::new();
    while rest.len() > 0
        invariant
            sorted@ + rest@ == ranked,
        decreases rest@.len(),
    {
        let ghost tail = rest@;
        let item = rest.pop_front().unwrap();
        sorted.push(item);
        assert(sorted@ + rest@ =~= ranked) by {
            assert(tail =~= seq![item] + rest@);
        }
    }
    assert(sorted@ =~= ranked);
    sorted
}

/// The same items, each mapped, are the same mapped items.
pub proof fn lemma_multiset_map<T, U>(a: Seq<T>, b: Seq<T>, map: spec_fn(T) -> U)
    requires
        a.to_multiset() == b.to_multiset(),
    ensures
        a.map_values(map).to_multiset() == b.map_values(map).to_multiset(),
    decreases a.len(),
{
    broadcast use vstd::seq_lib::group_to_multiset_ensures;

    assert(a.len() == a.to_multiset().len());
    assert(b.len() == b.to_multiset().len());
    if a.len() == 0 {
        assert(a.map_values(map) =~= b.map_values(map));
    } else {
        let last = a.len() - 1;
        assert(a.to_multiset().count(a[last]) > 0);
        assert(b.contains(a[last]));
        let j = b.index_of(a[last]);
        assert(a.remove(last).to_multiset() == b.remove(j).to_multiset());
        lemma_multiset_map(a.remove(last), b.remove(j), map);
        let x = a.map_values(map);
        let y = b.map_values(map);
        assert(x.remove(last) =~= a.remove(last).map_values(map));
        assert(y.remove(j) =~= b.remove(j).map_values(map));
        assert(x[last] == y[j]);
        assert(x.to_multiset().count(x[last]) > 0);
        assert(y.to_multiset().count(y[j]) > 0);
        assert(x.to_multiset() =~= x.remove(last).to_multiset().insert(x[last]));
        assert(y.to_multiset() =~= y.remove(j).to_multiset().insert(y[j]));
    }
}

proof fn lemma_peer_is_an_item<T: Ranked>(items: Seq<T>, x: T, k: int)
    requires
        0 <= k < peers(items, x).len(),
    ensures
        exists|i: int|
            0 <= i < items.len() && #[trigger] items[i] == peers(items, x)[k] && are_peers(
                items[i],
                x,
            ),
    decreases items.len(),
{
    let before = peers(items.drop_last(), x);
    if k < before.len() {
        lemma_peer_is_an_item(items.drop_last(), x, k);
        let i = choose|i: int|
            0 <= i < items.len() - 1 && #[trigger] items.drop_last()[i] == before[k] && are_peers(
                items.drop_last()[i],
                x,
            );
        assert(items[i] == peers(items, x)[k]);
    } else {
        assert(items[items.len() - 1] == peers(items, x)[k]);
    }
}

/// What the rank of items says depends on what `view` shows of them alone.
pub open spec fn ranks_by<T: Ranked, V>(view: spec_fn(T) -> V) -> bool {
    forall|a: T, b: T, c: T, d: T|
        #![trigger a.ranks_before(&b), c.ranks_before(&d)]
        view(a) == view(c) && view(b) == view(d) ==> a.ranks_before(&b) == c.ranks_before(&d)
}

proof fn lemma_peers_by_view<T: Ranked, V>(
    a: Seq<T>,
    b: Seq<T>,
    view: spec_fn(T) -> V,
    x: T,
)
    requires
        ranks_by(view),
        a.map_values(view) == b.map_values(view),
    ensures
        peers(a, x).map_values(view) == peers(b, x).map_values(view),
    decreases a.len(),
{
    assert(a.map_values(view).len() == a.len() && b.map_values(view).len() == b.len());
    if a.len() > 0 {
        let last = a.len() - 1;
        assert(a.drop_last().map_values(view) =~= a.map_values(view).drop_last());
        assert(b.drop_last().map_values(view) =~= b.map_values(view).drop_last());
        lemma_peers_by_view(a.drop_last(), b.drop_last(), view, x);
        let p = a[last];
        let q = b[last];
        assert(a.map_values(view)[last] == view(p));
        assert(b.map_values(view)[last] == view(q));
        assert(p.ranks_before(&x) == q.ranks_before(&x));
        assert(x.ranks_before(&p) == x.ranks_before(&q));
        let before_a = peers(a.drop_last(), x);
        let before_b = peers(b.drop_last(), x);
        if are_peers(p, x) {
            assert(before_a.push(p).map_values(view) =~= before_a.map_values(view).push(view(p)));
            assert(before_b.push(q).map_values(view) =~= before_b.map_values(view).push(view(q)));
        }
    } else {
        assert(peers(a, x).map_values(view) =~= peers(b, x).map_values(view));
    }
}

/// The last item is the last of its peers.
proof fn lemma_last_peer<T: Ranked>(items: Seq<T>)
    requires
        items.len() > 0,
    ensures
        peers(items, items.last()).len() > 0,
        peers(items, items.last()).last() == items.last(),
{
    T::rank_total(&items.last(), &items.last());
}

proof fn lemma_ranked_by_peers<T: Ranked, V>(a: Seq<T>, b: Seq<T>, view: spec_fn(T) -> V)
    requires
        is_ranked(a),
        is_ranked(b),
        forall|x: T| #[trigger]
            peers(a, x).map_values(view) == peers(b, x).map_values(view),
    ensures
        a.map_values(view) == b.map_values(view),
    decreases a.len(),
{
    if a.len() == 0 || b.len() == 0 {
        if a.len() > 0 {
            lemma_last_peer(a);
            assert(peers(a, a.last()).map_values(view).len() == peers(b, a.last()).map_values(
                view,
            ).len());
        }
        if b.len() > 0 {
            lemma_last_peer(b);
            assert(peers(a, b.last()).map_values(view).len() == peers(b, b.last()).map_values(
                view,
            ).len());
        }
        assert(a.map_values(view) =~= b.map_values(view));
    } else {
        let x = a.last();
        let y = b.last();
        lemma_last_peer(a);
        lemma_last_peer(b);
        let of_x = peers(b, x);
        let of_y = peers(a, y);
        assert(peers(a, x).map_values(view).len() == of_x.map_values(view).len());
        assert(of_y.map_values(view).len() == peers(b, y).map_values(view).len());
        lemma_peer_is_an_item(b, x, of_x.len() - 1);
        lemma_peer_is_an_item(a, y, of_y.len() - 1);
        let i = choose|i: int|
            0 <= i < b.len() && #[trigger] b[i] == of_x[of_x.len() - 1] && are_peers(b[i], x);
        let j = choose|j: int|
            0 <= j < a.len() && #[trigger] a[j] == of_y[of_y.len() - 1] && are_peers(a[j], y);
        T::rank_total(&x, &x);
        T::rank_total(&y, &y);
        assert(b[i].ranks_before(&b[b.len() - 1]));
        assert(a[j].ranks_before(&a[a.len() - 1]));
        T::rank_transitive(&x, &b[i], &y);
        T::rank_transitive(&y, &a[j], &x);
        assert(are_peers(y, x));
        assert(of_x.last() == y);
        let shown_a = peers(a, x).map_values(view);
        let shown_b = of_x.map_values(view);
        assert(shown_a[shown_a.len() - 1] == view(x));
        assert(shown_b[shown_b.len() - 1] == view(y));
        let u = a.drop_last();
        let v = b.drop_last();
        assert forall|z: T| #[trigger]
            peers(u, z).map_values(view) == peers(v, z).map_values(view) by {
            assert(peers(a, z).map_values(view) == peers(b, z).map_values(view));
            if are_peers(x, z) {
                T::rank_transitive(&y, &x, &z);
                T::rank_transitive(&z, &x, &y);
                assert(peers(u, z).map_values(view) =~= peers(a, z).map_values(view).drop_last());
                assert(peers(v, z).map_values(view) =~= peers(b, z).map_values(view).drop_last());
            } else if are_peers(y, z) {
                T::rank_transitive(&x, &y, &z);
                T::rank_transitive(&z, &y, &x);
            }
        }
        assert(is_ranked(u)) by {
            assert forall|k: int, l: int|
                #![trigger u[k], u[l]]
                0 <= k < l < u.len() implies u[k].ranks_before(&u[l]) by {
                assert(u[k] == a[k] && u[l] == a[l]);
            }
        }
        assert(is_ranked(v)) by {
            assert forall|k: int, l: int|
                #![trigger v[k], v[l]]
                0 <= k < l < v.len() implies v[k].ranks_before(&v[l]) by {
                assert(v[k] == b[k] && v[l] == b[l]);
            }
        }
        lemma_ranked_by_peers(u, v, view);
        assert(a.map_values(view) =~= u.map_values(view).push(view(x)));
        assert(b.map_values(view) =~= v.map_values(view).push(view(y)));
    }
}

/// Sorting lists that look alike gives lists that look alike, where the rank depends on
/// what `view` shows of an item alone.
pub proof fn law_sorting_is_determined<T: Ranked, V>(
    sorted_a: Seq<T>,
    sorted_b: Seq<T>,
    items_a: Seq<T>,
    items_b: Seq<T>,
    view: spec_fn(T) -> V,
)
    requires
        ranks_by(view),
        is_sorting_of(sorted_a, items_a),
        is_sorting_of(sorted_b, items_b),
        items_a.map_values(view) == items_b.map_values(view),
    ensures
        sorted_a.map_values(view) == sorted_b.map_values(view),
{
    assert forall|x: T| #[trigger]
        peers(sorted_a, x).map_values(view) == peers(sorted_b, x).map_values(view) by {
        assert(peers(sorted_a, x) == peers(items_a, x));
        assert(peers(sorted_b, x) == peers(items_b, x));
        lemma_peers_by_view(items_a, items_b, view, x);
    }
    lemma_ranked_by_peers(sorted_a, sorted_b, view);
}

/// Says of an item whether it and `x` may stand in either order.
pub open spec fn of_equal_rank<T: Ranked>(x: T) -> spec_fn(T) -> bool {
    |y: T| y.ranks_before(&x) && x.ranks_before(&y)
}

proof fn lemma_peers_are_filtered<T: Ranked>(items: Seq<T>, x: T)
    ensures
        peers(items, x) == items.filter(of_equal_rank(x)),
    decreases items.len(),
{
    reveal(Seq::filter);
    if items.len() > 0 {
        lemma_peers_are_filtered(items.drop_last(), x);
    }
}

/// Sorting loses no item and makes up none. Of any two items in the outcome the
/// former may stand before the latter, and items of equal rank come in the order in
/// which they were given.
pub proof fn law_sorting_orders_what_it_is_given<T: Ranked>(items: Vec<T>, sorted: Vec<T>, x: T)
    requires
        call_ensures(sort_ranked::<T>, (items,), sorted),
    ensures
        sorted@.len() == items@.len(),
        sorted@.to_multiset() == items@.to_multiset(),
        forall|i: int, j: int|
            #![trigger sorted@[i], sorted@[j]]
            0 <= i < j < sorted@.len() ==> sorted@[i].ranks_before(&sorted@[j]),
        sorted@.filter(of_equal_rank(x)) == items@.filter(of_equal_rank(x)),
{
    vstd::seq_lib::to_multiset_len(sorted@);
    vstd::seq_lib::to_multiset_len(items@);
    lemma_peers_are_filtered(sorted@, x);
    lemma_peers_are_filtered(items@, x);
    assert(peers(sorted@, x) == peers(items@, x));
}

/// The same holds of what is said to be a sorting: it holds the given items in rank
/// order.
pub proof fn law_sorting_is_in_rank_order<T: Ranked>(items: Seq<T>, sorted: Seq<T>)
    requires
        is_sorting_of(sorted, items),
    ensures
        sorted.len() == items.len(),
        sorted.to_multiset() == items.to_multiset(),
        forall|i: int, j: int|
            #![trigger sorted[i], sorted[j]]
            0 <= i < j < sorted.len() ==> sorted[i].ranks_before(&sorted[j]),
        forall|i: int| 0 <= i < sorted.len() ==> items.contains(#[trigger] sorted[i]),
        forall|i: int| 0 <= i < items.len() ==> sorted.contains(#[trigger] items[i]),
{
    broadcast use vstd::seq_lib::group_to_multiset_ensures;

    vstd::seq_lib::to_multiset_len(sorted);
    vstd::seq_lib::to_multiset_len(items);
    assert forall|i: int| 0 <= i < sorted.len() implies items.contains(#[trigger] sorted[i]) by {
        assert(sorted.to_multiset().count(sorted[i]) > 0);
    }
    assert forall|i: int| 0 <= i < items.len() implies sorted.contains(#[trigger] items[i]) by {
        assert(items.to_multiset().count(items[i]) > 0);
    }
}

} // verus!
