//! Ranking a run of levels best first.
//!
//! The ranking of a run is the run rearranged so that no level is outranked by
//! a later one, with equally good levels left in the order in which they came.

use vstd::prelude::*;
use vstd::seq_lib::*;
use crate::orderbook::{is_ranked, outranks, ties, views, Level, LevelView, Side};
use crate::total_order::{key_of, lemma_order_key_injective};

verus! {

/// The index at which `level` goes into `levels`: behind the last level that it
/// does not outrank.
pub open spec fn place_index(side: Side, levels: Seq<LevelView>, level: LevelView) -> int
    decreases levels.len(),
{
    if levels.len() > 0 && outranks(side, level, levels.last()) {
        place_index(side, levels.drop_last(), level)
    } else {
        levels.len() as int
    }
}

/// `levels` with `level` put in behind the last level that it does not outrank.
pub open spec fn placed(side: Side, levels: Seq<LevelView>, level: LevelView) -> Seq<LevelView> {
    levels.insert(place_index(side, levels, level), level)
}

/// `levels` ranked best first for `side`; equally good levels keep the order
/// that they have in `levels`.
pub open spec fn ranking(side: Side, levels: Seq<LevelView>) -> Seq<LevelView>
    decreases levels.len(),
{
    if levels.len() == 0 {
        levels
    } else {
        placed(side, ranking(side, levels.drop_last()), levels.last())
    }
}

/// The first `depth` items of `items`, or all of them where there are fewer.
pub open spec fn top<T>(items: Seq<T>, depth: int) -> Seq<T> {
    if items.len() <= depth {
        items
    } else {
        items.take(depth)
    }
}

/// The place index splits `levels` in two: `level` outranks every level from the
/// index on, and does not outrank the one just before it.
pub proof fn lemma_place_index(side: Side, levels: Seq<LevelView>, level: LevelView)
    ensures
        0 <= place_index(side, levels, level) <= levels.len(),
        forall|k: int|
            place_index(side, levels, level) <= k < levels.len() ==> outranks(
                side,
                level,
                #[trigger] levels[k],
            ),
        place_index(side, levels, level) > 0 ==> !outranks(
            side,
            level,
            levels[place_index(side, levels, level) - 1],
        ),
    decreases levels.len(),
{
    if levels.len() > 0 && outranks(side, level, levels.last()) {
        let front = levels.drop_last();
        lemma_place_index(side, front, level);
        assert forall|k: int| place_index(side, levels, level) <= k < levels.len() implies outranks(
            side,
            level,
            #[trigger] levels[k],
        ) by {
            if k < front.len() {
                assert(levels[k] == front[k]);
            }
        }
    }
}

/// The split of [`lemma_place_index`] is met by one index only.
pub proof fn lemma_place_index_unique(
    side: Side,
    levels: Seq<LevelView>,
    level: LevelView,
    index: int,
)
    requires
        0 <= index <= levels.len(),
        forall|k: int| index <= k < levels.len() ==> outranks(side, level, #[trigger] levels[k]),
        index > 0 ==> !outranks(side, level, levels[index - 1]),
    ensures
        place_index(side, levels, level) == index,
    decreases levels.len(),
{
    if index < levels.len() {
        assert(outranks(side, level, levels[levels.len() - 1]));
        lemma_place_index_unique(side, levels.drop_last(), level, index);
    }
}

/// Putting a level into a ranked run leaves the run ranked.
pub proof fn lemma_placed_is_ranked(side: Side, levels: Seq<LevelView>, level: LevelView)
    requires
        is_ranked(side, levels),
    ensures
        is_ranked(side, placed(side, levels, level)),
{
    lemma_place_index(side, levels, level);
    let index = place_index(side, levels, level);
    let after = placed(side, levels, level);
    assert forall|i: int, j: int| 0 <= i < j < after.len() implies !outranks(
        side,
        after[j],
        after[i],
    ) by {
        if j == index {
            // after[j] is the new level and after[i] an old one before the index
            assert(after[i] == levels[i]);
            if i < index - 1 {
                assert(!outranks(side, levels[index - 1], levels[i]));
            }
        } else if i == index {
            // after[i] is the new level, which outranks the old after[j]
            assert(after[j] == levels[j - 1]);
            assert(outranks(side, level, levels[j - 1]));
        } else {
            let old_i = if i < index { i } else { i - 1 };
            let old_j = if j < index { j } else { j - 1 };
            assert(after[i] == levels[old_i]);
            assert(after[j] == levels[old_j]);
            assert(old_i < old_j);
        }
    }
}

/// Sort order: the ranking of any run is ranked.
pub proof fn lemma_ranking_is_ranked(side: Side, levels: Seq<LevelView>)
    ensures
        is_ranked(side, ranking(side, levels)),
    decreases levels.len(),
{
    if levels.len() > 0 {
        lemma_ranking_is_ranked(side, levels.drop_last());
        lemma_placed_is_ranked(side, ranking(side, levels.drop_last()), levels.last());
    }
}

/// The ranking of a run holds the levels of the run, each as often as the run
/// does, and so is as long as the run.
pub proof fn lemma_ranking_is_permutation(side: Side, levels: Seq<LevelView>)
    ensures
        ranking(side, levels).to_multiset() == levels.to_multiset(),
        ranking(side, levels).len() == levels.len(),
    decreases levels.len(),
{
    broadcast use group_to_multiset_ensures;

    if levels.len() > 0 {
        let front = levels.drop_last();
        let ranked_front = ranking(side, front);
        lemma_ranking_is_permutation(side, front);
        lemma_place_index(side, ranked_front, levels.last());
        to_multiset_insert(ranked_front, place_index(side, ranked_front, levels.last()), levels.last());
        assert(levels =~= front.push(levels.last()));
        assert(ranking(side, levels).to_multiset() =~= levels.to_multiset());
    } else {
        assert(ranking(side, levels) =~= levels);
    }
}

/// Of the levels of `levels`, those that are as good as `peer`, in order.
pub open spec fn peers(levels: Seq<LevelView>, peer: LevelView) -> Seq<LevelView> {
    levels.filter(|level: LevelView| ties(level, peer))
}

/// Stability: ranking does not reorder equally good levels. The levels that are
/// as good as any given one stand in the ranking in the order in which they
/// stand in the run.
pub proof fn lemma_ranking_is_stable(side: Side, levels: Seq<LevelView>, peer: LevelView)
    ensures
        peers(ranking(side, levels), peer) == peers(levels, peer),
    decreases levels.len(),
{
    if levels.len() > 0 {
        let same = |level: LevelView| ties(level, peer);
        let front = levels.drop_last();
        let last = levels.last();
        let ranked_front = ranking(side, front);
        let index = place_index(side, ranked_front, last);
        lemma_ranking_is_stable(side, front, peer);
        lemma_place_index(side, ranked_front, last);

        let head = ranked_front.take(index);
        let tail = ranked_front.skip(index);
        assert(ranked_front =~= head + tail);
        assert(ranking(side, levels) =~= head.push(last) + tail);
        assert(levels =~= front.push(last));
        Seq::filter_distributes_over_add(head, tail, same);
        Seq::filter_distributes_over_add(head.push(last), tail, same);
        head.lemma_filter_push(last, same);
        front.lemma_filter_push(last, same);
        if same(last) {
            // the new level outranks the whole tail, so nothing there ties with it
            assert forall|k: int| 0 <= k < tail.len() implies !same(#[trigger] tail[k]) by {
                assert(tail[k] == ranked_front[index + k]);
                assert(outranks(side, last, ranked_front[index + k]));
            }
            tail.lemma_all_neg_filter_empty(same);
            assert(tail.filter(same) =~= Seq::empty());
            assert(head.filter(same) + tail.filter(same) =~= head.filter(same));
            assert(head.push(last).filter(same) + tail.filter(same) =~= head.filter(same).push(
                last,
            ));
        }
    }
}

/// Two ranked runs that hold, for every level, the same levels as good as it in
/// the same order are one and the same run.
pub proof fn lemma_ranked_runs_with_equal_peers(side: Side, a: Seq<LevelView>, b: Seq<LevelView>)
    requires
        is_ranked(side, a),
        is_ranked(side, b),
        forall|peer: LevelView| peers(a, peer) == peers(b, peer),
    ensures
        a == b,
    decreases a.len(),
{
    if a.len() == 0 {
        if b.len() > 0 {
            let same = |level: LevelView| ties(level, b[0]);
            b.lemma_filter_contains(same, 0);
            a.lemma_filter_len(same);
            assert(peers(a, b[0]) == peers(b, b[0]));
        }
        assert(a =~= b);
    } else {
        let x = a.last();
        let like_x = |level: LevelView| ties(level, x);
        let front_a = a.drop_last();
        assert(a =~= front_a.push(x));
        front_a.lemma_filter_push(x, like_x);
        assert(peers(a, x) == peers(b, x));
        assert(peers(a, x).last() == x);
        b.lemma_filter_len(like_x);
        assert(b.len() > 0);

        let y = b.last();
        let like_y = |level: LevelView| ties(level, y);
        let front_b = b.drop_last();
        assert(b =~= front_b.push(y));
        front_b.lemma_filter_push(y, like_y);
        assert(peers(a, y) == peers(b, y));
        assert(peers(b, y).last() == y);

        // x stands somewhere in b and y somewhere in a, so neither outranks the other
        assert(peers(b, x).contains(x)) by {
            assert(peers(b, x)[peers(b, x).len() - 1] == x);
        }
        b.lemma_filter_contains_rev(like_x, x);
        let j = choose|j: int| 0 <= j < b.len() && b[j] == x;
        assert(!outranks(side, y, x)) by {
            if j < b.len() - 1 {
                assert(!outranks(side, b[b.len() - 1], b[j]));
            }
        }
        assert(peers(a, y).contains(y)) by {
            assert(peers(a, y)[peers(a, y).len() - 1] == y);
        }
        a.lemma_filter_contains_rev(like_y, y);
        let i = choose|i: int| 0 <= i < a.len() && a[i] == y;
        assert(!outranks(side, x, y)) by {
            if i < a.len() - 1 {
                assert(!outranks(side, a[a.len() - 1], a[i]));
            }
        }
        lemma_order_key_injective(x.price, y.price);
        lemma_order_key_injective(x.amount, y.amount);
        assert(ties(x, y));

        // so they have the same peers, of which each is the last: they are one level
        assert(like_x =~= like_y);
        assert(peers(b, x) == peers(b, y));
        assert(x == y);

        assert(is_ranked(side, front_a)) by {
            assert forall|i: int, j: int| 0 <= i < j < front_a.len() implies !outranks(
                side,
                front_a[j],
                front_a[i],
            ) by {
                assert(front_a[i] == a[i] && front_a[j] == a[j]);
            }
        }
        assert(is_ranked(side, front_b)) by {
            assert forall|i: int, j: int| 0 <= i < j < front_b.len() implies !outranks(
                side,
                front_b[j],
                front_b[i],
            ) by {
                assert(front_b[i] == b[i] && front_b[j] == b[j]);
            }
        }
        assert forall|peer: LevelView| peers(front_a, peer) == peers(front_b, peer) by {
            let same = |level: LevelView| ties(level, peer);
            front_a.lemma_filter_push(x, same);
            front_b.lemma_filter_push(y, same);
            assert(peers(a, peer) == peers(b, peer));
            if same(x) {
                assert(peers(front_a, peer) =~= peers(a, peer).drop_last());
                assert(peers(front_b, peer) =~= peers(b, peer).drop_last());
            }
        }
        lemma_ranked_runs_with_equal_peers(side, front_a, front_b);
    }
}

/// The ranking is pinned down by its laws: a run that is ranked and holds, for
/// every level, the levels as good as it in the order in which they stand in
/// `levels` is the ranking of `levels`, and no other run will do.
pub proof fn lemma_ranking_is_unique(side: Side, levels: Seq<LevelView>, other: Seq<LevelView>)
    requires
        is_ranked(side, other),
        forall|peer: LevelView| peers(other, peer) == peers(levels, peer),
    ensures
        other == ranking(side, levels),
{
    lemma_ranking_is_ranked(side, levels);
    assert forall|peer: LevelView| peers(other, peer) == peers(ranking(side, levels), peer) by {
        lemma_ranking_is_stable(side, levels, peer);
    }
    lemma_ranked_runs_with_equal_peers(side, other, ranking(side, levels));
}

/// A run that is ranked already is its own ranking.
pub proof fn lemma_ranking_of_ranked(side: Side, levels: Seq<LevelView>)
    requires
        is_ranked(side, levels),
    ensures
        ranking(side, levels) == levels,
    decreases levels.len(),
{
    if levels.len() > 0 {
        let front = levels.drop_last();
        assert(is_ranked(side, front)) by {
            assert forall|i: int, j: int| 0 <= i < j < front.len() implies !outranks(
                side,
                front[j],
                front[i],
            ) by {
                assert(front[i] == levels[i] && front[j] == levels[j]);
            }
        }
        lemma_ranking_of_ranked(side, front);
        if front.len() > 0 {
            assert(front[front.len() - 1] == levels[levels.len() - 2]);
            assert(!outranks(side, levels[levels.len() - 1], levels[levels.len() - 2]));
        }
        lemma_place_index_unique(side, front, levels.last(), front.len() as int);
        assert(front.insert(front.len() as int, levels.last()) =~= levels);
    }
}

/// The first levels of a ranked run are ranked.
pub proof fn lemma_top_is_ranked(side: Side, levels: Seq<LevelView>, depth: int)
    requires
        is_ranked(side, levels),
        0 <= depth,
    ensures
        is_ranked(side, top(levels, depth)),
        top(levels, depth).len() <= depth,
{
}

/// Decides whether `a` is a strictly better quote than `b` on `side`.
pub fn outranking(side: Side, a: &Level, b: &Level) -> (better: bool)
    ensures
        better == outranks(side, a@, b@),
{
    let price_a: i64 = key_of(a.price);
    let price_b: i64 = key_of(b.price);
    let better_price = match side {
        Side::Bid => price_a > price_b,
        Side::Ask => price_a < price_b,
    };
    better_price || (a.price == b.price && key_of(a.amount) > key_of(b.amount))
}

/// Puts `level` into the ranked run `ranked` behind the last level that it does
/// not outrank.
pub fn place(side: Side, ranked: &mut Vec<Level>, level: Level)
    ensures
        views(final(ranked)@) == placed(side, views(old(ranked)@), level@),
{
    let ghost before = views(ranked@);
    let mut index: usize = ranked.len();
    while index > 0 && outranking(side, &level, &ranked[index - 1])
        invariant
            index <= ranked.len(),
            ranked@ == old(ranked)@,
            before == views(ranked@),
            forall|k: int| index <= k < before.len() ==> outranks(side, level@, #[trigger] before[k]),
        decreases index,
    {
        index -= 1;
    }
    proof {
        lemma_place_index_unique(side, before, level@, index as int);
    }
    ranked.insert(index, level);
    assert(views(ranked@) =~= before.insert(index as int, level@));
}

} // verus!
