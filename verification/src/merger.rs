//! The merge engine: the latest summary of each exchange, combined into one
//! ranked book of bounded depth whenever either exchange reports.

use vstd::prelude::*;
use crate::fanout::{Received, ReceivedView};
use crate::orderbook::{
    spread_of, views, Level, LevelView, Side, Spread, Summary, SummaryView, DEPTH,
};
use crate::ranking::{
    lemma_ranking_is_ranked, lemma_ranking_of_ranked, lemma_top_is_ranked, place, ranking, top,
};

verus! {

/// The side `side` of a summary.
pub open spec fn side_of(side: Side, summary: SummaryView) -> Seq<LevelView> {
    match side {
        Side::Bid => summary.bids,
        Side::Ask => summary.asks,
    }
}

/// The levels that the summaries hold on `side`, those of the first summary
/// first.
pub open spec fn gathered(side: Side, summaries: Seq<SummaryView>) -> Seq<LevelView>
    decreases summaries.len(),
{
    if summaries.len() == 0 {
        Seq::empty()
    } else {
        gathered(side, summaries.drop_last()) + side_of(side, summaries.last())
    }
}

/// The book merged from `summaries`: on each side the [`DEPTH`] best of all their
/// levels, ranked best first, and the spread between the best ask and the best
/// bid that are left.
pub open spec fn merged(summaries: Seq<SummaryView>) -> SummaryView {
    let bids = top(ranking(Side::Bid, gathered(Side::Bid, summaries)), DEPTH as int);
    let asks = top(ranking(Side::Ask, gathered(Side::Ask, summaries)), DEPTH as int);
    SummaryView { spread: spread_of(bids, asks), bids, asks }
}

/// The views of a run of summaries, in order.
pub open spec fn summary_views(summaries: Seq<Summary>) -> Seq<SummaryView> {
    summaries.map_values(|summary: Summary| summary@)
}

/// Depth bound, sort order and spread of every merged book: neither side is
/// longer than [`DEPTH`], both are ranked best first, and the spread is the one
/// between the first ask and the first bid, or zero where a side is empty.
pub proof fn lemma_merged_is_well_formed(summaries: Seq<SummaryView>)
    ensures
        merged(summaries).well_formed(),
        merged(summaries).ranked(),
{
    lemma_ranking_is_ranked(Side::Bid, gathered(Side::Bid, summaries));
    lemma_ranking_is_ranked(Side::Ask, gathered(Side::Ask, summaries));
    lemma_top_is_ranked(Side::Bid, ranking(Side::Bid, gathered(Side::Bid, summaries)), DEPTH as int);
    lemma_top_is_ranked(Side::Ask, ranking(Side::Ask, gathered(Side::Ask, summaries)), DEPTH as int);
}

/// Merging a single well-formed, ranked summary with empty ones gives that
/// summary back unchanged, wherever it stands among them.
pub proof fn lemma_merged_of_single(summaries: Seq<SummaryView>, index: int)
    requires
        0 <= index < summaries.len(),
        summaries[index].well_formed(),
        summaries[index].ranked(),
        forall|k: int| 0 <= k < summaries.len() && k != index ==> summaries[k] == SummaryView::empty(),
    ensures
        merged(summaries) == summaries[index],
{
    lemma_gathered_of_single(Side::Bid, summaries, index);
    lemma_gathered_of_single(Side::Ask, summaries, index);
    lemma_ranking_of_ranked(Side::Bid, summaries[index].bids);
    lemma_ranking_of_ranked(Side::Ask, summaries[index].asks);
}

/// Where every summary but one has nothing on `side`, the levels gathered are
/// those of that one.
pub proof fn lemma_gathered_of_single(side: Side, summaries: Seq<SummaryView>, index: int)
    requires
        0 <= index < summaries.len(),
        forall|k: int|
            0 <= k < summaries.len() && k != index ==> side_of(side, #[trigger] summaries[k]).len()
                == 0,
    ensures
        gathered(side, summaries) == side_of(side, summaries[index]),
    decreases summaries.len(),
{
    let front = summaries.drop_last();
    if index < front.len() {
        assert forall|k: int| 0 <= k < front.len() && k != index implies side_of(
            side,
            #[trigger] front[k],
        ).len() == 0 by {
            assert(front[k] == summaries[k]);
        }
        lemma_gathered_of_single(side, front, index);
        assert(front[index] == summaries[index]);
        assert(side_of(side, summaries[summaries.len() - 1]).len() == 0);
        assert(gathered(side, front) + side_of(side, summaries.last()) =~= gathered(side, front));
    } else {
        assert forall|k: int| 0 <= k < front.len() implies side_of(side, #[trigger] front[k]).len()
            == 0 by {
            assert(front[k] == summaries[k]);
        }
        lemma_gathered_of_none(side, front);
        assert(gathered(side, front) + side_of(side, summaries.last()) =~= side_of(
            side,
            summaries.last(),
        ));
    }
}

/// Summaries with nothing on `side` gather to nothing.
pub proof fn lemma_gathered_of_none(side: Side, summaries: Seq<SummaryView>)
    requires
        forall|k: int| 0 <= k < summaries.len() ==> side_of(side, #[trigger] summaries[k]).len() == 0,
    ensures
        gathered(side, summaries) == Seq::<LevelView>::empty(),
    decreases summaries.len(),
{
    if summaries.len() > 0 {
        let front = summaries.drop_last();
        assert forall|k: int| 0 <= k < front.len() implies side_of(side, #[trigger] front[k]).len()
            == 0 by {
            assert(front[k] == summaries[k]);
        }
        lemma_gathered_of_none(side, front);
        assert(side_of(side, summaries[summaries.len() - 1]).len() == 0);
        assert(gathered(side, front) + side_of(side, summaries.last()) =~= Seq::<LevelView>::empty());
    }
}

/// Puts copies of `levels` one by one into the ranked run `ranked`.
fn place_all(side: Side, ranked: &mut Vec<Level>, levels: &Vec<Level>, Ghost(before): Ghost<Seq<LevelView>>)
    requires
        views(old(ranked)@) == ranking(side, before),
    ensures
        views(final(ranked)@) == ranking(side, before + views(levels@)),
{
    let mut k: usize = 0;
    assert(before + views(levels@).take(0) =~= before);
    while k < levels.len()
        invariant
            k <= levels.len(),
            views(ranked@) == ranking(side, before + views(levels@).take(k as int)),
        decreases levels.len() - k,
    {
        let level = levels[k].clone();
        proof {
            let done = before + views(levels@).take(k as int);
            let next = before + views(levels@).take(k as int + 1);
            assert(next.drop_last() =~= done);
            assert(next.last() == level@);
        }
        place(side, ranked, level);
        k += 1;
    }
    assert(views(levels@).take(k as int) =~= views(levels@));
}

/// The spread of a book with the given sides.
pub fn spread_between(bids: &Vec<Level>, asks: &Vec<Level>) -> (spread: Spread)
    ensures
        spread == spread_of(views(bids@), views(asks@)),
{
    if bids.len() > 0 && asks.len() > 0 {
        Spread::Between { ask: asks[0].price, bid: bids[0].price }
    } else {
        Spread::Zero
    }
}

/// Which of the two exchanges something came from.
#[derive(Clone, Copy, Debug, PartialEq, Eq, Structural)]
pub enum Source {
    Binance,
    Bitstamp,
}

impl Source {
    /// The index of the slot that holds the latest summary of this exchange.
    pub open spec fn slot(self) -> int {
        match self {
            Source::Binance => 0,
            Source::Bitstamp => 1,
        }
    }
}

/// What is to be done after something was received.
#[derive(Debug)]
pub enum Reaction {
    /// Publish this merged book.
    Publish(Summary),
    /// Nothing: go on waiting for either exchange.
    Wait,
    /// Stop listening to the exchange that this came from, and go on with the
    /// other.
    Detach,
}

/// What a [`Reaction`] stands for in contracts.
pub enum ReactionView {
    Publish(SummaryView),
    Wait,
    Detach,
}

impl View for Reaction {
    type V = ReactionView;

    open spec fn view(&self) -> ReactionView {
        match self {
            Reaction::Publish(summary) => ReactionView::Publish(summary@),
            Reaction::Wait => ReactionView::Wait,
            Reaction::Detach => ReactionView::Detach,
        }
    }
}

/// The merge engine. It owns one slot for each exchange, which holds the latest
/// summary that the exchange reported and is empty until it reports.
pub struct Merger {
    summaries: [Summary; 2],
}

/// The slots after `received` came from `source`: a new summary overwrites the
/// slot of its exchange, and nothing else changes anything.
pub open spec fn slots_after(
    slots: Seq<SummaryView>,
    source: Source,
    received: ReceivedView,
) -> Seq<SummaryView> {
    match received {
        ReceivedView::Update(summary) => slots.update(source.slot(), summary),
        ReceivedView::Lagged => slots,
        ReceivedView::Closed => slots,
    }
}

/// The reaction to `received`, given the slots as they are after it: a new
/// summary has the merged book published, a lag is passed over, and a closed
/// channel has its exchange detached.
pub open spec fn reaction_to(slots_after: Seq<SummaryView>, received: ReceivedView) -> ReactionView {
    match received {
        ReceivedView::Update(_) => ReactionView::Publish(merged(slots_after)),
        ReceivedView::Lagged => ReactionView::Wait,
        ReceivedView::Closed => ReactionView::Detach,
    }
}

/// What comes from one exchange leaves the slot of the other as it is: a lost
/// connection, a lag or a closed channel on one side never touches what is
/// known of the other, and the merged book goes on holding it.
pub proof fn lemma_other_slot_is_kept(
    slots: Seq<SummaryView>,
    source: Source,
    received: ReceivedView,
    other: Source,
)
    requires
        slots.len() == 2,
        other != source,
    ensures
        slots_after(slots, source, received).len() == 2,
        slots_after(slots, source, received)[other.slot()] == slots[other.slot()],
        received is Update ==> slots_after(slots, source, received)[source.slot()]
            == received->Update_0,
        !(received is Update) ==> slots_after(slots, source, received) == slots,
{
}

impl Merger {
    /// The slots: the latest summary of each exchange, at the index that
    /// [`Source::slot`] gives.
    pub closed spec fn slots(self) -> Seq<SummaryView> {
        summary_views(self.summaries@)
    }

    /// A merge engine with both slots empty.
    pub fn new() -> (merger: Merger)
        ensures
            merger.slots() == seq![SummaryView::empty(), SummaryView::empty()],
    {
        let merger = Merger { summaries: [Summary::default(), Summary::default()] };
        assert(merger.slots() =~= seq![SummaryView::empty(), SummaryView::empty()]);
        merger
    }

    /// A copy of the latest summary of `source`.
    pub fn latest(&self, source: Source) -> (summary: Summary)
        ensures
            self.slots().len() == 2,
            summary@ == self.slots()[source.slot()],
    {
        match source {
            Source::Binance => self.summaries[0].clone(),
            Source::Bitstamp => self.summaries[1].clone(),
        }
    }

    /// Takes in what the channel of `source` handed over and says what is to be
    /// done.
    ///
    /// A new summary overwrites the slot of its exchange, and the book merged
    /// from both slots is to be published, whether or not the other exchange has
    /// reported yet. A lag or a closed channel changes no slot.
    pub fn processor(&mut self, source: Source, received: Received) -> (reaction: Reaction)
        ensures
            old(self).slots().len() == 2,
            final(self).slots() == slots_after(old(self).slots(), source, received@),
            reaction@ == reaction_to(final(self).slots(), received@),
            reaction matches Reaction::Publish(book) ==> book@.well_formed() && book@.ranked(),
    {
        match received {
            Received::Update(summary) => {
                let ghost before = self.slots();
                let ghost update = summary@;
                match source {
                    Source::Binance => {
                        self.summaries[0] = summary;
                    },
                    Source::Bitstamp => {
                        self.summaries[1] = summary;
                    },
                }
                assert(self.slots() =~= before.update(source.slot(), update));
                let merged = Self::merge_summaries(self.summaries.as_slice());
                Reaction::Publish(merged)
            },
            Received::Lagged => Reaction::Wait,
            Received::Closed => Reaction::Detach,
        }
    }

    /// Merges the summaries into one book: gathers the bids of all of them and
    /// the asks of all of them, ranks each side best first, keeps the [`DEPTH`]
    /// best of each, and takes the spread between the best ask and the best bid
    /// that are left.
    pub fn merge_summaries(summaries: &[Summary]) -> (result: Summary)
        ensures
            result@ == merged(summary_views(summaries@)),
            result@.well_formed(),
            result@.ranked(),
    {
        let ghost all = summary_views(summaries@);
        let mut bids: Vec<Level> = Vec::new();
        let mut asks: Vec<Level> = Vec::new();
        let mut i: usize = 0;
        assert(all.take(0) =~= Seq::empty());
        while i < summaries.len()
            invariant
                i <= summaries.len(),
                all == summary_views(summaries@),
                views(bids@) == ranking(Side::Bid, gathered(Side::Bid, all.take(i as int))),
                views(asks@) == ranking(Side::Ask, gathered(Side::Ask, all.take(i as int))),
            decreases summaries.len() - i,
        {
            proof {
                assert(all.take(i as int + 1).drop_last() =~= all.take(i as int));
                assert(all.take(i as int + 1).last() == summaries[i as int]@);
            }
            place_all(
                Side::Bid,
                &mut bids,
                &summaries[i].bids,
                Ghost(gathered(Side::Bid, all.take(i as int))),
            );
            place_all(
                Side::Ask,
                &mut asks,
                &summaries[i].asks,
                Ghost(gathered(Side::Ask, all.take(i as int))),
            );
            i += 1;
        }
        assert(all.take(i as int) =~= all);
        let ghost ranked_bids = views(bids@);
        let ghost ranked_asks = views(asks@);
        bids.truncate(DEPTH);
        asks.truncate(DEPTH);
        assert(views(bids@) =~= top(ranked_bids, DEPTH as int));
        assert(views(asks@) =~= top(ranked_asks, DEPTH as int));
        let spread = spread_between(&bids, &asks);
        proof {
            lemma_merged_is_well_formed(all);
        }
        Summary { spread, bids, asks }
    }
}

} // verus!
