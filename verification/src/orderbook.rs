//! The common representation of quotes: price levels and book summaries.

use vstd::prelude::*;
use crate::total_order::order_key;

verus! {

/// The greatest number of levels that a summary holds on either side.
pub const DEPTH: usize = 10;

/// One price and quantity on one side of an exchange's book.
///
/// `price` and `amount` are binary64 bit patterns.
#[derive(Debug, PartialEq, Eq)]
pub struct Level {
    pub exchange: String,
    pub price: u64,
    pub amount: u64,
}

/// What a [`Level`] stands for in contracts.
pub struct LevelView {
    pub exchange: Seq<char>,
    pub price: u64,
    pub amount: u64,
}

impl View for Level {
    type V = LevelView;

    open spec fn view(&self) -> LevelView {
        LevelView { exchange: self.exchange@, price: self.price, amount: self.amount }
    }
}

impl Clone for Level {
    fn clone(&self) -> (copy: Level)
        ensures
            copy@ == self@,
    {
        Level { exchange: self.exchange.clone(), price: self.price, amount: self.amount }
    }
}

/// The views of a run of levels, in order.
pub open spec fn views(levels: Seq<Level>) -> Seq<LevelView> {
    levels.map_values(|level: Level| level@)
}

/// The side of a book that a list of levels belongs to. It decides how the
/// list is ranked.
#[derive(Clone, Copy, Debug, PartialEq, Eq, Structural)]
pub enum Side {
    Bid,
    Ask,
}

/// `a` is a strictly better quote than `b` on `side`.
///
/// A bid is better the higher its price and an ask the lower its price, prices
/// taken in the total order. At one price the greater quantity is the better
/// quote on either side.
pub open spec fn outranks(side: Side, a: LevelView, b: LevelView) -> bool {
    let better_price = match side {
        Side::Bid => order_key(a.price) > order_key(b.price),
        Side::Ask => order_key(a.price) < order_key(b.price),
    };
    better_price || (a.price == b.price && order_key(a.amount) > order_key(b.amount))
}

/// `a` and `b` are equally good quotes: neither outranks the other, which is to
/// say that they agree in price and quantity and differ at most in the exchange.
pub open spec fn ties(a: LevelView, b: LevelView) -> bool {
    a.price == b.price && a.amount == b.amount
}

/// No level of `levels` is outranked by one that stands after it.
///
/// For bids this says that prices never rise along the list and that at one
/// price quantities never rise; for asks, that prices never fall and that at one
/// price quantities never rise.
pub open spec fn is_ranked(side: Side, levels: Seq<LevelView>) -> bool {
    forall|i: int, j: int| 0 <= i < j < levels.len() ==> !outranks(side, levels[j], levels[i])
}

/// What it means for a run to be ranked, level against level: along ranked bids
/// prices never rise and along ranked asks they never fall, in the total order,
/// and where two levels have one price the earlier has no smaller quantity.
pub proof fn lemma_ranked_in_order(side: Side, levels: Seq<LevelView>, i: int, j: int)
    requires
        is_ranked(side, levels),
        0 <= i < j < levels.len(),
    ensures
        side == Side::Bid ==> order_key(levels[i].price) >= order_key(levels[j].price),
        side == Side::Ask ==> order_key(levels[i].price) <= order_key(levels[j].price),
        levels[i].price == levels[j].price ==> order_key(levels[i].amount) >= order_key(
            levels[j].amount,
        ),
{
    assert(!outranks(side, levels[j], levels[i]));
}

/// The difference between the best ask and the best bid of a book.
///
/// The subtraction is a binary64 operation and is left to whoever reads the
/// value; what is recorded here is which two prices it is taken from.
#[derive(Clone, Copy, Debug, PartialEq, Eq, Structural)]
pub enum Spread {
    /// One side of the book is empty: the spread is zero.
    Zero,
    /// The spread is `ask - bid`, both binary64 bit patterns.
    Between { ask: u64, bid: u64 },
}

/// The spread of a book with the given sides: taken between the first ask and
/// the first bid where there are both, and zero otherwise.
pub open spec fn spread_of(bids: Seq<LevelView>, asks: Seq<LevelView>) -> Spread {
    if bids.len() > 0 && asks.len() > 0 {
        Spread::Between { ask: asks[0].price, bid: bids[0].price }
    } else {
        Spread::Zero
    }
}

/// A bounded view of the best bids and asks of one exchange, or of several
/// merged.
#[derive(Debug, PartialEq, Eq)]
pub struct Summary {
    pub spread: Spread,
    pub bids: Vec<Level>,
    pub asks: Vec<Level>,
}

/// What a [`Summary`] stands for in contracts.
pub struct SummaryView {
    pub spread: Spread,
    pub bids: Seq<LevelView>,
    pub asks: Seq<LevelView>,
}

impl View for Summary {
    type V = SummaryView;

    open spec fn view(&self) -> SummaryView {
        SummaryView { spread: self.spread, bids: views(self.bids@), asks: views(self.asks@) }
    }
}

impl SummaryView {
    /// The summary with no bids, no asks and a zero spread.
    pub open spec fn empty() -> SummaryView {
        SummaryView { spread: Spread::Zero, bids: Seq::empty(), asks: Seq::empty() }
    }

    /// Neither side holds more than [`DEPTH`] levels, and the spread is the one
    /// that the two sides give.
    pub open spec fn well_formed(self) -> bool {
        &&& self.bids.len() <= DEPTH
        &&& self.asks.len() <= DEPTH
        &&& self.spread == spread_of(self.bids, self.asks)
    }

    /// Both sides are ranked best first.
    pub open spec fn ranked(self) -> bool {
        &&& is_ranked(Side::Bid, self.bids)
        &&& is_ranked(Side::Ask, self.asks)
    }
}

impl Default for Summary {
    fn default() -> (summary: Summary)
        ensures
            summary@ == SummaryView::empty(),
    {
        let summary = Summary { spread: Spread::Zero, bids: Vec::new(), asks: Vec::new() };
        assert(summary@.bids =~= Seq::empty());
        assert(summary@.asks =~= Seq::empty());
        summary
    }
}

/// Copies a run of levels.
pub fn clone_levels(levels: &Vec<Level>) -> (copy: Vec<Level>)
    ensures
        views(copy@) == views(levels@),
{
    let mut copy: Vec<Level> = Vec::new();
    let mut i: usize = 0;
    while i < levels.len()
        invariant
            i <= levels.len(),
            copy@.len() == i,
            views(copy@) == views(levels@).take(i as int),
        decreases levels.len() - i,
    {
        let ghost before = copy@;
        let level = levels[i].clone();
        copy.push(level);
        assert forall|k: int| 0 <= k < copy@.len() implies views(copy@)[k] == views(levels@)[k] by {
            if k < i {
                assert(views(before)[k] == views(levels@).take(i as int)[k]);
            }
        }
        assert(views(copy@) =~= views(levels@).take(i as int + 1));
        i += 1;
    }
    assert(views(levels@).take(i as int) =~= views(levels@));
    copy
}

impl Clone for Summary {
    fn clone(&self) -> (copy: Summary)
        ensures
            copy@ == self@,
    {
        Summary {
            spread: self.spread,
            bids: clone_levels(&self.bids),
            asks: clone_levels(&self.asks),
        }
    }
}

} // verus!
