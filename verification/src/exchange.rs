//! The quote normalizer: from an exchange's order book as it came off the wire
//! to a summary in the common representation.

use vstd::prelude::*;
use vstd::string::StringExecFns;
use crate::orderbook::{spread_of, views, Level, LevelView, Side, Summary, SummaryView, DEPTH};
use crate::merger::spread_between;
use crate::ranking::top;

pub mod binance;
pub mod bitstamp;
pub mod feed;

verus! {

/// A field of an entry of an order book.
#[derive(Clone, Copy, Debug, PartialEq, Eq, Structural)]
pub enum Field {
    Price,
    Amount,
}

/// Why an order book was not converted: a field of one of its entries is no
/// number.
#[derive(Clone, Copy, Debug, PartialEq, Eq, Structural)]
pub struct ConvertError {
    /// The side of the book that the entry stands on.
    pub side: Side,
    /// The field of the entry that is no number.
    pub field: Field,
}

impl ConvertError {
    /// The words for the side on which the conversion failed.
    pub open spec fn side_text(self) -> Seq<char> {
        match self.side {
            Side::Bid => "Failed to parse bids"@,
            Side::Ask => "Failed to parse Asks"@,
        }
    }

    /// The words for the field that is no number.
    pub open spec fn field_text(self) -> Seq<char> {
        match self.field {
            Field::Price => "Failed to parse price for levels"@,
            Field::Amount => "Failed to parse amount for levels"@,
        }
    }

    /// A line that names the side on which the conversion failed and, after a
    /// colon, the field that is no number.
    pub fn message(&self) -> (text: String)
        ensures
            text@ == self.side_text() + ": "@ + self.field_text(),
    {
        let mut text = match self.side {
            Side::Bid => "Failed to parse bids".to_owned(),
            Side::Ask => "Failed to parse Asks".to_owned(),
        };
        text.append(": ");
        match self.field {
            Field::Price => text.append("Failed to parse price for levels"),
            Field::Amount => text.append("Failed to parse amount for levels"),
        }
        text
    }
}

/// An exchange's order book as it came off the wire, each side best first.
///
/// An entry is a price field followed by a quantity field. A field holds the
/// bit pattern of the binary64 number that its text spells, or nothing where
/// the text spells no number.
#[derive(Clone, Debug, PartialEq, Eq)]
pub struct Orderbook {
    pub bids: Vec<[Option<u64>; 2]>,
    pub asks: Vec<[Option<u64>; 2]>,
}

impl Default for Orderbook {
    fn default() -> (book: Orderbook)
        ensures
            book.bids@.len() == 0,
            book.asks@.len() == 0,
    {
        Orderbook { bids: Vec::new(), asks: Vec::new() }
    }
}

/// The first field of an entry that is no number, the price being looked at
/// before the quantity, or nothing where both are numbers.
pub open spec fn gap_of(entry: [Option<u64>; 2]) -> Option<Field> {
    if entry@[0] is None {
        Some(Field::Price)
    } else if entry@[1] is None {
        Some(Field::Amount)
    } else {
        None
    }
}

/// The level that an entry gives for `exchange`, or the first of its fields
/// that is no number.
pub open spec fn level_of(exchange: Seq<char>, entry: [Option<u64>; 2]) -> Result<LevelView, Field> {
    match gap_of(entry) {
        Some(field) => Err(field),
        None => Ok(LevelView { exchange, price: entry@[0]->0, amount: entry@[1]->0 }),
    }
}

/// The first field in `entries` that is no number, entry by entry, or nothing
/// where every field is a number.
pub open spec fn first_gap(entries: Seq<[Option<u64>; 2]>) -> Option<Field>
    decreases entries.len(),
{
    if entries.len() == 0 {
        None
    } else {
        match first_gap(entries.drop_last()) {
            Some(field) => Some(field),
            None => gap_of(entries.last()),
        }
    }
}

/// The levels that `entries` give for `exchange`, in order. It is meant for
/// entries without a gap; an entry with one stands as a level of zeros.
pub open spec fn levels_of(exchange: Seq<char>, entries: Seq<[Option<u64>; 2]>) -> Seq<LevelView> {
    entries.map_values(
        |entry: [Option<u64>; 2]|
            match level_of(exchange, entry) {
                Ok(level) => level,
                Err(_) => LevelView { exchange, price: 0, amount: 0 },
            },
    )
}

/// What [`first_gap`] finds: nothing exactly when no entry has a gap, and
/// otherwise the gap of the first entry that has one.
pub proof fn lemma_first_gap(entries: Seq<[Option<u64>; 2]>)
    ensures
        first_gap(entries) is None <==> forall|i: int|
            0 <= i < entries.len() ==> gap_of(#[trigger] entries[i]) is None,
        first_gap(entries) matches Some(field) ==> exists|i: int|
            {
                &&& 0 <= i < entries.len()
                &&& gap_of(#[trigger] entries[i]) == Some(field)
                &&& forall|j: int| 0 <= j < i ==> gap_of(#[trigger] entries[j]) is None
            },
    decreases entries.len(),
{
    if entries.len() > 0 {
        let front = entries.drop_last();
        lemma_first_gap(front);
        assert forall|i: int| 0 <= i < front.len() implies front[i] == entries[i] by {}
        match first_gap(front) {
            Some(field) => {
                let i = choose|i: int|
                    {
                        &&& 0 <= i < front.len()
                        &&& gap_of(#[trigger] front[i]) == Some(field)
                        &&& forall|j: int| 0 <= j < i ==> gap_of(#[trigger] front[j]) is None
                    };
                assert(gap_of(entries[i]) == Some(field));
                assert forall|j: int| 0 <= j < i implies gap_of(#[trigger] entries[j]) is None by {
                    assert(front[j] == entries[j]);
                }
            },
            None => {
                assert forall|j: int| 0 <= j < front.len() implies gap_of(
                    #[trigger] entries[j],
                ) is None by {
                    assert(front[j] == entries[j]);
                }
                if gap_of(entries.last()) is Some {
                    let i = entries.len() - 1;
                    assert(gap_of(entries[i]) == gap_of(entries.last()));
                }
            },
        }
    }
}

/// Parse failure isolation: a book converts exactly when every field of the
/// first [`DEPTH`] entries of each side is a number. A single field that is
/// none fails the book as a whole, and no level of it is handed out.
pub proof fn lemma_converts_iff_readable(book: Orderbook, exchange: Seq<char>)
    ensures
        book.normalized(exchange) is Ok <==> {
            &&& forall|i: int|
                0 <= i < book.bids@.len() && i < DEPTH ==> gap_of(#[trigger] book.bids@[i]) is None
            &&& forall|i: int|
                0 <= i < book.asks@.len() && i < DEPTH ==> gap_of(#[trigger] book.asks@[i]) is None
        },
{
    let bids = top(book.bids@, DEPTH as int);
    let asks = top(book.asks@, DEPTH as int);
    lemma_first_gap(bids);
    lemma_first_gap(asks);
    assert forall|i: int| 0 <= i < bids.len() implies bids[i] == book.bids@[i] by {}
    assert forall|i: int| 0 <= i < asks.len() implies asks[i] == book.asks@[i] by {}
    if book.normalized(exchange) is Ok {
        assert forall|i: int| 0 <= i < book.bids@.len() && i < DEPTH implies gap_of(
            #[trigger] book.bids@[i],
        ) is None by {
            assert(bids[i] == book.bids@[i]);
        }
        assert forall|i: int| 0 <= i < book.asks@.len() && i < DEPTH implies gap_of(
            #[trigger] book.asks@[i],
        ) is None by {
            assert(asks[i] == book.asks@[i]);
        }
    }
}

impl Orderbook {
    /// The summary that this book converts to for `exchange`, or the error that
    /// the conversion ends in.
    ///
    /// Only the first [`DEPTH`] entries of each side count. The bids are read
    /// before the asks and each side from its best entry on, and the first field
    /// that is no number decides the error. Where there is none, the summary
    /// holds the levels in the order of the entries, and the spread between the
    /// first ask and the first bid.
    pub open spec fn normalized(self, exchange: Seq<char>) -> Result<SummaryView, ConvertError> {
        let bids = top(self.bids@, DEPTH as int);
        let asks = top(self.asks@, DEPTH as int);
        match (first_gap(bids), first_gap(asks)) {
            (Some(field), _) => Err(ConvertError { side: Side::Bid, field }),
            (None, Some(field)) => Err(ConvertError { side: Side::Ask, field }),
            (None, None) => Ok(
                SummaryView {
                    spread: spread_of(levels_of(exchange, bids), levels_of(exchange, asks)),
                    bids: levels_of(exchange, bids),
                    asks: levels_of(exchange, asks),
                },
            ),
        }
    }

    /// Converts the book into a summary tagged with `exchange`, or fails as a
    /// whole: no level is handed out where any field among the entries that count
    /// is no number.
    pub fn convert(self, exchange: &str) -> (result: Result<Summary, ConvertError>)
        ensures
            match result {
                Ok(summary) => self.normalized(exchange@) == Ok::<SummaryView, ConvertError>(
                    summary@,
                ),
                Err(error) => self.normalized(exchange@) == Err::<SummaryView, ConvertError>(error),
            },
            result matches Ok(summary) ==> summary@.well_formed(),
    {
        let bids = match Self::read_side(exchange, &self.bids) {
            Ok(levels) => levels,
            Err(field) => {
                return Err(ConvertError { side: Side::Bid, field });
            },
        };
        let asks = match Self::read_side(exchange, &self.asks) {
            Ok(levels) => levels,
            Err(field) => {
                return Err(ConvertError { side: Side::Ask, field });
            },
        };
        let spread = spread_between(&bids, &asks);
        Ok(Summary { spread, bids, asks })
    }

    /// Reads the first [`DEPTH`] entries of one side into levels, and stops at
    /// the first field that is no number.
    fn read_side(exchange: &str, entries: &Vec<[Option<u64>; 2]>) -> (result: Result<
        Vec<Level>,
        Field,
    >)
        ensures
            match result {
                Ok(levels) => {
                    &&& first_gap(top(entries@, DEPTH as int)) is None
                    &&& views(levels@) == levels_of(exchange@, top(entries@, DEPTH as int))
                },
                Err(field) => first_gap(top(entries@, DEPTH as int)) == Some(field),
            },
    {
        let count: usize = if entries.len() <= DEPTH {
            entries.len()
        } else {
            DEPTH
        };
        let ghost wanted = top(entries@, DEPTH as int);
        let mut levels: Vec<Level> = Vec::new();
        let mut i: usize = 0;
        while i < count
            invariant
                i <= count,
                count == wanted.len(),
                wanted == top(entries@, DEPTH as int),
                count <= entries.len(),
                levels@.len() == i,
                first_gap(wanted.take(i as int)) is None,
                views(levels@) == levels_of(exchange@, wanted.take(i as int)),
            decreases count - i,
        {
            proof {
                assert(wanted.take(i as int + 1).drop_last() =~= wanted.take(i as int));
                assert(wanted.take(i as int + 1).last() == entries@[i as int]);
            }
            match Self::make_level(exchange, &entries[i]) {
                Ok(level) => {
                    let ghost before = levels@;
                    levels.push(level);
                    assert forall|k: int| 0 <= k < levels@.len() implies views(levels@)[k]
                        == levels_of(exchange@, wanted.take(i as int + 1))[k] by {
                        if k < i {
                            assert(views(before)[k] == levels_of(exchange@, wanted.take(i as int))[k]);
                        }
                    }
                    assert(views(levels@) =~= levels_of(exchange@, wanted.take(i as int + 1)));
                },
                Err(field) => {
                    proof {
                        lemma_gap_stays(wanted.take(i as int + 1), wanted);
                    }
                    return Err(field);
                },
            }
            i += 1;
        }
        assert(wanted.take(i as int) =~= wanted);
        Ok(levels)
    }

    /// Makes the level of one entry for `exchange`, or names the first of its
    /// fields that is no number, the price being looked at before the quantity.
    pub fn make_level(exchange: &str, arr: &[Option<u64>; 2]) -> (result: Result<Level, Field>)
        ensures
            match result {
                Ok(level) => level_of(exchange@, *arr) == Ok::<LevelView, Field>(level@),
                Err(field) => level_of(exchange@, *arr) == Err::<LevelView, Field>(field),
            },
    {
        let price = match arr[0] {
            Some(bits) => bits,
            None => {
                return Err(Field::Price);
            },
        };
        let amount = match arr[1] {
            Some(bits) => bits,
            None => {
                return Err(Field::Amount);
            },
        };
        Ok(Level { exchange: exchange.to_owned(), price, amount })
    }
}

/// A gap found in the first entries of a run is the first gap of the whole run.
proof fn lemma_gap_stays(head: Seq<[Option<u64>; 2]>, entries: Seq<[Option<u64>; 2]>)
    requires
        head.len() <= entries.len(),
        head == entries.take(head.len() as int),
        first_gap(head) is Some,
    ensures
        first_gap(entries) == first_gap(head),
    decreases entries.len() - head.len(),
{
    if head.len() < entries.len() {
        let front = entries.drop_last();
        assert(front.take(head.len() as int) =~= head);
        lemma_gap_stays(head, front);
    } else {
        assert(head =~= entries);
    }
}

} // verus!
