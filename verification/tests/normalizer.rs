//! From an order book off the wire to a summary.

use orderbook_aggregator::exchange::{ConvertError, Field, Orderbook};
use orderbook_aggregator::orderbook::{Level, Side, Spread, Summary};

fn num(text: &str) -> Option<u64> {
    text.parse::<f64>().ok().map(f64::to_bits)
}

fn pair(price: &str, amount: &str) -> [Option<u64>; 2] {
    [num(price), num(amount)]
}

#[test]
fn convert_tags_each_level_and_keeps_the_order() {
    let book = Orderbook {
        bids: vec![pair("99.0", "10.0"), pair("100.0", "5.0")],
        asks: vec![pair("106.0", "7.0"), pair("104.0", "9.0")],
    };
    let summary = book.convert("BINANCE").unwrap();
    assert_eq!(
        summary.bids,
        vec![
            Level { exchange: "BINANCE".to_string(), price: 99.0f64.to_bits(), amount: 10.0f64.to_bits() },
            Level { exchange: "BINANCE".to_string(), price: 100.0f64.to_bits(), amount: 5.0f64.to_bits() },
        ]
    );
    assert_eq!(
        summary.asks,
        vec![
            Level { exchange: "BINANCE".to_string(), price: 106.0f64.to_bits(), amount: 7.0f64.to_bits() },
            Level { exchange: "BINANCE".to_string(), price: 104.0f64.to_bits(), amount: 9.0f64.to_bits() },
        ]
    );
    // nothing is sorted here: the spread is taken between the first entries as they came
    assert_eq!(
        summary.spread,
        Spread::Between { ask: 106.0f64.to_bits(), bid: 99.0f64.to_bits() }
    );
}

#[test]
fn convert_takes_the_first_ten_of_each_side() {
    let mut book = Orderbook::default();
    for i in 0..14 {
        book.bids.push(pair(&format!("{}", 100 - i), "1"));
    }
    for i in 0..3 {
        book.asks.push(pair(&format!("{}", 200 + i), "1"));
    }
    let summary = book.convert("BITSTAMP").unwrap();
    assert_eq!(summary.bids.len(), 10);
    assert_eq!(summary.asks.len(), 3);
    assert_eq!(f64::from_bits(summary.bids[0].price), 100.0);
    assert_eq!(f64::from_bits(summary.bids[9].price), 91.0);
    assert_eq!(f64::from_bits(summary.asks[2].price), 202.0);
}

#[test]
fn convert_of_an_empty_book_is_the_empty_summary() {
    assert_eq!(Orderbook::default().convert("BINANCE").unwrap(), Summary::default());
    assert_eq!(Summary::default().spread, Spread::Zero);
    assert!(Summary::default().bids.is_empty());
    assert!(Summary::default().asks.is_empty());
}

#[test]
fn spread_is_zero_where_a_side_is_empty() {
    let only_bids = Orderbook { bids: vec![pair("1", "1")], asks: vec![] };
    assert_eq!(only_bids.convert("X").unwrap().spread, Spread::Zero);
    let only_asks = Orderbook { bids: vec![], asks: vec![pair("1", "1")] };
    assert_eq!(only_asks.convert("X").unwrap().spread, Spread::Zero);
}

#[test]
fn a_bid_price_that_is_no_number_fails_the_whole_book() {
    let book = Orderbook {
        bids: vec![pair("100", "1"), pair("abc", "1"), pair("98", "1")],
        asks: vec![pair("101", "1")],
    };
    assert_eq!(book.convert("X"), Err(ConvertError { side: Side::Bid, field: Field::Price }));
}

#[test]
fn a_bid_amount_that_is_no_number_fails_the_whole_book() {
    let book = Orderbook { bids: vec![pair("100", "")], asks: vec![pair("101", "1")] };
    assert_eq!(book.convert("X"), Err(ConvertError { side: Side::Bid, field: Field::Amount }));
}

#[test]
fn an_ask_price_that_is_no_number_fails_the_whole_book() {
    let book = Orderbook { bids: vec![pair("100", "1")], asks: vec![pair("1,5", "1")] };
    assert_eq!(book.convert("X"), Err(ConvertError { side: Side::Ask, field: Field::Price }));
}

#[test]
fn an_ask_amount_that_is_no_number_fails_the_whole_book() {
    let book = Orderbook { bids: vec![pair("100", "1")], asks: vec![pair("101", "1"), pair("102", "x")] };
    assert_eq!(book.convert("X"), Err(ConvertError { side: Side::Ask, field: Field::Amount }));
}

#[test]
fn the_first_failure_decides_the_error() {
    // bids are read before asks, entries in order, the price before the amount
    let book = Orderbook {
        bids: vec![pair("100", "x"), pair("x", "1")],
        asks: vec![pair("x", "x")],
    };
    assert_eq!(book.convert("X"), Err(ConvertError { side: Side::Bid, field: Field::Amount }));
    let book = Orderbook { bids: vec![pair("x", "x")], asks: vec![] };
    assert_eq!(book.convert("X"), Err(ConvertError { side: Side::Bid, field: Field::Price }));
}

#[test]
fn entries_past_the_tenth_are_not_read() {
    let mut book = Orderbook::default();
    for i in 0..10 {
        book.bids.push(pair(&format!("{}", 100 - i), "1"));
        book.asks.push(pair(&format!("{}", 200 + i), "1"));
    }
    book.bids.push(pair("abc", "1"));
    book.asks.push(pair("1", "abc"));
    let summary = book.clone().convert("X").unwrap();
    assert_eq!(summary.bids.len(), 10);
    assert_eq!(summary.asks.len(), 10);
    // the same field within the first ten fails the book
    book.bids[9] = pair("abc", "1");
    assert_eq!(book.convert("X"), Err(ConvertError { side: Side::Bid, field: Field::Price }));
}

#[test]
fn make_level_reads_price_then_amount() {
    let level = Orderbook::make_level("BINANCE", &pair("100.5", "2")).unwrap();
    assert_eq!(level.exchange, "BINANCE");
    assert_eq!(f64::from_bits(level.price), 100.5);
    assert_eq!(f64::from_bits(level.amount), 2.0);
    assert_eq!(Orderbook::make_level("X", &pair("?", "2")), Err(Field::Price));
    assert_eq!(Orderbook::make_level("X", &pair("1", "?")), Err(Field::Amount));
    assert_eq!(Orderbook::make_level("X", &pair("?", "?")), Err(Field::Price));
}

#[test]
fn error_message_names_side_and_field() {
    let bid = ConvertError { side: Side::Bid, field: Field::Price };
    let ask = ConvertError { side: Side::Ask, field: Field::Amount };
    assert_eq!(bid.message(), "Failed to parse bids: Failed to parse price for levels");
    assert_eq!(ask.message(), "Failed to parse Asks: Failed to parse amount for levels");
    let bid = ConvertError { side: Side::Bid, field: Field::Amount };
    let ask = ConvertError { side: Side::Ask, field: Field::Price };
    assert_eq!(bid.message(), "Failed to parse bids: Failed to parse amount for levels");
    assert_eq!(ask.message(), "Failed to parse Asks: Failed to parse price for levels");
}
