//! The total order on bit patterns against the order of the numbers themselves.

use orderbook_aggregator::orderbook::{Level, Side};
use orderbook_aggregator::ranking::{outranking, place};
use orderbook_aggregator::total_order::{key_of, SIGN_BIT};

fn samples() -> Vec<f64> {
    vec![
        f64::from_bits(0xfff8_0000_0000_0001),
        f64::from_bits(0xfff0_0000_0000_0001),
        f64::NEG_INFINITY,
        f64::MIN,
        -1.0e10,
        -1.5,
        -1.0,
        -f64::MIN_POSITIVE,
        -f64::from_bits(1),
        -0.0,
        0.0,
        f64::from_bits(1),
        f64::MIN_POSITIVE,
        0.06543210,
        1.0,
        1.5,
        100.0,
        101.0,
        1.0e10,
        f64::MAX,
        f64::INFINITY,
        f64::from_bits(0x7ff0_0000_0000_0001),
        f64::NAN,
        f64::from_bits(0x7fff_ffff_ffff_ffff),
    ]
}

fn level(price: f64, amount: f64) -> Level {
    Level { exchange: "X".to_string(), price: price.to_bits(), amount: amount.to_bits() }
}

#[test]
fn key_of_exact_values() {
    assert_eq!(SIGN_BIT, 1u64 << 63);
    assert_eq!(key_of(0), 0);
    assert_eq!(key_of(1), 1);
    assert_eq!(key_of(1.0f64.to_bits()), 0x3ff0_0000_0000_0000);
    assert_eq!(key_of(0x7fff_ffff_ffff_ffff), i64::MAX);
    assert_eq!(key_of((-0.0f64).to_bits()), -1);
    assert_eq!(key_of(0x8000_0000_0000_0001), -2);
    assert_eq!(key_of((-1.0f64).to_bits()), -1 - 0x3ff0_0000_0000_0000);
    assert_eq!(key_of(u64::MAX), i64::MIN);
}

#[test]
fn keys_order_as_the_total_order_of_the_numbers() {
    let all = samples();
    for a in &all {
        for b in &all {
            let by_key = key_of(a.to_bits()).cmp(&key_of(b.to_bits()));
            assert_eq!(by_key, a.total_cmp(b), "{:?} against {:?}", a, b);
        }
    }
}

#[test]
fn keys_of_distinct_patterns_differ() {
    let all = samples();
    for (i, a) in all.iter().enumerate() {
        for (j, b) in all.iter().enumerate() {
            assert_eq!(key_of(a.to_bits()) == key_of(b.to_bits()), i == j);
        }
    }
}

#[test]
fn a_bid_outranks_by_higher_price_then_greater_quantity() {
    assert!(outranking(Side::Bid, &level(101.0, 1.0), &level(100.0, 9.0)));
    assert!(!outranking(Side::Bid, &level(100.0, 9.0), &level(101.0, 1.0)));
    assert!(outranking(Side::Bid, &level(100.0, 9.0), &level(100.0, 1.0)));
    assert!(!outranking(Side::Bid, &level(100.0, 1.0), &level(100.0, 9.0)));
    assert!(!outranking(Side::Bid, &level(100.0, 1.0), &level(100.0, 1.0)));
}

#[test]
fn an_ask_outranks_by_lower_price_then_greater_quantity() {
    assert!(outranking(Side::Ask, &level(100.0, 1.0), &level(101.0, 9.0)));
    assert!(!outranking(Side::Ask, &level(101.0, 9.0), &level(100.0, 1.0)));
    assert!(outranking(Side::Ask, &level(100.0, 9.0), &level(100.0, 1.0)));
    assert!(!outranking(Side::Ask, &level(100.0, 1.0), &level(100.0, 9.0)));
    assert!(!outranking(Side::Ask, &level(100.0, 1.0), &level(100.0, 1.0)));
}

#[test]
fn outranking_agrees_with_the_total_order_of_the_numbers() {
    let all = samples();
    for p in &all {
        for q in &all {
            for (x, y) in [(1.0, 2.0), (2.0, 1.0), (1.0, 1.0)] {
                let a = level(*p, x);
                let b = level(*q, y);
                let bid = q.total_cmp(p).then(x.total_cmp(&y).reverse()).is_lt();
                let ask = p.total_cmp(q).then(x.total_cmp(&y).reverse()).is_lt();
                assert_eq!(outranking(Side::Bid, &a, &b), bid);
                assert_eq!(outranking(Side::Ask, &a, &b), ask);
            }
        }
    }
}

#[test]
fn place_puts_a_level_behind_its_equals() {
    let mut ranked = vec![level(103.0, 1.0), level(101.0, 5.0), level(101.0, 2.0), level(99.0, 1.0)];
    let mut tied = level(101.0, 2.0);
    tied.exchange = "Y".to_string();
    place(Side::Bid, &mut ranked, tied);
    let names: Vec<&str> = ranked.iter().map(|l| l.exchange.as_str()).collect();
    assert_eq!(names, vec!["X", "X", "X", "Y", "X"]);
    place(Side::Bid, &mut ranked, level(104.0, 1.0));
    assert_eq!(f64::from_bits(ranked[0].price), 104.0);
    place(Side::Bid, &mut ranked, level(98.0, 1.0));
    assert_eq!(f64::from_bits(ranked[6].price), 98.0);
    assert_eq!(ranked.len(), 7);

    let mut asks: Vec<Level> = Vec::new();
    place(Side::Ask, &mut asks, level(5.0, 1.0));
    place(Side::Ask, &mut asks, level(4.0, 1.0));
    place(Side::Ask, &mut asks, level(5.0, 3.0));
    let seen: Vec<(f64, f64)> =
        asks.iter().map(|l| (f64::from_bits(l.price), f64::from_bits(l.amount))).collect();
    assert_eq!(seen, vec![(4.0, 1.0), (5.0, 3.0), (5.0, 1.0)]);
}
