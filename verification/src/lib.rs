//! Aggregation of top-of-book quotes from two exchange feeds into one ranked,
//! depth-limited order book.
//!
//! Prices and quantities are IEEE-754 binary64 numbers. The verified code never
//! computes with them: it carries each number as its 64-bit pattern and orders
//! patterns by the IEEE total order, which is plain integer arithmetic.

pub mod exchange;
pub mod fanout;
pub mod merger;
pub mod orderbook;
pub mod ranking;
pub mod total_order;
