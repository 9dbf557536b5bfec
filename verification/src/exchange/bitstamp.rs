//! The Bitstamp dialect: after connecting, the client subscribes to the order
//! book channel of its symbol; frames of several kinds then come over the one
//! connection, and those that name the event `data` hold an order book.

use vstd::prelude::*;
use vstd::string::StringExecFns;
use crate::exchange::feed::{
    FeedClient, FeedClientView, FeedState, RetryPolicy, CONNECT_BACKOFF_SECS,
    DISCONNECT_BACKOFF_SECS,
};

verus! {

/// The Bitstamp feed.
#[derive(Debug)]
pub struct BitstampExchange {}

impl BitstampExchange {
    /// The name that summaries of this exchange are tagged with.
    pub open spec fn name() -> Seq<char> {
        "BITSTAMP"@
    }

    /// The event that a frame with an order book names.
    pub open spec fn book_event() -> Seq<char> {
        "data"@
    }

    /// The message that subscribes to the order book channel of `symbol`.
    pub open spec fn subscription_of(symbol: Seq<char>) -> Seq<char> {
        "{\"event\":\"bts:subscribe\",\"data\":{\"channel\":\"order_book_"@ + symbol + "\"}}"@
    }

    /// Composes the message that subscribes to the order book channel of
    /// `symbol`.
    pub fn subscription(symbol: &str) -> (message: String)
        ensures
            message@ == Self::subscription_of(symbol@),
    {
        let mut message = "{\"event\":\"bts:subscribe\",\"data\":{\"channel\":\"order_book_".to_owned();
        message.append(symbol);
        message.append("\"}}");
        message
    }

    /// A client for the order book of `symbol` at the address `url`:
    /// disconnected, with the subscription for the symbol, taking the frames
    /// that name the event for order book data, with the default delays.
    pub fn start(symbol: String, url: String) -> (client: FeedClient)
        ensures
            client@ == (FeedClientView {
                exchange: Self::name(),
                endpoint: url@,
                subscription: Some(Self::subscription_of(symbol@)),
                book_event: Some(Self::book_event()),
                policy: RetryPolicy {
                    connect_backoff_secs: CONNECT_BACKOFF_SECS,
                    disconnect_backoff_secs: DISCONNECT_BACKOFF_SECS,
                },
                state: FeedState::Disconnected,
            }),
    {
        let message = Self::subscription(symbol.as_str());
        FeedClient::new("BITSTAMP".to_owned(), url, Some(message), Some("data".to_owned()))
    }
}

} // verus!
