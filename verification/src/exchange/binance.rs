//! The Binance dialect: the order book comes as soon as the connection to the
//! symbol's depth stream is open, one frame for each book, with no handshake.

use vstd::prelude::*;
use vstd::string::StringExecFns;
use crate::exchange::feed::{
    FeedClient, FeedClientView, FeedState, RetryPolicy, CONNECT_BACKOFF_SECS,
    DISCONNECT_BACKOFF_SECS,
};

verus! {

/// The Binance feed.
#[derive(Debug)]
pub struct BinanceExchange {}

impl BinanceExchange {
    /// The name that summaries of this exchange are tagged with.
    pub open spec fn name() -> Seq<char> {
        "BINANCE"@
    }

    /// The address of the depth stream of `symbol` under the base address `url`:
    /// the ten best levels of each side, sent every 100 milliseconds.
    pub open spec fn endpoint_of(symbol: Seq<char>, url: Seq<char>) -> Seq<char> {
        url + "/ws/"@ + symbol + "@depth10@100ms"@
    }

    /// Composes the address of the depth stream of `symbol`.
    pub fn endpoint(symbol: &str, url: String) -> (address: String)
        ensures
            address@ == Self::endpoint_of(symbol@, url@),
    {
        let mut address = url;
        address.append("/ws/");
        address.append(symbol);
        address.append("@depth10@100ms");
        address
    }

    /// A client for the order book of `symbol` at the base address `url`:
    /// disconnected, without a subscription, taking every frame that holds an
    /// order book, with the default delays.
    pub fn start(symbol: String, url: String) -> (client: FeedClient)
        ensures
            client@ == (FeedClientView {
                exchange: Self::name(),
                endpoint: Self::endpoint_of(symbol@, url@),
                subscription: None,
                book_event: None,
                policy: RetryPolicy {
                    connect_backoff_secs: CONNECT_BACKOFF_SECS,
                    disconnect_backoff_secs: DISCONNECT_BACKOFF_SECS,
                },
                state: FeedState::Disconnected,
            }),
    {
        let address = Self::endpoint(symbol.as_str(), url);
        FeedClient::new("BINANCE".to_owned(), address, None, None)
    }
}

} // verus!
