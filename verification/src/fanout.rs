//! The fan-out point between a producer of summaries and those who listen to
//! it: what a listener is handed, and what a subscriber's stream does with it.
//!
//! The fan-out itself keeps only the latest values, so a listener that falls
//! behind misses the older ones and is told so.

use vstd::prelude::*;
use crate::orderbook::{Summary, SummaryView};

verus! {

/// The number of values that the fan-out point keeps for a listener that has
/// not picked them up yet: the latest one only.
pub const PENDING: usize = 1;

/// What a listener was handed.
#[derive(Debug)]
pub enum Received {
    /// A new summary.
    Update(Summary),
    /// Summaries were dropped because the listener did not take them in time.
    Lagged,
    /// Nothing will come any more.
    Closed,
}

/// What a [`Received`] stands for in contracts.
pub enum ReceivedView {
    Update(SummaryView),
    Lagged,
    Closed,
}

impl View for Received {
    type V = ReceivedView;

    open spec fn view(&self) -> ReceivedView {
        match self {
            Received::Update(summary) => ReceivedView::Update(summary@),
            Received::Lagged => ReceivedView::Lagged,
            Received::Closed => ReceivedView::Closed,
        }
    }
}

/// What a subscriber's stream does next.
#[derive(Debug)]
pub enum Relay {
    /// Sends this summary to the subscriber.
    Send(Summary),
    /// Sends nothing and waits for the next value.
    Skip,
    /// Ends the stream.
    End,
}

/// What a [`Relay`] stands for in contracts.
pub enum RelayView {
    Send(SummaryView),
    Skip,
    End,
}

impl View for Relay {
    type V = RelayView;

    open spec fn view(&self) -> RelayView {
        match self {
            Relay::Send(summary) => RelayView::Send(summary@),
            Relay::Skip => RelayView::Skip,
            Relay::End => RelayView::End,
        }
    }
}

/// What a subscriber's stream does with `received`: a summary goes out as it
/// is, a lag is no error and the stream goes on with the next value, and the
/// stream ends when nothing will come any more.
pub open spec fn relay_of(received: ReceivedView) -> RelayView {
    match received {
        ReceivedView::Update(summary) => RelayView::Send(summary),
        ReceivedView::Lagged => RelayView::Skip,
        ReceivedView::Closed => RelayView::End,
    }
}

/// Decides what a subscriber's stream does with what it was handed.
pub fn relay(received: Received) -> (next: Relay)
    ensures
        next@ == relay_of(received@),
{
    match received {
        Received::Update(summary) => Relay::Send(summary),
        Received::Lagged => Relay::Skip,
        Received::Closed => Relay::End,
    }
}

} // verus!
