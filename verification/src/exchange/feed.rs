//! The client of one exchange's feed, as a state machine.
//!
//! The client itself does no input or output. Whoever drives it tells it what
//! happened, and it answers with what is to be done next: it goes from
//! disconnected to connecting, to subscribing where the exchange asks for it,
//! to streaming, and back to disconnected when the stream ends, for ever.

use vstd::prelude::*;
use crate::exchange::{ConvertError, Orderbook};
use crate::orderbook::{Summary, SummaryView};

verus! {

/// The seconds to wait after a connection could not be opened, unless the
/// policy says otherwise.
pub const CONNECT_BACKOFF_SECS: u64 = 5;

/// The seconds to wait after an open stream has ended, unless the policy says
/// otherwise.
pub const DISCONNECT_BACKOFF_SECS: u64 = 10;

/// The two fixed delays of a client. Neither grows with the number of tries.
#[derive(Clone, Copy, Debug, PartialEq, Eq, Structural)]
pub struct RetryPolicy {
    /// Seconds between a failed try to connect and the next try.
    pub connect_backoff_secs: u64,
    /// Seconds between the end of an open stream and the next try to connect.
    pub disconnect_backoff_secs: u64,
}

impl Default for RetryPolicy {
    fn default() -> (policy: RetryPolicy)
        ensures
            policy == (RetryPolicy {
                connect_backoff_secs: CONNECT_BACKOFF_SECS,
                disconnect_backoff_secs: DISCONNECT_BACKOFF_SECS,
            }),
    {
        RetryPolicy {
            connect_backoff_secs: CONNECT_BACKOFF_SECS,
            disconnect_backoff_secs: DISCONNECT_BACKOFF_SECS,
        }
    }
}

/// Where a client stands.
#[derive(Clone, Copy, Debug, PartialEq, Eq, Structural)]
pub enum FeedState {
    /// No connection, and none being opened.
    Disconnected,
    /// A connection is being opened.
    Connecting,
    /// The connection is open and the subscription is being sent.
    Subscribing,
    /// Frames are being read.
    Streaming,
}

/// One inbound frame, decoded as far as it goes.
#[derive(Debug)]
pub enum Frame {
    /// A frame that is no application text.
    Other,
    /// A frame of application text.
    Text {
        /// The event that the frame names, where it names one.
        event: Option<String>,
        /// The order book that the frame holds, where it holds one.
        book: Option<Orderbook>,
    },
}

/// What a [`Frame`] stands for in contracts.
pub enum FrameView {
    Other,
    Text { event: Option<Seq<char>>, book: Option<Orderbook> },
}

impl View for Frame {
    type V = FrameView;

    open spec fn view(&self) -> FrameView {
        match self {
            Frame::Other => FrameView::Other,
            Frame::Text { event, book } => FrameView::Text {
                event: match event {
                    Some(name) => Some(name@),
                    None => None,
                },
                book: *book,
            },
        }
    }
}

/// What happened to a client's connection.
#[derive(Debug)]
pub enum FeedEvent {
    /// It is time to connect: the client was started, or the delay that it asked
    /// for has passed.
    Due,
    /// The connection is open.
    Connected,
    /// The connection could not be opened.
    ConnectFailed,
    /// The subscription was sent.
    Subscribed,
    /// The subscription could not be sent.
    SubscribeFailed,
    /// A frame was read.
    Frame(Frame),
    /// The stream was closed or failed.
    Ended,
}

/// What a [`FeedEvent`] stands for in contracts.
pub enum FeedEventView {
    Due,
    Connected,
    ConnectFailed,
    Subscribed,
    SubscribeFailed,
    Frame(FrameView),
    Ended,
}

impl View for FeedEvent {
    type V = FeedEventView;

    open spec fn view(&self) -> FeedEventView {
        match self {
            FeedEvent::Due => FeedEventView::Due,
            FeedEvent::Connected => FeedEventView::Connected,
            FeedEvent::ConnectFailed => FeedEventView::ConnectFailed,
            FeedEvent::Subscribed => FeedEventView::Subscribed,
            FeedEvent::SubscribeFailed => FeedEventView::SubscribeFailed,
            FeedEvent::Frame(frame) => FeedEventView::Frame(frame@),
            FeedEvent::Ended => FeedEventView::Ended,
        }
    }
}

/// What is to be done next for a client.
#[derive(Debug)]
pub enum FeedAction {
    /// Open a connection to the client's endpoint.
    Connect,
    /// Send the client's subscription over the open connection.
    Subscribe,
    /// Read the next frame.
    Read,
    /// Hand this summary on to the merge engine, and then read the next frame.
    Deliver(Summary),
    /// The frame was dropped for this error: make it known, and read the next
    /// frame.
    Report(ConvertError),
    /// Wait for so many seconds; after them it is time to connect.
    Sleep(u64),
    /// Nothing: what happened does not belong to the state that the client is in.
    Nothing,
}

/// What a [`FeedAction`] stands for in contracts.
pub enum FeedActionView {
    Connect,
    Subscribe,
    Read,
    Deliver(SummaryView),
    Report(ConvertError),
    Sleep(u64),
    Nothing,
}

impl View for FeedAction {
    type V = FeedActionView;

    open spec fn view(&self) -> FeedActionView {
        match self {
            FeedAction::Connect => FeedActionView::Connect,
            FeedAction::Subscribe => FeedActionView::Subscribe,
            FeedAction::Read => FeedActionView::Read,
            FeedAction::Deliver(summary) => FeedActionView::Deliver(summary@),
            FeedAction::Report(error) => FeedActionView::Report(*error),
            FeedAction::Sleep(seconds) => FeedActionView::Sleep(*seconds),
            FeedAction::Nothing => FeedActionView::Nothing,
        }
    }
}

/// The client of one exchange's feed.
pub struct FeedClient {
    exchange: String,
    endpoint: String,
    subscription: Option<String>,
    book_event: Option<String>,
    policy: RetryPolicy,
    state: FeedState,
}

/// What a [`FeedClient`] stands for in contracts.
pub struct FeedClientView {
    /// The name that the client's summaries are tagged with.
    pub exchange: Seq<char>,
    /// The address that the client connects to.
    pub endpoint: Seq<char>,
    /// The message that the client sends once the connection is open, where the
    /// exchange asks for one.
    pub subscription: Option<Seq<char>>,
    /// The event that a frame must name to count as order book data, where the
    /// exchange sends frames of several kinds over one connection.
    pub book_event: Option<Seq<char>>,
    /// The delays between tries.
    pub policy: RetryPolicy,
    /// Where the client stands.
    pub state: FeedState,
}

/// The view of a text that may be missing.
pub open spec fn text_view(text: Option<String>) -> Option<Seq<char>> {
    match text {
        Some(text) => Some(text@),
        None => None,
    }
}

impl View for FeedClient {
    type V = FeedClientView;

    closed spec fn view(&self) -> FeedClientView {
        FeedClientView {
            exchange: self.exchange@,
            endpoint: self.endpoint@,
            subscription: text_view(self.subscription),
            book_event: text_view(self.book_event),
            policy: self.policy,
            state: self.state,
        }
    }
}

impl FeedClientView {
    /// What is to be done with a frame that was read while streaming.
    ///
    /// A frame that is no text is passed over, and so is one that names another
    /// event than the one for order book data, where the exchange names events,
    /// and one that holds no order book. An order book is converted: the summary
    /// is handed on, or the frame is dropped as a whole for the field that is no
    /// number.
    pub open spec fn frame_action(self, frame: FrameView) -> FeedActionView {
        match frame {
            FrameView::Other => FeedActionView::Read,
            FrameView::Text { event, book } => {
                if self.book_event is Some && event != self.book_event {
                    FeedActionView::Read
                } else {
                    match book {
                        None => FeedActionView::Read,
                        Some(book) => match book.normalized(self.exchange) {
                            Ok(summary) => FeedActionView::Deliver(summary),
                            Err(error) => FeedActionView::Report(error),
                        },
                    }
                }
            },
        }
    }

    /// The state that the client goes to when `event` happens, and what is to
    /// be done next.
    pub open spec fn next(self, event: FeedEventView) -> (FeedState, FeedActionView) {
        match (self.state, event) {
            (FeedState::Disconnected, FeedEventView::Due) => (
                FeedState::Connecting,
                FeedActionView::Connect,
            ),
            (FeedState::Connecting, FeedEventView::Connected) => {
                if self.subscription is Some {
                    (FeedState::Subscribing, FeedActionView::Subscribe)
                } else {
                    (FeedState::Streaming, FeedActionView::Read)
                }
            },
            (FeedState::Connecting, FeedEventView::ConnectFailed) => (
                FeedState::Disconnected,
                FeedActionView::Sleep(self.policy.connect_backoff_secs),
            ),
            (FeedState::Subscribing, FeedEventView::Subscribed) => (
                FeedState::Streaming,
                FeedActionView::Read,
            ),
            (FeedState::Subscribing, FeedEventView::SubscribeFailed) => (
                FeedState::Connecting,
                FeedActionView::Connect,
            ),
            (FeedState::Streaming, FeedEventView::Frame(frame)) => (
                FeedState::Streaming,
                self.frame_action(frame),
            ),
            (FeedState::Streaming, FeedEventView::Ended) => (
                FeedState::Disconnected,
                FeedActionView::Sleep(self.policy.disconnect_backoff_secs),
            ),
            _ => (self.state, FeedActionView::Nothing),
        }
    }

    /// The client after `event`: in the next state, and otherwise as it was.
    pub open spec fn after(self, event: FeedEventView) -> FeedClientView {
        FeedClientView { state: self.next(event).0, ..self }
    }
}

/// Parse failure isolation: a streaming client drops a frame whose order book
/// does not convert, hands nothing on from it, and stays streaming, ready for
/// the next frame.
pub proof fn lemma_unreadable_frame_is_dropped(
    client: FeedClientView,
    event: Option<Seq<char>>,
    book: Orderbook,
)
    requires
        client.state == FeedState::Streaming,
        client.book_event is None || event == client.book_event,
        book.normalized(client.exchange) is Err,
    ensures
        client.after(FeedEventView::Frame(FrameView::Text { event, book: Some(book) })).state
            == FeedState::Streaming,
        client.next(FeedEventView::Frame(FrameView::Text { event, book: Some(book) })).1
            == FeedActionView::Report(book.normalized(client.exchange)->Err_0),
{
}

/// While a client streams, no frame ends the stream: whatever is read, the
/// client goes on streaming.
pub proof fn lemma_frames_keep_streaming(client: FeedClientView, frame: FrameView)
    requires
        client.state == FeedState::Streaming,
    ensures
        client.after(FeedEventView::Frame(frame)).state == FeedState::Streaming,
        client.next(FeedEventView::Frame(frame)).1 !is Nothing,
        client.next(FeedEventView::Frame(frame)).1 !is Sleep,
        client.next(FeedEventView::Frame(frame)).1 !is Connect,
        client.next(FeedEventView::Frame(frame)).1 !is Subscribe,
{
}

/// A client never comes to rest: whatever happens, it is in one of its four
/// states afterwards, and from each of them something can happen that moves
/// it on.
pub proof fn lemma_no_terminal_state(client: FeedClientView)
    ensures
        exists|event: FeedEventView| #[trigger] client.next(event).1 !is Nothing,
{
    match client.state {
        FeedState::Disconnected => {
            assert(client.next(FeedEventView::Due).1 is Connect);
        },
        FeedState::Connecting => {
            assert(client.next(FeedEventView::ConnectFailed).1 is Sleep);
        },
        FeedState::Subscribing => {
            assert(client.next(FeedEventView::Subscribed).1 is Read);
        },
        FeedState::Streaming => {
            assert(client.next(FeedEventView::Ended).1 is Sleep);
        },
    }
}

impl FeedClient {
    /// A disconnected client for the exchange named `exchange`, with the default
    /// delays.
    pub fn new(
        exchange: String,
        endpoint: String,
        subscription: Option<String>,
        book_event: Option<String>,
    ) -> (client: FeedClient)
        ensures
            client@ == (FeedClientView {
                exchange: exchange@,
                endpoint: endpoint@,
                subscription: text_view(subscription),
                book_event: text_view(book_event),
                policy: RetryPolicy {
                    connect_backoff_secs: CONNECT_BACKOFF_SECS,
                    disconnect_backoff_secs: DISCONNECT_BACKOFF_SECS,
                },
                state: FeedState::Disconnected,
            }),
    {
        FeedClient {
            exchange,
            endpoint,
            subscription,
            book_event,
            policy: RetryPolicy::default(),
            state: FeedState::Disconnected,
        }
    }

    /// The same client with other delays.
    pub fn with_policy(self, policy: RetryPolicy) -> (client: FeedClient)
        ensures
            client@ == (FeedClientView { policy, ..self@ }),
    {
        FeedClient { policy, ..self }
    }

    /// The name that the client's summaries are tagged with.
    pub fn exchange(&self) -> (name: &str)
        ensures
            name@ == self@.exchange,
    {
        self.exchange.as_str()
    }

    /// The address that the client connects to.
    pub fn endpoint(&self) -> (address: &str)
        ensures
            address@ == self@.endpoint,
    {
        self.endpoint.as_str()
    }

    /// The message that the client sends once the connection is open, where the
    /// exchange asks for one.
    pub fn subscription(&self) -> (message: Option<&str>)
        ensures
            match message {
                Some(text) => self@.subscription == Some(text@),
                None => self@.subscription is None,
            },
    {
        match &self.subscription {
            Some(text) => Some(text.as_str()),
            None => None,
        }
    }

    /// The delays between tries.
    pub fn policy(&self) -> (policy: RetryPolicy)
        ensures
            policy == self@.policy,
    {
        self.policy
    }

    /// Where the client stands.
    pub fn state(&self) -> (state: FeedState)
        ensures
            state == self@.state,
    {
        self.state
    }

    /// Whether a text frame that names `event` counts as order book data.
    fn admits(&self, event: &Option<String>) -> (admitted: bool)
        ensures
            admitted == !(self@.book_event is Some && text_view(*event) != self@.book_event),
    {
        match &self.book_event {
            None => true,
            Some(wanted) => match event {
                Some(named) => *named == *wanted,
                None => false,
            },
        }
    }

    /// Decides what is to be done with a frame that was read while streaming.
    fn on_frame(&self, frame: Frame) -> (action: FeedAction)
        ensures
            action@ == self@.frame_action(frame@),
    {
        match frame {
            Frame::Other => FeedAction::Read,
            Frame::Text { event, book } => {
                if !self.admits(&event) {
                    FeedAction::Read
                } else {
                    match book {
                        None => FeedAction::Read,
                        Some(book) => match book.convert(self.exchange.as_str()) {
                            Ok(summary) => FeedAction::Deliver(summary),
                            Err(error) => FeedAction::Report(error),
                        },
                    }
                }
            },
        }
    }

    /// Takes in what happened and says what is to be done next.
    ///
    /// Only the state changes. What does not belong to the state that the client
    /// is in changes nothing and asks for nothing.
    pub fn step(&mut self, event: FeedEvent) -> (action: FeedAction)
        ensures
            final(self)@ == old(self)@.after(event@),
            action@ == old(self)@.next(event@).1,
    {
        match (self.state, event) {
            (FeedState::Disconnected, FeedEvent::Due) => {
                self.state = FeedState::Connecting;
                FeedAction::Connect
            },
            (FeedState::Connecting, FeedEvent::Connected) => {
                if self.subscription.is_some() {
                    self.state = FeedState::Subscribing;
                    FeedAction::Subscribe
                } else {
                    self.state = FeedState::Streaming;
                    FeedAction::Read
                }
            },
            (FeedState::Connecting, FeedEvent::ConnectFailed) => {
                self.state = FeedState::Disconnected;
                FeedAction::Sleep(self.policy.connect_backoff_secs)
            },
            (FeedState::Subscribing, FeedEvent::Subscribed) => {
                self.state = FeedState::Streaming;
                FeedAction::Read
            },
            (FeedState::Subscribing, FeedEvent::SubscribeFailed) => {
                self.state = FeedState::Connecting;
                FeedAction::Connect
            },
            (FeedState::Streaming, FeedEvent::Frame(frame)) => self.on_frame(frame),
            (FeedState::Streaming, FeedEvent::Ended) => {
                self.state = FeedState::Disconnected;
                FeedAction::Sleep(self.policy.disconnect_backoff_secs)
            },
            _ => FeedAction::Nothing,
        }
    }
}

} // verus!
