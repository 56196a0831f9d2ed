use vstd::prelude::*;

verus! {

/// A named category of feed data.
#[derive(Debug, Clone, Copy, PartialEq, Eq, Hash, Structural)]
pub enum ChannelType {
    Heartbeat,
    Status,
    Ticker,
    Level2,
    User,
    Matches,
    Full,
}

/// One logical feed: a channel kind together with the instrument it covers.
#[derive(Debug, Clone, Eq, Hash)]
pub enum CoinbaseSubscription {
    Heartbeat(String),
    Level2(String),
    Matches(String),
}

impl View for CoinbaseSubscription {
    type V = (ChannelType, Seq<char>);

    open spec fn view(&self) -> (ChannelType, Seq<char>) {
        match self {
            CoinbaseSubscription::Heartbeat(p) => (ChannelType::Heartbeat, p@),
            CoinbaseSubscription::Level2(p) => (ChannelType::Level2, p@),
            CoinbaseSubscription::Matches(p) => (ChannelType::Matches, p@),
        }
    }
}

impl CoinbaseSubscription {
    /// The channel this subscription listens on.
    pub fn channel(&self) -> (r: ChannelType)
        ensures
            r == self@.0,
    {
        match self {
            CoinbaseSubscription::Heartbeat(_) => ChannelType::Heartbeat,
            CoinbaseSubscription::Level2(_) => ChannelType::Level2,
            CoinbaseSubscription::Matches(_) => ChannelType::Matches,
        }
    }

    /// The instrument this subscription covers.
    pub fn product_id(&self) -> (r: &String)
        ensures
            r@ == self@.1,
    {
        match self {
            CoinbaseSubscription::Heartbeat(p) => p,
            CoinbaseSubscription::Level2(p) => p,
            CoinbaseSubscription::Matches(p) => p,
        }
    }
}

impl PartialEq for CoinbaseSubscription {
    fn eq(&self, o: &CoinbaseSubscription) -> (r: bool) {
        let same_channel = self.channel() == o.channel();
        let a: &String = self.product_id();
        let b: &String = o.product_id();
        same_channel && a.eq(b)
    }
}

impl vstd::std_specs::cmp::PartialEqSpecImpl for CoinbaseSubscription {
    open spec fn obeys_eq_spec() -> bool {
        true
    }

    open spec fn eq_spec(&self, o: &CoinbaseSubscription) -> bool {
        self@ == o@
    }
}


/// The two ends a client can talk to.
#[derive(Debug, Clone, Copy, PartialEq, Eq, Hash, Structural)]
pub enum Environment {
    Production,
    Sandbox,
}

/// What a websocket session is created with.
#[derive(Debug, Clone, Copy, PartialEq, Eq, Structural)]
pub struct CoinbaseParameters {
    pub environment: Environment,
}

/// The views of a list of instrument identifiers.
pub open spec fn ids_view(ids: Seq<String>) -> Seq<Seq<char>> {
    ids.map_values(|s: String| s@)
}

/// A channel descriptor: a bare channel name, or a name with the
/// instruments it is restricted to.
#[derive(Debug, Clone, PartialEq, Eq)]
pub enum Channel {
    Name(ChannelType),
    WithProduct { name: ChannelType, product_ids: Vec<String> },
}

impl View for Channel {
    type V = (ChannelType, Option<Seq<Seq<char>>>);

    open spec fn view(&self) -> (ChannelType, Option<Seq<Seq<char>>>) {
        match self {
            Channel::Name(t) => (*t, None),
            Channel::WithProduct { name, product_ids } => (*name, Some(ids_view(product_ids@))),
        }
    }
}

/// The views of a list of channel descriptors.
pub open spec fn channels_view(cs: Seq<Channel>) -> Seq<(ChannelType, Option<Seq<Seq<char>>>)> {
    cs.map_values(|c: Channel| c@)
}

/// The command word of an outbound request.
#[derive(Debug, Clone, Copy, PartialEq, Eq, Structural)]
pub enum SubscribeCmd {
    Subscribe,
}

/// The signed authentication block an authenticated subscribe carries.
#[derive(Debug, Clone, PartialEq, Eq)]
pub struct Auth {
    pub signature: String,
    pub key: String,
    pub passphrase: String,
    pub timestamp: String,
}

/// An outbound subscribe request.
#[derive(Debug, Clone, PartialEq, Eq)]
pub struct Subscribe {
    pub _type: SubscribeCmd,
    pub channels: Vec<Channel>,
    pub product_ids: Vec<String>,
    pub auth: Option<Auth>,
}

#[verifier::external_type_specification]
#[verifier::external_body]
pub struct ExDecimal(rust_decimal::Decimal);

/// Relies on rust_decimal's derived `Clone` for `Decimal`, a `Copy` type:
/// the clone is the value itself.
pub assume_specification[ <rust_decimal::Decimal as Clone>::clone ](d: &rust_decimal::Decimal) -> (r: rust_decimal::Decimal)
    ensures
        r == *d,
;

/// The side of the book an order rests on.
#[derive(Debug, Clone, Copy, PartialEq, Eq, Hash, Structural)]
pub enum OrderSide {
    Buy,
    Sell,
}

/// One price level of a level-2 snapshot.
#[derive(Debug, Clone, PartialEq)]
pub struct Level2SnapshotRecord {
    pub price: rust_decimal::Decimal,
    pub size: rust_decimal::Decimal,
}

/// One changed price level of a level-2 update.
#[derive(Debug, Clone, PartialEq)]
pub struct Level2UpdateRecord {
    pub side: OrderSide,
    pub price: rust_decimal::Decimal,
    pub size: rust_decimal::Decimal,
}

/// Order-book data: a full snapshot, or an incremental update.
#[derive(Debug, Clone, PartialEq)]
pub enum Level2 {
    Snapshot {
        product_id: String,
        bids: Vec<Level2SnapshotRecord>,
        asks: Vec<Level2SnapshotRecord>,
    },
    L2update { product_id: String, changes: Vec<Level2UpdateRecord> },
}

/// A trade between a maker and a taker order.
#[derive(Debug, Clone, PartialEq)]
pub struct Match {
    pub trade_id: u64,
    pub sequence: u64,
    pub maker_order_id: String,
    pub taker_order_id: String,
    pub time: String,
    pub product_id: String,
    pub size: rust_decimal::Decimal,
    pub price: rust_decimal::Decimal,
    pub side: OrderSide,
}

/// A decoded message of the feed.
#[derive(Debug, Clone, PartialEq)]
pub enum CoinbaseWebsocketMessage {
    /// The acknowledgment of a subscribe request, echoing what is now live.
    Subscriptions { channels: Vec<Channel> },
    Heartbeat { sequence: u64, last_trade_id: u64, product_id: String, time: String },
    Level2(Level2),
    Match(Match),
    Error { message: String },
}

/// One frame as it comes off a socket.
#[derive(Debug, Clone, PartialEq, Eq)]
pub enum Frame {
    Text(String),
    Binary(Vec<u8>),
    Ping(Vec<u8>),
    Pong(Vec<u8>),
    Close,
}

/// Everything that can go wrong in a streaming session.
#[derive(Debug, Clone, PartialEq)]
pub enum StreamError {
    /// The socket could not be opened.
    ConnectionError(String),
    /// Sending or receiving on an open socket failed.
    TransportError(String),
    /// A frame other than text reached the decoder.
    UnexpectedFrameKind,
    /// A text frame did not hold any known message.
    MalformedPayload(String),
    /// A subscribe command named no channel.
    EncodingError,
    /// The socket closed before the acknowledgment came.
    NoResponse,
    /// The acknowledgment did not echo what was requested.
    HandshakeMismatch { expected: CoinbaseWebsocketMessage, actual: CoinbaseWebsocketMessage },
}

/// A time window for historic queries, as ISO 8601 text.
#[derive(Debug, Clone, PartialEq, Eq)]
pub struct DateRange {
    pub start: Option<String>,
    pub end: Option<String>,
}

/// The parameters of a candle request.
#[derive(Debug, Clone, PartialEq, Eq)]
pub struct CandleRequestParams {
    pub daterange: Option<DateRange>,
    pub granularity: Option<u32>,
}

} // verus!
