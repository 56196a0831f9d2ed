//! A streaming client core for the Coinbase market-data websocket feed:
//! the wire codec for subscribe commands, the subscribe/acknowledge
//! handshake, the multiplexer that merges many subscription streams into
//! one, and the registry that tears every socket down at once.

pub mod codec;
pub mod handshake;
pub mod model;
pub mod stream;

pub use codec::{array_text, channel_name, encode, frame_text};
pub use handshake::{
    endpoint, expected_acknowledgment, is_acknowledgment, subscribe_command, Handshake,
    WS_URL_PROD, WS_URL_SANDBOX,
};
pub use model::{
    Auth, CandleRequestParams, Channel, ChannelType, CoinbaseParameters, CoinbaseSubscription,
    CoinbaseWebsocketMessage, DateRange, Environment, Frame, Level2, Level2SnapshotRecord,
    Level2UpdateRecord, Match, OrderSide, StreamError, Subscribe, SubscribeCmd,
};
pub use stream::{CoinbaseWebsocket, EntryPoll, PollStep};
