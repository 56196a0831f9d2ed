use vstd::prelude::*;

use crate::codec::{channel_text, channel_texts, encode, json_array, json_string_of, quoted_all, subscribe_text};
use crate::model::{
    channels_view, ids_view, Channel, ChannelType, CoinbaseSubscription,
    CoinbaseWebsocketMessage, Environment, StreamError, Subscribe, SubscribeCmd,
};

verus! {

/// The production feed.
pub const WS_URL_PROD: &'static str = "wss://ws-feed.exchange.coinbase.com";

/// The sandbox feed.
pub const WS_URL_SANDBOX: &'static str = "wss://ws-feed-public.sandbox.exchange.coinbase.com";

/// The feed address of an environment.
pub open spec fn endpoint_spec(env: Environment) -> Seq<char> {
    match env {
        Environment::Sandbox => WS_URL_SANDBOX@,
        Environment::Production => WS_URL_PROD@,
    }
}

/// The feed address of an environment.
pub fn endpoint(env: Environment) -> (r: &'static str)
    ensures
        r@ == endpoint_spec(env),
{
    match env {
        Environment::Sandbox => WS_URL_SANDBOX,
        Environment::Production => WS_URL_PROD,
    }
}

/// The subscribe command for one subscription: its channel by name, and its
/// instrument.
pub open spec fn command_of(sub: (ChannelType, Seq<char>), cmd: Subscribe) -> bool {
    &&& cmd._type == SubscribeCmd::Subscribe
    &&& channels_view(cmd.channels@) == seq![(sub.0, None::<Seq<Seq<char>>>)]
    &&& ids_view(cmd.product_ids@) == seq![sub.1]
    &&& cmd.auth is None
}

/// The wire text of the subscribe request for one subscription: its
/// channel by name, and its instrument.
pub open spec fn request_text(sub: (ChannelType, Seq<char>)) -> Seq<char> {
    "{\"type\":\"subscribe\",\"channels\":"@ + json_array(seq![channel_text((sub.0, None))])
        + ",\"product_ids\":"@ + json_array(seq![json_string_of(sub.1)]) + "}"@
}

/// The subscribe command for a subscription is written as its request text.
pub proof fn lemma_command_text(sub: (ChannelType, Seq<char>), cmd: Subscribe)
    requires
        command_of(sub, cmd),
    ensures
        subscribe_text(cmd) == request_text(sub),
{
    assert(channel_texts(cmd.channels@) =~= seq![channel_text((sub.0, None))]);
    assert(quoted_all(ids_view(cmd.product_ids@)) =~= seq![json_string_of(sub.1)]);
    let head = "{\"type\":\"subscribe\",\"channels\":"@ + json_array(seq![channel_text((sub.0, None))])
        + ",\"product_ids\":"@ + json_array(seq![json_string_of(sub.1)]);
    assert(head + Seq::<char>::empty() =~= head);
}

/// The channel set an acknowledgment must echo for a subscription: its
/// channel, restricted to exactly its instrument.
pub open spec fn echo_of(sub: (ChannelType, Seq<char>)) -> Seq<(ChannelType, Option<Seq<Seq<char>>>)> {
    seq![(sub.0, Some(seq![sub.1]))]
}

/// Whether a message acknowledges exactly the given subscription.
pub open spec fn acknowledges(msg: CoinbaseWebsocketMessage, sub: (ChannelType, Seq<char>)) -> bool {
    match msg {
        CoinbaseWebsocketMessage::Subscriptions { channels } => channels_view(channels@) == echo_of(sub),
        _ => false,
    }
}

/// Whether the first response of a handshake makes the subscription live.
pub open spec fn accepted(
    response: Option<Result<CoinbaseWebsocketMessage, StreamError>>,
    sub: (ChannelType, Seq<char>),
) -> bool {
    match response {
        Some(Ok(m)) => acknowledges(m, sub),
        _ => false,
    }
}

/// Whether a handshake result is the mismatch error for a response, which
/// carries that response and the acknowledgment that was due.
pub open spec fn reports_mismatch(
    r: Result<CoinbaseSubscription, StreamError>,
    actual: CoinbaseWebsocketMessage,
    sub: (ChannelType, Seq<char>),
) -> bool {
    match r {
        Err(StreamError::HandshakeMismatch { expected, actual: got }) => got == actual
            && acknowledges(expected, sub),
        _ => false,
    }
}

/// The channel set a peer reports when it echoes a subscribe command: each
/// channel, restricted to the instruments the command names for it, or to
/// the command's own instruments where it names none.
pub open spec fn echo_of_command(cmd: Subscribe) -> Seq<(ChannelType, Option<Seq<Seq<char>>>)> {
    channels_view(cmd.channels@).map_values(
        |c: (ChannelType, Option<Seq<Seq<char>>>)|
            match c.1 {
                None => (c.0, Some(ids_view(cmd.product_ids@))),
                Some(ids) => (c.0, Some(ids)),
            },
    )
}

/// A peer that echoes the channels and instruments of the subscribe command
/// for a subscription acknowledges exactly that subscription.
pub proof fn lemma_echo_acknowledges(sub: CoinbaseSubscription, cmd: Subscribe, channels: Vec<Channel>)
    requires
        command_of(sub@, cmd),
        channels_view(channels@) == echo_of_command(cmd),
    ensures
        acknowledges(CoinbaseWebsocketMessage::Subscriptions { channels }, sub@),
{
    assert(channels_view(cmd.channels@)[0] == (sub@.0, None::<Seq<Seq<char>>>));
    assert(echo_of_command(cmd) =~= echo_of(sub@));
}

/// Builds the subscribe command for one subscription.
pub fn subscribe_command(sub: &CoinbaseSubscription) -> (r: Subscribe)
    ensures
        command_of(sub@, r),
{
    let mut channels: Vec<Channel> = Vec::new();
    channels.push(Channel::Name(sub.channel()));
    let mut product_ids: Vec<String> = Vec::new();
    product_ids.push(sub.product_id().clone());
    let r = Subscribe { _type: SubscribeCmd::Subscribe, channels, product_ids, auth: None };
    assert(channels_view(r.channels@) =~= seq![(sub@.0, None::<Seq<Seq<char>>>)]);
    assert(ids_view(r.product_ids@) =~= seq![sub@.1]);
    r
}

/// The acknowledgment that a subscription must receive.
pub fn expected_acknowledgment(sub: &CoinbaseSubscription) -> (r: CoinbaseWebsocketMessage)
    ensures
        acknowledges(r, sub@),
{
    let mut product_ids: Vec<String> = Vec::new();
    product_ids.push(sub.product_id().clone());
    let mut channels: Vec<Channel> = Vec::new();
    channels.push(Channel::WithProduct { name: sub.channel(), product_ids });
    assert(ids_view(channels@[0]->product_ids@) =~= seq![sub@.1]);
    assert(channels_view(channels@) =~= echo_of(sub@));
    CoinbaseWebsocketMessage::Subscriptions { channels }
}

/// Whether a message acknowledges exactly the given subscription.
pub fn is_acknowledgment(msg: &CoinbaseWebsocketMessage, sub: &CoinbaseSubscription) -> (r: bool)
    ensures
        r == acknowledges(*msg, sub@),
{
    match msg {
        CoinbaseWebsocketMessage::Subscriptions { channels } => {
            if channels.len() != 1 {
                assert(channels_view(channels@).len() != echo_of(sub@).len());
                return false;
            }
            match &channels[0] {
                Channel::Name(_) => {
                    assert(channels_view(channels@)[0] != echo_of(sub@)[0]);
                    false
                },
                Channel::WithProduct { name, product_ids } => {
                    let ghost c = channels_view(channels@);
                    if *name != sub.channel() || product_ids.len() != 1 {
                        assert(ids_view(product_ids@).len() == product_ids@.len());
                        assert(c[0] != echo_of(sub@)[0]);
                        return false;
                    }
                    let same = product_ids[0].eq(sub.product_id());
                    if same {
                        assert(ids_view(product_ids@) =~= seq![sub@.1]);
                        assert(c =~= echo_of(sub@));
                    } else {
                        assert(ids_view(product_ids@)[0] != seq![sub@.1][0]);
                        assert(c[0] != echo_of(sub@)[0]);
                    }
                    same
                },
            }
        },
        _ => false,
    }
}

/// A subscription whose subscribe request is written but not yet
/// acknowledged.
pub struct Handshake {
    subscription: CoinbaseSubscription,
    request: String,
}

impl Handshake {
    /// The subscription being established.
    pub closed spec fn subscription_spec(&self) -> CoinbaseSubscription {
        self.subscription
    }

    /// The text of its subscribe request.
    pub closed spec fn request_spec(&self) -> Seq<char> {
        self.request@
    }

    /// Starts the handshake of one subscription.
    pub fn new(subscription: CoinbaseSubscription) -> (r: Handshake)
        ensures
            r.subscription_spec() == subscription,
            r.request_spec() == request_text(subscription@),
    {
        let cmd = subscribe_command(&subscription);
        assert(channels_view(cmd.channels@).len() == cmd.channels@.len());
        let request = match encode(&cmd) {
            Ok(t) => {
                proof {
                    lemma_command_text(subscription@, cmd);
                }
                t
            },
            Err(_) => {
                assert(false);
                String::new()
            },
        };
        Handshake { subscription, request }
    }

    /// The subscription being established.
    pub fn subscription(&self) -> (r: &CoinbaseSubscription)
        ensures
            *r == self.subscription_spec(),
    {
        &self.subscription
    }

    /// The text frame to send on the new socket.
    pub fn request(&self) -> (r: &String)
        ensures
            r@ == self.request_spec(),
    {
        &self.request
    }

    /// Judges the first response read from the socket (`None` where the
    /// socket ended first). The subscription is live exactly when that
    /// response is an acknowledgment that echoes it.
    pub fn complete(self, response: Option<Result<CoinbaseWebsocketMessage, StreamError>>) -> (r:
        Result<CoinbaseSubscription, StreamError>)
        ensures
            r is Ok <==> accepted(response, self.subscription_spec()@),
            r matches Ok(s) ==> s == self.subscription_spec(),
            response is None ==> r matches Err(StreamError::NoResponse),
            response matches Some(Err(e)) ==> r == Err::<CoinbaseSubscription, StreamError>(e),
            response matches Some(Ok(m)) ==> (!acknowledges(m, self.subscription_spec()@)
                ==> reports_mismatch(r, m, self.subscription_spec()@)),
    {
        match response {
            None => Err(StreamError::NoResponse),
            Some(Err(e)) => Err(e),
            Some(Ok(actual)) => {
                if is_acknowledgment(&actual, &self.subscription) {
                    Ok(self.subscription)
                } else {
                    let expected = expected_acknowledgment(&self.subscription);
                    Err(StreamError::HandshakeMismatch { expected, actual })
                }
            },
        }
    }
}

} // verus!
