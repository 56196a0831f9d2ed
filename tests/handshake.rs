use ecbt_coinbase::{
    encode, endpoint, expected_acknowledgment, is_acknowledgment, subscribe_command, Channel,
    ChannelType, CoinbaseSubscription, CoinbaseWebsocketMessage, Environment, Handshake,
    StreamError, WS_URL_PROD, WS_URL_SANDBOX,
};

fn ack(name: ChannelType, ids: &[&str]) -> CoinbaseWebsocketMessage {
    CoinbaseWebsocketMessage::Subscriptions {
        channels: vec![Channel::WithProduct {
            name,
            product_ids: ids.iter().map(|s| s.to_string()).collect(),
        }],
    }
}

fn trades(id: &str) -> CoinbaseSubscription {
    CoinbaseSubscription::Matches(id.to_string())
}

#[test]
fn endpoints_by_environment() {
    assert_eq!(endpoint(Environment::Production), WS_URL_PROD);
    assert_eq!(endpoint(Environment::Sandbox), WS_URL_SANDBOX);
    assert_eq!(endpoint(Environment::Production), "wss://ws-feed.exchange.coinbase.com");
}

#[test]
fn handshake_request_is_the_encoded_command() {
    let h = Handshake::new(trades("X"));
    assert_eq!(h.subscription(), &trades("X"));
    assert_eq!(
        h.request(),
        r#"{"type":"subscribe","channels":["matches"],"product_ids":["X"]}"#
    );
}

#[test]
fn exact_echo_makes_the_subscription_live() {
    let h = Handshake::new(trades("X"));
    let r = h.complete(Some(Ok(ack(ChannelType::Matches, &["X"]))));
    assert_eq!(r, Ok(trades("X")));
}

#[test]
fn echo_of_another_instrument_is_a_mismatch() {
    let h = Handshake::new(trades("X"));
    let r = h.complete(Some(Ok(ack(ChannelType::Matches, &["Y"]))));
    match &r {
        Err(StreamError::HandshakeMismatch { expected, actual }) => {
            assert_eq!(expected, &ack(ChannelType::Matches, &["X"]));
            assert_eq!(actual, &ack(ChannelType::Matches, &["Y"]));
        }
        other => panic!("unexpected result {:?}", other),
    }
    let text = format!("{:?}", r);
    assert!(text.contains("\"X\""));
    assert!(text.contains("\"Y\""));
}

#[test]
fn mismatches_of_every_shape_fail() {
    let sub = trades("X");
    let wrong = vec![
        ack(ChannelType::Heartbeat, &["X"]),
        ack(ChannelType::Matches, &["X", "Y"]),
        ack(ChannelType::Matches, &[]),
        CoinbaseWebsocketMessage::Subscriptions {
            channels: vec![
                Channel::WithProduct { name: ChannelType::Matches, product_ids: vec!["X".to_string()] },
                Channel::WithProduct { name: ChannelType::Level2, product_ids: vec!["X".to_string()] },
            ],
        },
        CoinbaseWebsocketMessage::Subscriptions { channels: vec![] },
        CoinbaseWebsocketMessage::Subscriptions { channels: vec![Channel::Name(ChannelType::Matches)] },
        CoinbaseWebsocketMessage::Error { message: "X".to_string() },
    ];
    for m in wrong {
        assert!(!is_acknowledgment(&m, &sub));
        let r = Handshake::new(sub.clone()).complete(Some(Ok(m.clone())));
        match r {
            Err(StreamError::HandshakeMismatch { expected, actual }) => {
                assert_eq!(actual, m);
                assert_eq!(expected, expected_acknowledgment(&sub));
            }
            other => panic!("unexpected result {:?}", other),
        }
    }
    assert!(is_acknowledgment(&expected_acknowledgment(&sub), &sub));
}

#[test]
fn missing_or_undecodable_response_fails() {
    let r = Handshake::new(trades("X")).complete(None);
    assert_eq!(r, Err(StreamError::NoResponse));
    let r = Handshake::new(trades("X"))
        .complete(Some(Err(StreamError::MalformedPayload("bad".to_string()))));
    assert_eq!(r, Err(StreamError::MalformedPayload("bad".to_string())));
    let r = Handshake::new(trades("X")).complete(Some(Err(StreamError::UnexpectedFrameKind)));
    assert_eq!(r, Err(StreamError::UnexpectedFrameKind));
}

#[test]
fn loopback_echo_of_the_encoded_command_is_accepted() {
    for sub in [
        CoinbaseSubscription::Heartbeat("BTC-USD".to_string()),
        CoinbaseSubscription::Level2("ETH-EUR".to_string()),
        CoinbaseSubscription::Matches("X".to_string()),
    ] {
        let text = encode(&subscribe_command(&sub)).unwrap();
        // the fake peer reads the command and echoes its channels with its instruments
        let v: serde_json::Value = serde_json::from_str(&text).unwrap();
        assert_eq!(v["type"], "subscribe");
        let ids: Vec<String> = v["product_ids"]
            .as_array()
            .unwrap()
            .iter()
            .map(|x| x.as_str().unwrap().to_string())
            .collect();
        let channels: Vec<Channel> = v["channels"]
            .as_array()
            .unwrap()
            .iter()
            .map(|c| {
                let name = match c.as_str().unwrap() {
                    "heartbeat" => ChannelType::Heartbeat,
                    "level2" => ChannelType::Level2,
                    "matches" => ChannelType::Matches,
                    other => panic!("unexpected channel {}", other),
                };
                Channel::WithProduct { name, product_ids: ids.clone() }
            })
            .collect();
        let echo = CoinbaseWebsocketMessage::Subscriptions { channels };
        assert_eq!(echo, expected_acknowledgment(&sub));
        assert_eq!(Handshake::new(sub.clone()).complete(Some(Ok(echo))), Ok(sub));
    }
}
