use ecbt_coinbase::{
    CoinbaseParameters, CoinbaseSubscription, CoinbaseWebsocket, EntryPoll, Environment, Frame,
    PollStep, StreamError,
};
use tokio::sync::mpsc::{unbounded_channel, UnboundedReceiver, UnboundedSender};

fn session() -> CoinbaseWebsocket<u32> {
    CoinbaseWebsocket::new(CoinbaseParameters { environment: Environment::Sandbox })
}

fn channel() -> (UnboundedSender<()>, UnboundedReceiver<()>) {
    unbounded_channel()
}

fn text(s: &str) -> EntryPoll {
    EntryPoll::Ready(Frame::Text(s.to_string()))
}

#[test]
fn new_session_is_empty_and_closed() {
    let mut ws = session();
    assert_eq!(ws.len(), 0);
    assert!(ws.is_empty());
    assert_eq!(ws.senders_len(), 0);
    assert_eq!(ws.parameters().environment, Environment::Sandbox);
    assert_eq!(ws.start_round(), PollStep::Closed);
    assert!(!ws.in_round());
}

#[test]
fn adding_the_same_identity_twice_keeps_one_entry() {
    let mut ws = session();
    let (s1, _r1) = channel();
    let (s2, _r2) = channel();
    let id = CoinbaseSubscription::Matches("X".to_string());
    ws.subscribe_(id.clone(), 1, s1);
    ws.subscribe_(id.clone(), 2, s2);
    assert_eq!(ws.len(), 1);
    assert_eq!(ws.subscription(0), &id);
    assert_eq!(*ws.stream_mut(0), 2);
    assert_eq!(ws.senders_len(), 2);
    assert_eq!(ws.position(&id), Some(0));
    assert_eq!(ws.position(&CoinbaseSubscription::Matches("Y".to_string())), None);
}

#[test]
fn a_silent_entry_does_not_starve_a_busy_one() {
    let mut ws = session();
    let (s1, _r1) = channel();
    let (s2, _r2) = channel();
    ws.subscribe_(CoinbaseSubscription::Level2("A".to_string()), 10, s1);
    ws.subscribe_(CoinbaseSubscription::Matches("B".to_string()), 20, s2);
    for n in 0..4 {
        let mut step = ws.start_round();
        let mut polled = Vec::new();
        let delivered = loop {
            match step {
                PollStep::Poll(i) => {
                    polled.push(i);
                    let stream = *ws.stream_mut(i);
                    step = if stream == 20 { ws.report(text("b")) } else { ws.report(EntryPoll::Pending) };
                }
                PollStep::Deliver(r) => break r,
                other => panic!("round {} ended with {:?}", n, other),
            }
        };
        assert_eq!(delivered, Ok("b".to_string()));
        assert!(polled.len() <= 2);
        assert_eq!(*polled.last().unwrap(), 1);
    }
}

#[test]
fn rounds_rotate_their_starting_entry() {
    let mut ws = session();
    for (i, id) in ["A", "B", "C"].iter().enumerate() {
        let (s, _r) = channel();
        ws.subscribe_(CoinbaseSubscription::Matches(id.to_string()), i as u32, s);
    }
    assert_eq!(ws.start_round(), PollStep::Poll(0));
    assert_eq!(ws.report(EntryPoll::Pending), PollStep::Poll(1));
    assert_eq!(ws.report(text("m")), PollStep::Deliver(Ok("m".to_string())));
    assert_eq!(ws.start_round(), PollStep::Poll(2));
    assert_eq!(ws.report(EntryPoll::Pending), PollStep::Poll(0));
    assert_eq!(ws.report(EntryPoll::Pending), PollStep::Poll(1));
    assert_eq!(ws.report(EntryPoll::Pending), PollStep::Pending);
    assert!(!ws.in_round());
    assert_eq!(ws.start_round(), PollStep::Poll(2));
}

#[test]
fn disconnect_signals_every_sender_once_and_is_idempotent() {
    let mut ws = session();
    ws.disconnect();
    assert_eq!(ws.senders_len(), 0);
    let (s1, mut r1) = channel();
    let (s2, mut r2) = channel();
    ws.subscribe_(CoinbaseSubscription::Matches("X".to_string()), 1, s1);
    ws.subscribe_(CoinbaseSubscription::Heartbeat("X".to_string()), 2, s2);
    ws.disconnect();
    assert_eq!(ws.senders_len(), 0);
    assert_eq!(r1.try_recv(), Ok(()));
    assert_eq!(r2.try_recv(), Ok(()));
    ws.disconnect();
    assert_eq!(ws.senders_len(), 0);
    assert!(r1.try_recv().is_err());
    assert!(r2.try_recv().is_err());
    assert_eq!(ws.len(), 2);
}

#[test]
fn disconnect_tolerates_a_finished_listener() {
    let mut ws = session();
    let (s1, r1) = channel();
    drop(r1);
    ws.subscribe_(CoinbaseSubscription::Matches("X".to_string()), 1, s1);
    ws.disconnect();
    assert_eq!(ws.senders_len(), 0);
}

#[test]
fn two_subscriptions_deliver_heartbeat_then_trade() {
    let mut ws = session();
    let (s1, _r1) = channel();
    let (s2, _r2) = channel();
    ws.subscribe_(CoinbaseSubscription::Matches("X".to_string()), 1, s1);
    ws.subscribe_(CoinbaseSubscription::Heartbeat("X".to_string()), 2, s2);
    // the heartbeat socket has its frame first, the trade socket later
    assert_eq!(ws.start_round(), PollStep::Poll(0));
    assert_eq!(ws.report(EntryPoll::Pending), PollStep::Poll(1));
    assert_eq!(ws.report(text("heartbeat")), PollStep::Deliver(Ok("heartbeat".to_string())));
    assert_eq!(ws.start_round(), PollStep::Poll(0));
    assert_eq!(ws.report(text("match")), PollStep::Deliver(Ok("match".to_string())));
    assert_eq!(ws.start_round(), PollStep::Poll(1));
    assert_eq!(ws.report(EntryPoll::Pending), PollStep::Poll(0));
    assert_eq!(ws.report(EntryPoll::Pending), PollStep::Pending);
}

#[test]
fn binary_frame_is_an_error_and_other_streams_go_on() {
    let mut ws = session();
    let (s1, _r1) = channel();
    let (s2, _r2) = channel();
    ws.subscribe_(CoinbaseSubscription::Matches("X".to_string()), 1, s1);
    ws.subscribe_(CoinbaseSubscription::Heartbeat("X".to_string()), 2, s2);
    assert_eq!(ws.start_round(), PollStep::Poll(0));
    assert_eq!(
        ws.report(EntryPoll::Ready(Frame::Binary(vec![0, 1]))),
        PollStep::Deliver(Err(StreamError::UnexpectedFrameKind))
    );
    assert_eq!(ws.len(), 2);
    assert_eq!(ws.start_round(), PollStep::Poll(1));
    assert_eq!(ws.report(text("ok")), PollStep::Deliver(Ok("ok".to_string())));
}

#[test]
fn read_failure_is_reported_and_the_entry_stays() {
    let mut ws = session();
    let (s1, _r1) = channel();
    ws.subscribe_(CoinbaseSubscription::Matches("X".to_string()), 1, s1);
    assert_eq!(ws.start_round(), PollStep::Poll(0));
    assert_eq!(
        ws.report(EntryPoll::Failed("reset".to_string())),
        PollStep::Deliver(Err(StreamError::TransportError("reset".to_string())))
    );
    assert_eq!(ws.len(), 1);
}

#[test]
fn ended_entries_are_removed_until_the_stream_closes() {
    let mut ws = session();
    let (s1, _r1) = channel();
    let (s2, _r2) = channel();
    ws.subscribe_(CoinbaseSubscription::Matches("X".to_string()), 1, s1);
    ws.subscribe_(CoinbaseSubscription::Heartbeat("X".to_string()), 2, s2);
    assert_eq!(ws.start_round(), PollStep::Poll(0));
    assert_eq!(ws.report(EntryPoll::Ended), PollStep::Poll(0));
    assert_eq!(ws.len(), 1);
    assert_eq!(ws.subscription(0), &CoinbaseSubscription::Heartbeat("X".to_string()));
    assert_eq!(*ws.stream_mut(0), 2);
    assert_eq!(ws.report(EntryPoll::Pending), PollStep::Pending);
    assert_eq!(ws.start_round(), PollStep::Poll(0));
    assert_eq!(ws.report(EntryPoll::Ended), PollStep::Closed);
    assert!(ws.is_empty());
    assert_eq!(ws.start_round(), PollStep::Closed);
}

#[test]
fn stream_mut_changes_only_that_stream() {
    let mut ws = session();
    let (s1, _r1) = channel();
    let (s2, _r2) = channel();
    ws.subscribe_(CoinbaseSubscription::Matches("X".to_string()), 1, s1);
    ws.subscribe_(CoinbaseSubscription::Matches("Y".to_string()), 2, s2);
    *ws.stream_mut(1) = 7;
    assert_eq!(*ws.stream_mut(0), 1);
    assert_eq!(*ws.stream_mut(1), 7);
}
