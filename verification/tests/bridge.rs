use xoq::bridge_server::{
    net_step, publish_step, Backoff, Batch, CommandEvent, CommandStep, CommandSubscriber, NetEvent,
    NetStep, Phase, PublishEvent, PublishStep, Receiver, Sessions, StateBatch, MAX_BATCH,
};
use xoq::can_server::encode_batch;
use xoq::can_types::{AnyCanFrame, CanFrame};
use xoq::moq_can_server::{
    builders, bus_usable, command_path, state_path, CommandLink, OperatorEvent,
};

#[test]
fn batch_takes_eight_messages() {
    let mut batch = Batch::start(&[0]);
    for i in 1..8u8 {
        assert!(!batch.is_full());
        batch = batch.with(&[i]);
    }
    assert!(batch.is_full());
    assert_eq!(MAX_BATCH, 8);
    assert_eq!(batch.into_bytes(), vec![0, 1, 2, 3, 4, 5, 6, 7]);
}

#[test]
fn network_events_are_answered() {
    assert_eq!(net_step(NetEvent::Read { count: 3 }), NetStep::Forward);
    assert_eq!(net_step(NetEvent::Read { count: 0 }), NetStep::Wait);
    assert_eq!(net_step(NetEvent::Failed), NetStep::Fail);
    assert_eq!(net_step(NetEvent::Closed), NetStep::Finish);
    assert_eq!(net_step(NetEvent::Cancelled), NetStep::Finish);
    assert_eq!(net_step(NetEvent::BackendGone), NetStep::Finish);
}

#[test]
fn one_connection_at_a_time() {
    let mut sessions = Sessions::new();
    assert!(!sessions.must_close_previous());
    sessions.serve();
    assert!(sessions.must_close_previous());
    sessions.connection_ended(true);
    assert_eq!(sessions.receiver, Receiver::Home);
    sessions.serve();
    sessions.connection_ended(false);
    assert_eq!(sessions.receiver, Receiver::Lost);
    assert!(!sessions.must_close_previous());
}

#[test]
fn pauses_double_up_to_half_a_minute() {
    let mut backoff = Backoff::new();
    let pauses: Vec<u64> = (0..7).map(|_| backoff.failed()).collect();
    assert_eq!(pauses, vec![1, 2, 4, 8, 16, 30, 30]);
    assert_eq!(
        publish_step(&mut backoff, PublishEvent::ConnectFailed),
        PublishStep::Retry { pause_s: 30 }
    );
    assert_eq!(publish_step(&mut backoff, PublishEvent::Connected), PublishStep::Publish);
    assert_eq!(publish_step(&mut backoff, PublishEvent::SessionClosed), PublishStep::Reconnect);
    assert_eq!(
        publish_step(&mut backoff, PublishEvent::ConnectFailed),
        PublishStep::Retry { pause_s: 1 }
    );
    assert_eq!(publish_step(&mut backoff, PublishEvent::InputClosed), PublishStep::Stop);
}

#[test]
fn state_is_published_per_tick() {
    let mut batch = StateBatch::new();
    assert_eq!(batch.tick(), None);
    batch.push(&[1, 2]);
    batch.push(&[3]);
    assert_eq!(batch.tick(), Some(vec![1, 2, 3]));
    assert_eq!(batch.tick(), None);
    batch.push(&[]);
    assert_eq!(batch.tick(), Some(vec![]));
}

#[test]
fn failing_reader_is_resubscribed_three_times() {
    let mut subscriber = CommandSubscriber::new();
    assert_eq!(
        subscriber.step(CommandEvent::ConnectFailed),
        CommandStep::Reconnect { pause_ms: 2000 }
    );
    assert_eq!(subscriber.step(CommandEvent::Connected), CommandStep::Await);
    assert_eq!(subscriber.step(CommandEvent::Announced), CommandStep::Subscribe);
    assert_eq!(subscriber.step(CommandEvent::Data), CommandStep::Forward);
    for _ in 0..3 {
        assert_eq!(subscriber.step(CommandEvent::ReadError), CommandStep::Resubscribe);
        assert!(subscriber.reader_alive);
    }
    assert_eq!(subscriber.step(CommandEvent::ReadError), CommandStep::Wait);
    assert!(!subscriber.reader_alive);
    assert_eq!(subscriber.step(CommandEvent::Announced), CommandStep::Subscribe);
    assert!(subscriber.reader_alive);
    assert_eq!(subscriber.step(CommandEvent::TrackEnded), CommandStep::Wait);
    assert_eq!(subscriber.step(CommandEvent::Idle), CommandStep::Reconnect { pause_ms: 500 });
    assert_eq!(subscriber.phase, Phase::Connecting);
}

#[test]
fn subscriber_stops_with_its_backend() {
    let mut subscriber = CommandSubscriber::default();
    subscriber.step(CommandEvent::Connected);
    assert_eq!(subscriber.step(CommandEvent::Unannounced), CommandStep::Wait);
    subscriber.step(CommandEvent::Announced);
    assert_eq!(subscriber.step(CommandEvent::BackendGone), CommandStep::Stop);
}

#[test]
fn relay_paths_of_a_can_server() {
    assert_eq!(state_path("anon/arm"), "anon/arm/state");
    assert_eq!(command_path("anon/arm"), "anon/arm/commands");
    let (publisher, subscriber) = builders("https://r", "anon/arm", true);
    assert_eq!(publisher.address(), "https://r/anon/arm/state");
    assert_eq!(subscriber.address(), "https://r/anon/arm/commands");
    assert!(bus_usable(None));
}

#[test]
fn operators_follow_one_another() {
    let frame = |id: u32| AnyCanFrame::Can(CanFrame::new(id, &[1, 2]).unwrap());
    let bytes = encode_batch(&[frame(1), frame(2)]);
    let mut link = CommandLink::new();
    assert!(link.step(OperatorEvent::ConnectFailed).is_empty());
    assert_eq!(link.phase(), xoq::moq_can_server::Phase::Pausing(2000));
    link.step(OperatorEvent::PauseOver);
    link.step(OperatorEvent::Connected);
    link.step(OperatorEvent::Subscribed);
    let frames = link.step(OperatorEvent::Data(bytes[..100].to_vec()));
    assert_eq!(frames.iter().map(|f| f.id()).collect::<Vec<u32>>(), vec![1]);
    link.step(OperatorEvent::StreamEnded);
    assert_eq!(link.phase(), xoq::moq_can_server::Phase::Pausing(500));
    link.step(OperatorEvent::PauseOver);
    assert_eq!(link.phase(), xoq::moq_can_server::Phase::Connecting);
    link.step(OperatorEvent::Connected);
    link.step(OperatorEvent::Subscribed);
    let frames = link.step(OperatorEvent::Data(bytes));
    assert_eq!(frames.iter().map(|f| f.id()).collect::<Vec<u32>>(), vec![1, 2]);
    assert!(link.step(OperatorEvent::Connected).is_empty());
}
