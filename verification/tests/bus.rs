use unicos::bus::{published, Bus, Draft};
use unicos::common::{AgentId, Envelope, Event, Message, Sender, Timestamp, Topic, UnicError};
use unicos::conversation::ConversationId;

fn hi() -> Event {
    Event::Message(Message { text: "hi".to_string() })
}

#[test]
fn publish_and_receive() {
    let bus = Bus::new(16);
    let mut rx = bus.subscribe();
    bus.publish(bus.envelope(Topic::new("general"), Sender::UserSudo, hi())).unwrap();

    let env = rx.try_recv().unwrap();
    assert_eq!(env.topic, Topic::new("general"));
    assert!(matches!(env.sender, Sender::UserSudo));
    match env.payload {
        Event::Message(m) => assert_eq!(m.text, "hi"),
        _ => panic!("unexpected event"),
    }
}

#[test]
fn publishing_without_listeners_fails() {
    let bus = Bus::new(1);
    let env = bus.envelope(Topic::new("general"), Sender::UserSudo, hi());
    assert!(matches!(bus.publish(env), Err(UnicError::BusSend)));
    assert!(matches!(published(Ok(1)), Ok(())));
    let back = bus.envelope(Topic::new("general"), Sender::UserSudo, hi());
    assert!(matches!(published(Err(back)), Err(UnicError::BusSend)));
}

#[test]
fn another_handle_reaches_the_same_listeners() {
    let bus = Bus::new(4);
    let mut rx = bus.subscribe();
    let other = bus.clone();
    other.publish_draft(Draft::announcement(hi())).unwrap();
    let env = rx.try_recv().unwrap();
    assert_eq!(env.topic.as_str(), "#system");
    assert_eq!(env.sender, Sender::System);
    assert_eq!(env.conversation_id.as_str(), "00000000");
}

#[test]
fn envelopes_carry_an_identifier_and_a_date() {
    let bus = Bus::new(1);
    let id = ConversationId::from_seed("task-42");
    let sender = Sender::Agent(AgentId::new("Alice"));
    let a = bus.envelope_with_conversation(Topic::new("x"), sender.clone(), id.clone(), hi());
    let b = bus.envelope(Topic::new("x"), sender.clone(), hi());
    assert_ne!(a.id, b.id);
    for env in [&a, &b] {
        assert_eq!(uuid::Uuid::from_u128(env.id).get_version_num(), 7);
        assert_eq!((env.id >> 62) & 3, 2);
        assert!(env.ts.is_datable() && env.ts.secs > 1_700_000_000);
        assert_eq!(env.sender, sender);
    }
    assert_eq!(a.conversation_id, id);
    assert_eq!(b.conversation_id, ConversationId::default());
}

#[test]
fn sealing_keeps_the_draft() {
    let ts = Timestamp { secs: 5, nanos: 6 };
    let env: Envelope<Event> = Draft::announcement(hi()).seal(9, ts);
    assert_eq!((env.id, env.ts), (9, ts));
    assert_eq!(env.topic, Topic::new("system"));
    assert!(matches!(env.payload, Event::Message(m) if m.text == "hi"));
}

#[test]
fn a_listener_may_fall_behind_by_the_capacity() {
    let bus = Bus::new(2);
    let mut rx = bus.subscribe();
    for _ in 0..3 {
        bus.publish_draft(Draft::announcement(hi())).unwrap();
    }
    let late = rx.try_recv();
    assert!(matches!(late, Err(tokio::sync::broadcast::error::TryRecvError::Lagged(1))));
    assert!(rx.try_recv().is_ok() && rx.try_recv().is_ok() && rx.try_recv().is_err());
}
