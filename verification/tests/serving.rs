use unicos::common::{
    AgentId, Command, Envelope, Event, Message, Sender, SystemNotification, Timestamp, Topic,
};
use unicos::conversation::ConversationId;
use unicos::daemon::{bad_request, parse_args, AgentIndex, DaemonStep};
use unicos::ipc::{ClientRequest, ServerMessage};

fn args(words: &[&str]) -> Vec<String> {
    words.iter().map(|w| w.to_string()).collect()
}

fn tell(n: SystemNotification) -> Event {
    Event::SystemNotification(n)
}

fn names(index: &AgentIndex) -> Vec<String> {
    index.agents().iter().map(|id| id.to_string()).collect()
}

#[test]
fn the_daemons_command_line_is_read() {
    let a = parse_args(&args(&[]));
    assert_eq!(a.config, "/etc/unicos/config.toml");
    assert_eq!((a.socket.clone(), a.no_fs_watch), (None, false));
    assert_eq!(a.socket_path("/c"), "/c");
    let a = parse_args(&args(&["--no-fs-watch", "x", "--socket", "/s", "--config", "/f"]));
    assert_eq!((a.config.as_str(), a.socket.as_deref(), a.no_fs_watch), ("/f", Some("/s"), true));
    assert_eq!(a.socket_path("/c"), "/s");
    let a = parse_args(&args(&["--socket", "--config", "/f"]));
    assert_eq!((a.config.as_str(), a.socket.as_deref()), ("/etc/unicos/config.toml", Some("--config")));
    let a = parse_args(&args(&["--config"]));
    assert_eq!(a.config, "/etc/unicos/config.toml");
}

#[test]
fn the_last_option_wins() {
    let a = parse_args(&args(&["--config", "/a", "--config", "/b"]));
    assert_eq!(a.config, "/b");
    let a = parse_args(&args(&["--socket", "/a", "--socket", "/b"]));
    assert_eq!(a.socket.as_deref(), Some("/b"));
}

#[test]
fn the_index_follows_the_agents() {
    let id = |n: &str| AgentId::new(n);
    let mut index = AgentIndex::new();
    for n in ["Carol", "Alice", "Bob"] {
        index.on_event(&tell(SystemNotification::AgentSpawned { id: id(n) }));
    }
    assert_eq!(names(&index), ["Alice", "Bob", "Carol"]);
    index.on_event(&tell(SystemNotification::AgentKilled { id: id("Bob") }));
    index.on_event(&tell(SystemNotification::AgentPurged { id: id("Alice") }));
    index.on_event(&tell(SystemNotification::AgentSlept { id: id("Carol") }));
    index.on_event(&Event::Message(Message { text: "x".to_string() }));
    assert_eq!(names(&index), ["Carol"]);
}

#[test]
fn clients_are_served() {
    let mut index = AgentIndex::new();
    index.on_event(&tell(SystemNotification::AgentSpawned { id: AgentId::new("Bob") }));
    assert!(matches!(
        index.handle_request(ClientRequest::Ping),
        DaemonStep::Reply(ServerMessage::Pong)
    ));
    match index.handle_request(ClientRequest::ListAgents) {
        DaemonStep::Reply(ServerMessage::Agents { ids }) => assert_eq!(ids, [AgentId::new("Bob")]),
        _ => panic!("no list"),
    }
    let conversation_id = ConversationId::from_seed("c");
    let publish = ClientRequest::Publish {
        topic: Topic::new("x"),
        text: "hi".to_string(),
        sender: Sender::System,
        conversation_id: conversation_id.clone(),
    };
    match index.handle_request(publish) {
        DaemonStep::Publish(d) => {
            assert_eq!((d.topic, d.sender), (Topic::new("x"), Sender::System));
            assert_eq!(d.conversation_id, conversation_id);
            assert!(matches!(d.payload, Event::Message(m) if m.text == "hi"));
        }
        _ => panic!("nothing is published"),
    }
    let cmd = Command::Spawn { id: AgentId::new("Bob") };
    match index.handle_request(ClientRequest::Command { cmd }) {
        DaemonStep::Publish(d) => {
            assert_eq!((d.topic.as_str(), d.sender), ("#system", Sender::UserSudo));
            assert_eq!(d.conversation_id, ConversationId::default());
            assert!(matches!(d.payload, Event::Command(Command::Spawn { .. })));
        }
        _ => panic!("nothing is published"),
    }
}

#[test]
fn a_bad_request_is_answered_with_its_reason() {
    match bad_request("no such thing") {
        ServerMessage::Error { message } => assert_eq!(message, "bad request: no such thing"),
        other => panic!("unexpected answer {other:?}"),
    }
    let envelope = Envelope {
        id: 1,
        ts: Timestamp { secs: 0, nanos: 0 },
        topic: Topic::new("x"),
        sender: Sender::System,
        conversation_id: ConversationId::default(),
        payload: Event::Message(Message { text: "x".to_string() }),
    };
    assert!(format!("{:?}", ServerMessage::Event { envelope }).starts_with("Event"));
}
