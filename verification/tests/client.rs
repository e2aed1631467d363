use unicos::cli::{
    bad_server_message, format_event, on_input, on_server_message, parse_args, user_dm_id,
    write_event, CliSession, CliStep, EditorStep,
};
use unicos::common::{
    AgentId, Command, Envelope, Event, Message, Sender, SystemNotification, Timestamp, Topic,
};
use unicos::completion::CompletionState;
use unicos::conversation::ConversationId;
use unicos::ipc::{ClientRequest, ServerMessage};
use unicos::pingpong::{
    default_chobits_config_path, greeting, judge, normalize, provider_for, question, verdict,
    ChobitsConfig, ModelResponses, ModelSection, Verdict,
};

fn envelope(payload: Event) -> Envelope<Event> {
    Envelope {
        id: 1,
        ts: Timestamp { secs: 1_700_000_000, nanos: 500_000_000 },
        topic: Topic::new("general"),
        sender: Sender::UserSudo,
        conversation_id: ConversationId::default(),
        payload,
    }
}

fn notice(n: SystemNotification) -> Envelope<Event> {
    envelope(Event::SystemNotification(n))
}

/// What a line comes to, in short.
fn told(session: &mut CliSession, line: &str) -> Vec<String> {
    session
        .on_line(line)
        .into_iter()
        .map(|step| match step {
            CliStep::Print(text) => text,
            CliStep::Send(ClientRequest::Ping) => "send ping".to_string(),
            CliStep::Send(ClientRequest::ListAgents) => "send list".to_string(),
            CliStep::Send(ClientRequest::Publish { topic, text, sender, conversation_id }) => {
                assert_eq!(sender, Sender::UserSudo);
                assert_eq!(conversation_id, ConversationId::default());
                format!("say {} {text}", topic.as_str())
            }
            CliStep::Send(ClientRequest::Command { cmd }) => match cmd {
                Command::Spawn { id } => format!("spawn {}", id.as_str()),
                Command::Kill { id } => format!("kill {}", id.as_str()),
                Command::Purge { id, confirm } => format!("purge {} {confirm}", id.as_str()),
                Command::JoinTopic { id, topic } => format!("join {} {}", id.as_str(), topic.as_str()),
                Command::Sleep { id } => format!("sleep {}", id.as_str()),
                Command::Wake { id } => format!("wake {}", id.as_str()),
                Command::SetUserTopic { topic } => format!("set {}", topic.as_str()),
            },
        })
        .collect()
}

fn once(line: &str) -> Vec<String> {
    told(&mut CliSession::new(), line)
}

#[test]
fn the_clients_command_line_is_read() {
    let args = |words: &[&str]| words.iter().map(|w| w.to_string()).collect::<Vec<String>>();
    assert_eq!(parse_args(&args(&[])), "/tmp/unicos.sock");
    assert_eq!(parse_args(&args(&["x", "--socket", "/s"])), "/s");
    assert_eq!(parse_args(&args(&["--socket", "/a", "--socket", "/b"])), "/b");
    assert_eq!(parse_args(&args(&["--socket"])), "/tmp/unicos.sock");
    assert_eq!(user_dm_id(), "sudo");
}

#[test]
fn the_prompt_shows_the_topic() {
    let mut session = CliSession::new();
    let prompt = session.prompt();
    assert_eq!(prompt.render_prompt_left(), "#general ");
    assert_eq!(prompt.render_prompt_right(), "");
    assert_eq!(prompt.render_prompt_indicator(), "> ");
    assert_eq!(prompt.render_prompt_multiline_indicator(), "... ");
    assert_eq!(prompt.render_prompt_history_search_indicator(), "search> ");
    session.on_line("/topic art");
    assert_eq!(session.prompt().topic, "#art");
}

#[test]
fn input_is_trimmed() {
    assert!(matches!(on_input(" /quit\n"), EditorStep::Quit));
    assert!(matches!(on_input("/exit"), EditorStep::Quit));
    assert!(matches!(on_input(" \t"), EditorStep::Ignore));
    assert!(matches!(on_input(" hi there "), EditorStep::Line(l) if l == "hi there"));
    assert!(matches!(on_input("/quit now"), EditorStep::Line(_)));
}

#[test]
fn plain_text_is_said_in_the_current_topic() {
    let mut session = CliSession::new();
    assert_eq!(told(&mut session, "hi /kill @Bob"), ["say #general hi /kill @Bob"]);
    assert_eq!(told(&mut session, "/topic art"), ["switched topic: #art"]);
    assert_eq!(told(&mut session, "hi"), ["say #art hi"]);
    assert_eq!(
        told(&mut session, "/dm Bob"),
        ["join Bob #dm:sudo:Bob", "switched to dm with Bob"],
    );
    assert_eq!(told(&mut session, "hi"), ["say #dm:sudo:Bob hi"]);
}

#[test]
fn an_at_sign_speaks_to_one_agent() {
    assert_eq!(
        once("@Bob   how are you "),
        ["join Bob #dm:sudo:Bob", "say #dm:sudo:Bob how are you"],
    );
    for bad in ["@", "@Bob", "@ Bob hi", "@Bob  "] {
        assert_eq!(once(bad), ["usage: @<AgentId> <text>"], "{bad}");
    }
}

#[test]
fn commands_are_sent() {
    assert_eq!(once("/ping"), ["send ping"]);
    assert_eq!(once("/agents"), ["send list"]);
    assert_eq!(once("/spawn Bob"), ["spawn Bob", "spawn requested: Bob"]);
    assert_eq!(once("/kill Bob"), ["kill Bob", "kill requested: Bob"]);
    assert_eq!(once("/sleep  Bob"), ["sleep Bob", "sleep requested: Bob"]);
    assert_eq!(once("/wake Bob"), ["wake Bob", "wake requested: Bob"]);
    assert_eq!(once("/join Bob art"), ["join Bob #art", "join requested: Bob -> art"]);
}

#[test]
fn a_purge_is_confirmed_with_yes() {
    assert_eq!(
        once("/purge Bob"),
        [
            "purge Bob false",
            "purge requested: Bob. confirm with: /purge Bob yes (within 30s)",
        ],
    );
    assert_eq!(once("/purge Bob yes"), ["purge Bob true", "purge confirm sent: Bob"]);
    assert_eq!(once("/purge Bob no"), ["unknown command: /purge Bob no"]);
}

#[test]
fn usage_is_shown() {
    let cases = [
        ("/spawn", "usage: /spawn <AgentId>"),
        ("/kill", "usage: /kill <AgentId>"),
        ("/purge", "usage: /purge <AgentId>  (then: /purge <AgentId> yes)"),
        ("/join", "usage: /join <AgentId> <topic>"),
        ("/sleep", "usage: /sleep <AgentId>"),
        ("/wake", "usage: /wake <AgentId>"),
        ("/topic", "usage: /topic <topic>"),
        ("/dm", "usage: /dm <AgentId>"),
        ("/", "unknown command: /"),
        ("/ping  me", "unknown command: /ping  me"),
        ("/join Bob", "unknown command: /join Bob"),
        ("/spawn a b", "unknown command: /spawn a b"),
        ("/a b c d", "unknown command: /a b c d"),
        ("/nothing", "unknown command: /nothing"),
    ];
    for (line, expected) in cases {
        assert_eq!(once(line), [expected]);
    }
}

#[test]
fn events_are_shown() {
    let env = envelope(Event::Message(Message { text: "hi".to_string() }));
    let time = "2023-11-14 22:13:20.500 UTC";
    assert_eq!(format_event(&env).unwrap(), format!("{time} #general [User: sudo] hi"));
    assert_eq!(write_event(&env, "now", "", "").unwrap(), "now #general [User: sudo] hi");
    let command = envelope(Event::Command(Command::Kill { id: AgentId::new("Bob") }));
    assert!(format_event(&command).is_none());
}

#[test]
fn notifications_are_shown_as_they_are_written() {
    let id = || AgentId::new("B\"ob\n");
    let all = [
        SystemNotification::AgentSpawned { id: id() },
        SystemNotification::AgentKilled { id: id() },
        SystemNotification::AgentPurged { id: id() },
        SystemNotification::AgentPanicked { id: id(), message: "a\tb'".to_string() },
        SystemNotification::AgentJoinedTopic { id: id(), topic: Topic::new("é\\") },
        SystemNotification::AgentSlept { id: id() },
        SystemNotification::AgentWoke { id: id() },
    ];
    for n in all {
        let expected = format!("2023-11-14 22:13:20.500 UTC #general [SystemNotice] {n:?}");
        assert_eq!(format_event(&notice(n)).unwrap(), expected);
    }
}

#[test]
fn messages_of_the_daemon_are_shown() {
    let mut st = CompletionState::default();
    assert_eq!(on_server_message(&mut st, &ServerMessage::Pong).unwrap(), "Pong");
    let ids = vec![AgentId::new("Alice"), AgentId::new("Bob")];
    let agents = ServerMessage::Agents { ids };
    assert_eq!(on_server_message(&mut st, &agents).unwrap(), "agents: Alice, Bob");
    let none = ServerMessage::Agents { ids: vec![] };
    assert_eq!(on_server_message(&mut st, &none).unwrap(), "agents: ");
    let error = ServerMessage::Error { message: "x".to_string() };
    assert_eq!(on_server_message(&mut st, &error).unwrap(), "[daemon error] x");
    assert!(st.agent_suggestions().is_empty());
    let envelope = notice(SystemNotification::AgentSpawned { id: AgentId::new("Bob") });
    let shown = on_server_message(&mut st, &ServerMessage::Event { envelope }).unwrap();
    assert!(shown.ends_with("[SystemNotice] AgentSpawned { id: AgentId(\"Bob\") }"));
    assert_eq!(st.agent_suggestions(), ["Bob"]);
    assert_eq!(bad_server_message("why", "what"), "bad server message: why: what");
}

fn chobits(model: Option<&str>, described: bool) -> ChobitsConfig {
    ChobitsConfig {
        model: ModelSection {
            provider: None,
            model: model.map(|m| m.to_string()),
            responses: if described {
                Some(ModelResponses {
                    base_url: "u".to_string(),
                    api_key_env: "K".to_string(),
                    api_key: Some("k".to_string()),
                })
            } else {
                None
            },
        },
    }
}

#[test]
fn the_file_of_the_ping_stands_at_home() {
    assert_eq!(default_chobits_config_path(&Some("/h".to_string())), "/h/chobits/config.toml");
    assert_eq!(default_chobits_config_path(&None), "/home/midori/chobits/config.toml");
}

#[test]
fn the_server_of_the_ping_is_described() {
    let p = provider_for(&chobits(None, true)).unwrap();
    assert_eq!((p.model.as_str(), p.max_retries, p.timeout_ms), ("gpt-5.2", 8, 60_000));
    assert_eq!(greeting(&p), "Ping/Pong: model=gpt-5.2 base_url=u api_key_env=K");
    assert_eq!(provider_for(&chobits(Some("m"), true)).unwrap().model, "m");
    let e = provider_for(&chobits(None, false)).unwrap_err();
    assert_eq!(e, "missing [model.responses] in config");
    let asked: Vec<String> = question().into_iter().map(|m| m.content).collect();
    assert_eq!(
        asked,
        ["You are a connectivity test. Reply exactly with Pong and nothing else.", "Ping"],
    );
}

#[test]
fn answers_are_normalized() {
    assert_eq!(normalize(" \"'Pong'\" \n"), "Pong");
    assert_eq!(normalize("'\"Pong\"'"), "\"Pong\"");
    assert_eq!(normalize("\" Pong \""), "Pong");
    assert_eq!(normalize(""), "");
}

#[test]
fn the_ping_is_judged() {
    assert!(matches!(verdict(" \"Pong\" "), Verdict::Good(t) if t == "OK: Pong"));
    assert!(matches!(
        verdict("PONG!"),
        Verdict::Doubtful(t) if t == "WARN: got \"PONG!\" (starts with Pong)"
    ));
    assert!(matches!(
        verdict("no\n\"x"),
        Verdict::Failed(t) if t == "FAIL: expected Pong, got \"no\\n\\\"x\""
    ));
    assert!(matches!(judge("x", "pong", "L"), Verdict::Doubtful(t) if t.contains("got L ")));
}
