use unicos::agent::{AgentConfig, AgentRuntime, AgentStep, Turn, TurnStep, LIMIT_TEXT};
use unicos::common::{
    AgentId, ChatRole, Command, Envelope, Event, Message, Sender, SystemNotification, Timestamp,
    Topic, UnicError,
};
use unicos::context::ContextManager;
use unicos::conversation::ConversationId;
use unicos::decision::NextAction;
use unicos::json::{parse_json, Json};

fn agent(tools_enabled: bool) -> AgentRuntime {
    AgentRuntime::new(AgentConfig {
        id: AgentId::new("Alice"),
        topics: vec![Topic::new("general"), Topic::new("general"), Topic::new("x")],
        perception_window: 2,
        soul_dir: "/unics/Alice".to_string(),
        tools_enabled,
    })
}

fn event(topic: &str, sender: Sender, payload: Event) -> Envelope<Event> {
    Envelope {
        id: 3,
        ts: Timestamp { secs: 1, nanos: 0 },
        topic: Topic::new(topic),
        sender,
        conversation_id: ConversationId::from_seed("c"),
        payload,
    }
}

fn saying(topic: &str, sender: Sender, text: &str) -> Envelope<Event> {
    event(topic, sender, Event::Message(Message { text: text.to_string() }))
}

fn turn_on(text: &str, tools_enabled: bool) -> Turn {
    let mut a = agent(tools_enabled);
    match a.on_event(saying("general", Sender::UserSudo, text)) {
        AgentStep::Attend(heard) => a.begin_turn(&heard, "soul".to_string()),
        other => panic!("unexpected step {other:?}"),
    }
}

fn spoken(step: TurnStep) -> String {
    match step {
        TurnStep::Say(draft) => {
            assert_eq!(draft.topic, Topic::new("general"));
            assert_eq!(draft.sender, Sender::Agent(AgentId::new("Alice")));
            assert_eq!(draft.conversation_id, ConversationId::from_seed("c"));
            match draft.payload {
                Event::Message(m) => m.text,
                other => panic!("unexpected event {other:?}"),
            }
        }
        other => panic!("unexpected step {other:?}"),
    }
}

fn wants_tool() -> Option<NextAction> {
    Some(NextAction::Tool { tool: "bash".to_string(), args: Json::Null })
}

#[test]
fn the_window_keeps_the_latest_messages() {
    let mut ctx = ContextManager::new(0);
    for id in 1..4u128 {
        let mut m = saying("general", Sender::UserSudo, "x").map(|_| Message { text: "x".to_string() });
        m.id = id;
        ctx.push_message(m);
    }
    let ids: Vec<u128> = ctx.snapshot().iter().map(|m| m.id).collect();
    assert_eq!(ids, [3]);
    let mut ctx = ContextManager::new(2);
    assert!(ctx.snapshot().is_empty());
    for id in 1..6u128 {
        let mut m = saying("general", Sender::UserSudo, "x").map(|_| Message { text: "x".to_string() });
        m.id = id;
        ctx.push_message(m);
    }
    let ids: Vec<u128> = ctx.snapshot().iter().map(|m| m.id).collect();
    assert_eq!(ids, [4, 5]);
}

#[test]
fn an_agent_keeps_its_files_in_its_directory() {
    let a = agent(true);
    assert_eq!(a.mailbox_path(), "/unics/Alice/mailbox.log");
    assert_eq!(a.soul_path(), "/unics/Alice/soul.md");
}

#[test]
fn an_agent_attends_to_its_topics() {
    let mut a = agent(true);
    assert!(a.should_accept(&Topic::new("x")) && !a.should_accept(&Topic::new("y")));
    assert!(matches!(a.on_event(saying("y", Sender::UserSudo, "hi")), AgentStep::Ignore));
    match a.on_event(saying("x", Sender::UserSudo, "hi")) {
        AgentStep::Attend(heard) => {
            assert_eq!(heard.payload.text, "hi");
            assert_eq!(heard.topic, Topic::new("x"));
        }
        other => panic!("unexpected step {other:?}"),
    }
    let note = Event::SystemNotification(SystemNotification::AgentWoke { id: AgentId::new("Bob") });
    assert!(matches!(a.on_event(event("x", Sender::System, note)), AgentStep::Ignore));
}

#[test]
fn an_agent_does_not_hear_itself() {
    let mut a = agent(true);
    let own = saying("x", Sender::Agent(AgentId::new("Alice")), "hi");
    assert!(matches!(a.on_event(own), AgentStep::Ignore));
    let other = saying("x", Sender::Agent(AgentId::new("Bob")), "hi");
    assert!(matches!(a.on_event(other), AgentStep::Attend(_)));
}

#[test]
fn sleeping_shuts_an_agent_out_until_it_wakes() {
    let mut a = agent(true);
    match a.handle_command(Command::Sleep { id: AgentId::new("Alice") }) {
        Some(draft) => {
            assert_eq!(draft.topic.as_str(), "#system");
            assert!(matches!(
                draft.payload,
                Event::SystemNotification(SystemNotification::AgentSlept { id }) if id.as_str() == "Alice"
            ));
        }
        None => panic!("no reply"),
    }
    assert!(matches!(a.on_event(saying("x", Sender::UserSudo, "hi")), AgentStep::Ignore));
    let wake = event("x", Sender::System, Event::Command(Command::Wake { id: AgentId::new("Alice") }));
    match a.on_event(wake) {
        AgentStep::Publish(draft) => assert!(matches!(
            draft.payload,
            Event::SystemNotification(SystemNotification::AgentWoke { .. })
        )),
        other => panic!("unexpected step {other:?}"),
    }
    assert!(matches!(a.on_event(saying("x", Sender::UserSudo, "hi")), AgentStep::Attend(_)));
}

#[test]
fn joining_opens_a_topic() {
    let mut a = agent(true);
    let topic = Topic::dm("sudo", "Alice");
    let join = Command::JoinTopic { id: AgentId::new("Alice"), topic: topic.clone() };
    let draft = a.handle_command(join).unwrap();
    assert_eq!(draft.topic, topic);
    assert_eq!(draft.sender, Sender::System);
    assert!(a.should_accept(&topic));
}

#[test]
fn commands_for_others_change_nothing() {
    let mut a = agent(true);
    let bob = || AgentId::new("Bob");
    let topic = Topic::new("y");
    assert!(a.handle_command(Command::Sleep { id: bob() }).is_none());
    assert!(a.handle_command(Command::Wake { id: bob() }).is_none());
    assert!(a.handle_command(Command::JoinTopic { id: bob(), topic: topic.clone() }).is_none());
    assert!(a.handle_command(Command::Kill { id: AgentId::new("Alice") }).is_none());
    assert!(!a.should_accept(&topic) && !a.sleeping);
}

#[test]
fn a_turn_asks_before_it_speaks() {
    let turn = turn_on("hello", true);
    assert!(matches!(turn.start(), TurnStep::AskWhether));
    assert!(matches!(turn.on_gate(false), TurnStep::Rest));
    assert!(matches!(turn.on_gate(true), TurnStep::Generate(p) if p.len() == 4));
}

#[test]
fn the_model_speaks_rests_or_is_quoted() {
    let speak = Some(NextAction::Speak { text: "hi".to_string() });
    assert_eq!(spoken(turn_on("hello", true).on_text("raw".to_string(), speak)), "hi");
    assert_eq!(spoken(turn_on("hello", true).on_text("raw".to_string(), None)), "raw");
    let rest = turn_on("hello", true).on_text("raw".to_string(), Some(NextAction::Noop));
    assert!(matches!(rest, TurnStep::Rest));
}

#[test]
fn tools_speak_to_the_agent_alone() {
    let mut turn = turn_on("hello", true);
    match turn.on_text("raw".to_string(), wants_tool()) {
        TurnStep::CallTool { tool, args } => {
            assert_eq!((tool.as_str(), args), ("bash", Json::Object(vec![])));
        }
        other => panic!("unexpected step {other:?}"),
    }
    match turn.on_tool("bash", parse_json("{ \"status\": \"ok\", \"n\": 1.50 }").map_err(UnicError::Tool)) {
        TurnStep::Generate(prompt) => {
            let said = &prompt[prompt.len() - 2];
            assert_eq!((said.role, said.content.as_str()), (ChatRole::Tool, "{\"n\":1.5,\"status\":\"ok\"}"));
            assert_eq!(said.name.as_deref(), Some("bash"));
        }
        other => panic!("unexpected step {other:?}"),
    }
    turn.on_tool("bash", Err(UnicError::Tool("bash: timeout".to_string())));
    assert_eq!(turn.trace[1].content, "ERROR: tool error: bash: timeout");
}

#[test]
fn a_turn_calls_six_tools_at_most() {
    let mut turn = turn_on("hello", true);
    for n in 1..7 {
        assert!(matches!(turn.on_text("".to_string(), wants_tool()), TurnStep::CallTool { .. }));
        let step = turn.on_tool("bash", Ok(Json::Integer(1)));
        if n < 6 {
            assert!(matches!(step, TurnStep::Generate(_)));
        } else {
            assert_eq!(spoken(step), LIMIT_TEXT);
        }
    }
    assert_eq!(turn.steps, 6);
}

#[test]
fn tools_that_are_switched_off_are_not_called() {
    let mut turn = turn_on("hello", false);
    for _ in 0..5 {
        assert!(matches!(turn.on_text("".to_string(), wants_tool()), TurnStep::Generate(_)));
    }
    assert_eq!(turn.trace[4].content, "ERROR: tools disabled");
    assert_eq!(spoken(turn.on_text("".to_string(), wants_tool())), LIMIT_TEXT);
    let turn = turn_on("!bash ls", false);
    assert!(matches!(turn.start(), TurnStep::AskWhether));
    assert_eq!(spoken(turn.on_gate(true)), LIMIT_TEXT);
    assert!(matches!(turn.on_gate(false), TurnStep::Rest));
    assert_eq!(spoken(turn_on("!conv_load x", false).start()), LIMIT_TEXT);
}

#[test]
fn the_result_of_a_direct_call_is_said() {
    let mut turn = turn_on("!bash ls", true);
    assert!(matches!(turn.start(), TurnStep::AskWhether));
    assert!(matches!(turn.on_gate(false), TurnStep::Rest));
    match turn.on_gate(true) {
        TurnStep::CallTool { tool, args } => {
            assert_eq!(tool, "bash");
            assert_eq!(args.get("cmd").unwrap().as_text(), Some("ls"));
        }
        other => panic!("unexpected step {other:?}"),
    }
    assert_eq!(spoken(turn.on_tool("bash", Ok(Json::Object(vec![])))), "{}");
    assert_eq!(spoken(turn.on_tool_word("bash", Ok("word".to_string()))), "word");
    let e = Err(UnicError::Tool("bash: timeout".to_string()));
    assert_eq!(spoken(turn.on_tool("bash", e)), "ERROR: tool error: bash: timeout");
}

#[test]
fn a_conversation_that_another_agent_asks_for_is_loaded() {
    let mut a = agent(true);
    let bob = Sender::Agent(AgentId::new("Bob"));
    let mut turn = match a.on_event(saying("general", bob, "!conv_load task-42")) {
        AgentStep::Attend(heard) => a.begin_turn(&heard, "".to_string()),
        other => panic!("unexpected step {other:?}"),
    };
    match turn.start() {
        TurnStep::CallTool { tool, args } => {
            assert_eq!(tool, "conv_load");
            assert_eq!(args.get("conversation_id").unwrap().as_text(), Some("task-42"));
        }
        other => panic!("unexpected step {other:?}"),
    }
    assert_eq!(spoken(turn.on_tool("conv_load", Ok(Json::Null))), "null");
}

#[test]
fn a_call_that_the_user_asked_for_earlier_waits_for_the_answer() {
    for tools_enabled in [true, false] {
        let mut a = agent(tools_enabled);
        a.on_event(saying("general", Sender::UserSudo, "!bash echo hi?"));
        let bob = Sender::Agent(AgentId::new("Bob"));
        let turn = match a.on_event(saying("general", bob, "ok")) {
            AgentStep::Attend(heard) => a.begin_turn(&heard, "".to_string()),
            other => panic!("unexpected step {other:?}"),
        };
        assert!(matches!(turn.start(), TurnStep::AskWhether));
        assert!(matches!(turn.on_gate(false), TurnStep::Rest));
        match turn.on_gate(true) {
            TurnStep::CallTool { tool, args } => {
                assert!(tools_enabled);
                assert_eq!(tool, "bash");
                assert_eq!(args.get("cmd").unwrap().as_text(), Some("echo hi?"));
            }
            step => {
                assert!(!tools_enabled);
                assert_eq!(spoken(step), LIMIT_TEXT);
            }
        }
    }
}

#[test]
fn a_whole_turn_says_one_thing() {
    let mut turn = turn_on("hello", true);
    let mut asked = 0;
    let mut said = 0;
    let mut steps = 1;
    let mut step = turn.start();
    loop {
        step = match step {
            TurnStep::AskWhether => turn.on_gate(true),
            TurnStep::Generate(_) => {
                asked += 1;
                turn.on_text("".to_string(), wants_tool())
            }
            TurnStep::CallTool { tool, .. } => turn.on_tool(&tool, Ok(Json::Null)),
            TurnStep::Say(_) => {
                said += 1;
                break;
            }
            TurnStep::Rest => break,
        };
        steps += 1;
    }
    assert_eq!((asked, said, steps), (6, 1, 14));
}
