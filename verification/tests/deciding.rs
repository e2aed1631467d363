use unicos::common::{
    AgentId, ChatMessage, ChatRole, Envelope, Message, Perception, Sender, Timestamp, Topic,
};
use unicos::conversation::ConversationId;
use unicos::decision::{
    after_gate, conclude, first_step, load_call_of, strip_json_fence,
    tool_protocol_system_prompt, user_call_of, wanted_call_of, AgentAction, DecisionEngine,
    DecisionStep, NextAction,
};
use unicos::json::{parse_json, Json};
use unicos::llm::RuleBasedProvider;

fn said(sender: Sender, text: &str) -> Envelope<Message> {
    Envelope {
        id: 1,
        ts: Timestamp { secs: 0, nanos: 0 },
        topic: Topic::new("general"),
        sender,
        conversation_id: ConversationId::default(),
        payload: Message { text: text.to_string() },
    }
}

fn perceiving(soul: &str, recent: Vec<Envelope<Message>>) -> Perception {
    Perception {
        agent_id: AgentId::new("Alice"),
        topic: Topic::new("general"),
        soul: soul.to_string(),
        recent,
    }
}

#[test]
fn decision_engine_triggers_on_question() {
    let engine = DecisionEngine::new(RuleBasedProvider::default());
    let perception = perceiving("", vec![said(Sender::UserSudo, "are you there?")]);
    assert!(matches!(engine.decide(&perception), DecisionStep::AskWhether));
    let respond = engine.provider.should_respond(&perception);
    let prompt = match after_gate(respond, &perception, &vec![]) {
        DecisionStep::Generate(prompt) => prompt,
        other => panic!("unexpected step {other:?}"),
    };
    let action = conclude(engine.provider.generate(&prompt), None);
    assert!(matches!(action, Some(AgentAction::Speak(_))));
}

#[test]
fn rules_call_for_an_answer() {
    let provider = RuleBasedProvider::default();
    let cases = [
        ("what?", true),
        ("什么？", true),
        ("@Alice come", true),
        ("@Bob come", false),
        ("I need HELP", true),
        ("hello", false),
    ];
    for (text, expected) in cases {
        let p = perceiving("", vec![said(Sender::UserSudo, text)]);
        assert_eq!(provider.should_respond(&p), expected, "{text}");
    }
    assert!(!provider.should_respond(&perceiving("", vec![said(Sender::System, "what?")])));
    let mixed = vec![said(Sender::UserSudo, "hello"), said(Sender::System, "what?")];
    assert!(!provider.should_respond(&perceiving("", mixed)));
    assert!(RuleBasedProvider::mentioned("Alice", "hi @Alice!"));
    assert!(RuleBasedProvider::wants_answer("A", "x", "help"));
    assert!(!RuleBasedProvider::wants_answer("A", "HELP", "HELP"));
}

#[test]
fn rules_echo_the_users_last_words() {
    let line = |role: ChatRole, content: &str| ChatMessage {
        role,
        content: content.to_string(),
        name: None,
    };
    let provider = RuleBasedProvider::default();
    assert_eq!(provider.generate(&vec![line(ChatRole::System, "x")]), "……");
    let prompt = vec![
        line(ChatRole::User, "one"),
        line(ChatRole::User, "two"),
        line(ChatRole::Assistant, "three"),
    ];
    assert_eq!(provider.generate(&prompt), "收到：two");
}

#[test]
fn messages_can_ask_for_a_tool_themselves() {
    let call = |text: &str| user_call_of(text);
    let expected = |tool: &str, args: &str| Some((tool.to_string(), parse_json(args).unwrap()));
    assert_eq!(call("!net_get http://x"), expected("net", "{\"method\":\"GET\",\"url\":\"http://x\"}"));
    assert_eq!(call("!bash ls -l"), expected("bash", "{\"cmd\":\"ls -l\",\"timeout_ms\":30000}"));
    let read = call("!fs_read /etc/hosts").unwrap();
    assert_eq!(read.0, "fs");
    assert_eq!(read.1.get("op"), Some(&Json::Text("read".to_string())));
    assert_eq!(read.1.get("path"), Some(&Json::Text("/etc/hosts".to_string())));
    assert_eq!(read.1.get("max_bytes"), Some(&Json::Integer(65536)));
    assert_eq!(
        load_call_of("!conv_load task-42"),
        expected("conv_load", "{\"conversation_id\":\"task-42\",\"max_messages\":200}"),
    );
    for plain in ["!bash", "bash ls", " !bash ls", "!fs_write x", "!conv_load x"] {
        assert_eq!(call(plain), None, "{plain}");
    }
    for plain in ["", "!conv_load", " !conv_load x", "!bash ls"] {
        assert_eq!(load_call_of(plain), None, "{plain}");
    }
}

/// The command that a step has the shell run, if it does.
fn shell_command(step: DecisionStep) -> Option<String> {
    match step {
        DecisionStep::Act(Some(AgentAction::ToolCall { tool, args })) => {
            assert_eq!(tool, "bash");
            assert_eq!(args.get("timeout_ms"), Some(&Json::Integer(30000)));
            Some(args.get("cmd").unwrap().as_text().unwrap().to_string())
        }
        _ => None,
    }
}

fn bob() -> Sender {
    Sender::Agent(AgentId::new("Bob"))
}

fn tool_spoke() -> Vec<ChatMessage> {
    vec![ChatMessage {
        role: ChatRole::Tool,
        content: "ok".to_string(),
        name: Some("bash".to_string()),
    }]
}

/// The conversation that a step has loaded, if it does.
fn loaded(step: DecisionStep) -> Option<String> {
    match step {
        DecisionStep::Act(Some(AgentAction::ToolCall { tool, args })) => {
            assert_eq!(tool, "conv_load");
            assert_eq!(args.get("max_messages"), Some(&Json::Integer(200)));
            Some(args.get("conversation_id").unwrap().as_text().unwrap().to_string())
        }
        _ => None,
    }
}

#[test]
fn a_call_of_the_user_waits_until_the_agent_is_to_respond() {
    let engine = DecisionEngine::new(());
    let p = perceiving("", vec![said(bob(), "hi"), said(Sender::UserSudo, "!bash ls")]);
    assert!(matches!(engine.decide(&p), DecisionStep::AskWhether));
    assert_eq!(shell_command(after_gate(true, &p, &vec![])).as_deref(), Some("ls"));
    assert!(matches!(after_gate(false, &p, &vec![]), DecisionStep::Act(None)));
    assert_eq!(shell_command(engine.decide_with_trace(&p, &tool_spoke())).as_deref(), Some("ls"));
    assert!(matches!(first_step(&perceiving("", vec![]), &vec![]), DecisionStep::AskWhether));
}

#[test]
fn a_conversation_is_loaded_at_once_for_whoever_spoke_last() {
    let engine = DecisionEngine::new(());
    for sender in [Sender::UserSudo, bob(), Sender::System] {
        let p = perceiving("", vec![said(Sender::UserSudo, "!bash ls"), said(sender, "!conv_load x")]);
        assert_eq!(loaded(engine.decide(&p)).as_deref(), Some("x"));
        assert_eq!(loaded(engine.decide_with_trace(&p, &tool_spoke())).as_deref(), Some("x"));
    }
}

#[test]
fn an_earlier_wish_to_load_a_conversation_is_void() {
    let engine = DecisionEngine::new(());
    let p = perceiving("", vec![said(Sender::UserSudo, "!conv_load x"), said(bob(), "ok")]);
    assert!(matches!(engine.decide(&p), DecisionStep::AskWhether));
    assert!(matches!(after_gate(true, &p, &vec![]), DecisionStep::Generate(_)));
    assert!(matches!(engine.decide_with_trace(&p, &tool_spoke()), DecisionStep::Generate(_)));
    assert!(wanted_call_of(&p).is_none());
}

#[test]
fn the_latest_message_of_the_user_decides_about_a_call() {
    let engine = DecisionEngine::new(RuleBasedProvider::default());
    let recent = || vec![said(Sender::UserSudo, "!bash echo hi?"), said(bob(), "ok")];
    let p = perceiving("", recent());
    assert!(matches!(engine.decide_with_trace(&p, &vec![]), DecisionStep::AskWhether));
    let respond = engine.provider.should_respond(&p);
    assert!(respond);
    assert_eq!(shell_command(after_gate(respond, &p, &vec![])).as_deref(), Some("echo hi?"));
    assert!(matches!(after_gate(false, &p, &vec![]), DecisionStep::Act(None)));
    let settled = engine.decide_with_trace(&p, &tool_spoke());
    assert_eq!(shell_command(settled).as_deref(), Some("echo hi?"));
    let mut later = recent();
    later.push(said(Sender::UserSudo, "thanks?"));
    let p = perceiving("", later);
    assert!(matches!(engine.decide(&p), DecisionStep::AskWhether));
    assert!(matches!(after_gate(true, &p, &vec![]), DecisionStep::Generate(_)));
}

#[test]
fn no_command_of_others_is_run() {
    let engine = DecisionEngine::new(());
    for sender in [bob(), Sender::System] {
        let p = perceiving("", vec![said(Sender::UserSudo, "hi"), said(sender, "!bash ls")]);
        assert!(matches!(engine.decide(&p), DecisionStep::AskWhether));
        assert!(matches!(after_gate(true, &p, &vec![]), DecisionStep::Generate(_)));
        assert!(matches!(engine.decide_with_trace(&p, &tool_spoke()), DecisionStep::Generate(_)));
        assert!(wanted_call_of(&p).is_none());
    }
}

#[test]
fn a_prompt_holds_the_rules_the_soul_and_the_messages() {
    let recent = vec![
        said(Sender::UserSudo, "hi"),
        said(Sender::Agent(AgentId::new("Bob")), "yo"),
        said(Sender::System, "boot"),
    ];
    let p = perceiving(" be kind ", recent);
    let trace = vec![ChatMessage {
        role: ChatRole::Tool,
        content: "42".to_string(),
        name: Some("bash".to_string()),
    }];
    let prompt = match after_gate(true, &p, &trace) {
        DecisionStep::Generate(prompt) => prompt,
        other => panic!("unexpected step {other:?}"),
    };
    let seen: Vec<(ChatRole, &str)> =
        prompt.iter().skip(1).map(|m| (m.role, m.content.as_str())).collect();
    assert_eq!(prompt[0].content, tool_protocol_system_prompt());
    assert_eq!(
        seen,
        [
            (ChatRole::System, " be kind "),
            (ChatRole::User, "[User: sudo] hi"),
            (ChatRole::Assistant, "[Unic: Bob] yo"),
            (ChatRole::System, "[System] boot"),
            (ChatRole::Tool, "42"),
            (ChatRole::User, "Return the next action JSON now."),
        ],
    );
    assert_eq!(prompt[5].name.as_deref(), Some("bash"));
    match after_gate(true, &perceiving(" \n", vec![]), &vec![]) {
        DecisionStep::Generate(prompt) => assert_eq!(prompt.len(), 2),
        other => panic!("unexpected step {other:?}"),
    }
    assert!(matches!(after_gate(false, &p, &trace), DecisionStep::Act(None)));
}

#[test]
fn the_rules_have_fifteen_lines() {
    let rules = tool_protocol_system_prompt();
    let lines: Vec<&str> = rules.split('\n').collect();
    assert_eq!(lines.len(), 15);
    assert_eq!(lines[0], "You are an autonomous agent running inside UnicOS.");
    assert_eq!(lines[5], r#"  - {"action":"speak","text":"..."}"#);
    assert_eq!(lines[14], "If you need a tool, choose tool action; otherwise choose speak.");
}

#[test]
fn fences_are_taken_off() {
    assert_eq!(strip_json_fence(" {\"a\":1} "), "{\"a\":1}");
    assert_eq!(strip_json_fence("```json\n{}\n```"), "{}");
    assert_eq!(strip_json_fence("```\n{}\n``````"), "{}");
    assert_eq!(strip_json_fence("{}```"), "{}```");
    assert_eq!(strip_json_fence("```"), "");
}

#[test]
fn what_the_model_wrote_becomes_an_action() {
    let text = "plain".to_string();
    let spoken = conclude(text.clone(), Some(NextAction::Speak { text: "hi".to_string() }));
    assert!(matches!(spoken, Some(AgentAction::Speak(t)) if t == "hi"));
    assert!(matches!(conclude(text.clone(), None), Some(AgentAction::Speak(t)) if t == "plain"));
    assert!(conclude(text.clone(), Some(NextAction::Noop)).is_none());
    let tool = |args: Json| NextAction::Tool { tool: "bash".to_string(), args };
    match conclude(text.clone(), Some(tool(Json::Null))) {
        Some(AgentAction::ToolCall { tool, args }) => {
            assert_eq!((tool.as_str(), args), ("bash", Json::Object(vec![])));
        }
        other => panic!("unexpected action {other:?}"),
    }
    match conclude(text, Some(tool(Json::Bool(true)))) {
        Some(AgentAction::ToolCall { args, .. }) => assert_eq!(args, Json::Bool(true)),
        other => panic!("unexpected action {other:?}"),
    }
}
