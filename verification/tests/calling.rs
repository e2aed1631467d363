use unicos::common::{
    AgentId, ChatMessage, ChatRole, Envelope, Message, Perception, Sender, Timestamp, Topic,
    UnicError,
};
use unicos::conversation::ConversationId;
use unicos::json::{parse_json, Json};
use unicos::responses::{
    backoff_ms, excerpt_of, is_cuttable, read_error_reply, read_good_reply, CallStep, PostOutcome,
    ResponsesCall, ResponsesProvider,
};

fn provider() -> ResponsesProvider {
    ResponsesProvider::new("https://x/v1//", "KEY", Some("k".to_string()), "m")
}

fn begun() -> ResponsesCall {
    provider().responses_create(Json::Text("hi".to_string()), None).unwrap()
}

fn perceiving(soul: &str, recent: Vec<(Sender, &str)>) -> Perception {
    Perception {
        agent_id: AgentId::new("Alice"),
        topic: Topic::new("general"),
        soul: soul.to_string(),
        recent: recent
            .into_iter()
            .map(|(sender, text)| Envelope {
                id: 1,
                ts: Timestamp { secs: 0, nanos: 0 },
                topic: Topic::new("general"),
                sender,
                conversation_id: ConversationId::default(),
                payload: Message { text: text.to_string() },
            })
            .collect(),
    }
}

fn failed(step: CallStep) -> String {
    match step {
        CallStep::Done(Err(e)) => e.to_string(),
        other => panic!("unexpected step {other:?}"),
    }
}

#[test]
fn a_provider_has_a_minute_and_two_more_tries() {
    let p = provider();
    assert_eq!((p.timeout_ms, p.max_retries), (60_000, 2));
    assert_eq!((p.base_url.as_str(), p.api_key_env.as_str()), ("https://x/v1//", "KEY"));
    assert_eq!((p.api_key.as_deref(), p.model.as_str()), (Some("k"), "m"));
}

#[test]
fn the_key_of_the_environment_comes_first() {
    let p = provider();
    assert_eq!(p.api_key(Some("e".to_string())).unwrap(), "e");
    assert_eq!(p.api_key(Some(" ".to_string())).unwrap(), "k");
    assert_eq!(p.api_key(None).unwrap(), "k");
    let p = ResponsesProvider::new("u", "KEY", Some("  ".to_string()), "m");
    assert_eq!(
        p.api_key(None).unwrap_err().to_string(),
        "llm error: missing api key: set env var KEY or configure llm.responses.api_key",
    );
}

#[test]
fn a_call_begins_with_a_key() {
    let call = begun();
    assert_eq!(call.url, "https://x/v1/responses");
    assert_eq!(call.authorization, "Bearer k");
    let expected = Json::Object(vec![
        ("model".to_string(), Json::Text("m".to_string())),
        ("input".to_string(), Json::Text("hi".to_string())),
    ]);
    assert_eq!(call.body, expected);
    let p = ResponsesProvider::new("u", "KEY", None, "m");
    assert!(matches!(p.generate(&vec![], None), Err(UnicError::Llm(_))));
}

#[test]
fn a_prompt_becomes_one_text() {
    let line = |role: ChatRole, content: &str| ChatMessage {
        role,
        content: content.to_string(),
        name: None,
    };
    let prompt = vec![
        line(ChatRole::System, " a \n"),
        line(ChatRole::User, "b"),
        line(ChatRole::Assistant, ""),
        line(ChatRole::Tool, "d"),
    ];
    let expected = Json::Text("system: a\nuser: b\nassistant: \ntool: d".to_string());
    assert_eq!(ResponsesProvider::prompt_to_input(&prompt), expected);
    let call = provider().generate(&prompt, None).unwrap();
    assert_eq!(call.body.get("input"), Some(&expected));
}

#[test]
fn the_doorkeeper_sees_the_soul_and_the_messages() {
    let recent = vec![
        (Sender::UserSudo, " hi "),
        (Sender::Agent(AgentId::new("Bob")), "yo"),
        (Sender::System, "x"),
    ];
    let input = ResponsesProvider::perception_to_gate_input(&perceiving(" be kind ", recent));
    let parts = input.as_array().unwrap();
    assert_eq!(
        parts[0].get("content").unwrap().as_text().unwrap(),
        "You are a decision gate for an autonomous agent.\nDecide whether the agent should \
         respond to the latest user message.\nOutput exactly YES or NO (no extra words).\nDo NOT \
         output the agent's actual reply.\n",
    );
    assert_eq!(
        parts[1].get("content").unwrap().as_text().unwrap(),
        "AGENT_SOUL:\nbe kind\n\nRECENT_MESSAGES:\nuser: hi\nassistant: yo\nsystem: x\n\n\
         Question: Should the agent respond now? Answer YES or NO.\n",
    );
    assert_eq!(parts[0].get("role").unwrap().as_text(), Some("system"));
    assert_eq!(parts[1].get("role").unwrap().as_text(), Some("user"));
}

#[test]
fn nobody_is_asked_when_the_user_said_nothing() {
    assert!(provider().should_respond(&perceiving("", vec![(Sender::System, "x?")]), None).is_none());
    let asked = provider().should_respond(&perceiving("", vec![(Sender::UserSudo, "x")]), None);
    assert!(asked.unwrap().is_ok());
}

#[test]
fn the_doorkeepers_answer_is_read() {
    let cases = [
        ("yes", true),
        (" Yes, please", true),
        ("NO", false),
        ("not yes", false),
        ("pong", true),
        ("I would say yes", true),
        ("true", true),
        ("should respond", true),
        ("maybe", false),
        ("", false),
    ];
    for (out, expected) in cases {
        assert_eq!(ResponsesProvider::gate_answer(out), expected, "{out}");
    }
}

#[test]
fn the_text_of_a_reply_is_found() {
    let text = |s: &str| ResponsesProvider::extract_output_text(&parse_json(s).unwrap());
    assert_eq!(text("{\"output_text\":\"a\",\"output\":[]}"), Some("a".to_string()));
    assert_eq!(text("{\"output_text\":\"\"}"), Some("".to_string()));
    let items = "{\"output\":[{\"type\":\"reasoning\"},{\"content\":[\
        {\"type\":\"output_text\",\"text\":\"a\"},{\"type\":\"refusal\",\"text\":\"x\"},\
        {\"type\":\"text\",\"text\":\"b\"},{\"type\":\"text\"}]},\
        {\"content\":[{\"type\":\"text\",\"text\":\"c\"}]}]}";
    assert_eq!(text(items), Some("abc".to_string()));
    for none in ["{}", "[]", "{\"output\":{}}", "{\"output\":[]}", "{\"output_text\":1}"] {
        assert_eq!(text(none), None, "{none}");
    }
}

#[test]
fn a_good_reply_ends_the_call() {
    let mut call = begun();
    let text = "{\"output_text\":\"Pong\"}".to_string();
    match call.on_outcome(PostOutcome::Reply { status: 200, text }) {
        CallStep::Done(Ok(answer)) => assert_eq!(answer, "Pong"),
        other => panic!("unexpected step {other:?}"),
    }
    let text = "{}".to_string();
    match begun().on_outcome(PostOutcome::Reply { status: 299, text }) {
        CallStep::Done(Ok(answer)) => assert_eq!(answer, ""),
        other => panic!("unexpected step {other:?}"),
    }
    let text = "x".to_string();
    let e = failed(begun().on_outcome(PostOutcome::Reply { status: 200, text }));
    assert_eq!(e, "llm error: bad json: expected value at line 1 column 1");
    assert_eq!(
        read_good_reply(Err("why".to_string())).unwrap_err().to_string(),
        "llm error: bad json: why",
    );
}

#[test]
fn passing_failures_are_tried_again() {
    let mut call = begun();
    for after in [250, 500] {
        let step = call.on_outcome(PostOutcome::TimedOut);
        assert!(matches!(step, CallStep::Retry { after_ms } if after_ms == after));
    }
    assert_eq!(failed(call.on_outcome(PostOutcome::TimedOut)), "llm error: POST /responses timeout");
    for status in [429, 500, 503, 599] {
        let outcome = PostOutcome::Reply { status, text: "busy".to_string() };
        assert!(matches!(begun().on_outcome(outcome), CallStep::Retry { after_ms: 250 }));
    }
    let sent = PostOutcome::SendFailed("down".to_string());
    assert!(matches!(begun().on_outcome(sent), CallStep::Retry { after_ms: 250 }));
}

#[test]
fn other_failures_end_the_call() {
    let reply = |status: u16, text: &str| PostOutcome::Reply { status, text: text.to_string() };
    assert_eq!(
        failed(begun().on_outcome(reply(401, "who?"))),
        "llm error: provider http error 401 Unauthorized: who?",
    );
    assert_eq!(
        failed(begun().on_outcome(reply(404, "nothing"))),
        "llm error: provider http error 404 Not Found: nothing",
    );
    let relay = "No Codex account is available for responses relay";
    assert!(matches!(begun().on_outcome(reply(404, relay)), CallStep::Retry { .. }));
    assert_eq!(
        failed(begun().on_outcome(PostOutcome::BodyFailed("cut".to_string()))),
        "llm error: read /responses body failed: cut",
    );
    let mut p = provider();
    p.max_retries = 0;
    let mut call = p.responses_create(Json::Null, None).unwrap();
    assert_eq!(
        failed(call.on_outcome(PostOutcome::SendFailed("down".to_string()))),
        "llm error: POST /responses failed: down",
    );
}

#[test]
fn waits_double_until_they_cannot() {
    assert_eq!(backoff_ms(0), 250);
    assert_eq!(backoff_ms(3), 2000);
    assert_eq!(backoff_ms(56), 250 << 56);
    assert_eq!(backoff_ms(57), u64::MAX);
    assert_eq!(backoff_ms(63), u64::MAX);
    for attempt in 0..63 {
        assert!(backoff_ms(attempt) <= backoff_ms(attempt + 1));
    }
}

#[test]
fn long_bodies_are_cut() {
    let short = "x".repeat(2048);
    assert_eq!(excerpt_of(&short), short);
    let long = "x".repeat(2049);
    assert_eq!(excerpt_of(&long), format!("{short}…"));
    let across = format!("{}é", "x".repeat(2047));
    assert!(is_cuttable(&long) && !is_cuttable(&across));
    let (said, again) = read_error_reply(500, "500 X", &long);
    assert_eq!(said, format!("provider http error 500 X: {short}…"));
    assert!(again);
}
