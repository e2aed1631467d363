use unicos::common::{
    AgentId, Envelope, Message, Sender, Timestamp, Topic, UnicError, DM_PREFIX,
};
use unicos::conversation::ConversationId;

#[test]
fn topics_begin_with_a_hash_sign() {
    assert_eq!(Topic::new("general").as_str(), "#general");
    assert_eq!(Topic::new("#general").as_str(), "#general");
    assert_eq!(Topic::new("").as_str(), "#");
    assert_eq!(Topic::new("general"), Topic::new("#general"));
    assert_eq!(Topic::verbatim("general".to_string()).as_str(), "general");
}

#[test]
fn a_topic_made_of_its_own_name_is_the_same() {
    let t = Topic::new("project_x");
    assert!(Topic::new(t.as_str()).same_as(&t));
}

#[test]
fn direct_messages_have_a_topic_of_their_own() {
    let t = Topic::dm("sudo", "Alice");
    assert_eq!(t.as_str(), format!("{DM_PREFIX}sudo:Alice"));
    assert!(t.is_dm() && !Topic::new("general").is_dm());
    assert_eq!(t.dm_participants(), Some(("sudo", "Alice")));
    assert_eq!(Topic::dm("a", "b:c").dm_participants(), Some(("a", "b:c")));
}

#[test]
fn a_broken_direct_topic_has_no_sides() {
    for name in ["#dm:", "#dm:a", "#dm:a:", "#dm::b", "#general"] {
        assert_eq!(Topic::new(name).dm_participants(), None, "{name}");
    }
}

#[test]
fn senders_have_labels() {
    assert_eq!(Sender::UserSudo.label(), "[User: sudo]");
    assert_eq!(Sender::Agent(AgentId::new("Alice")).label(), "[Unic: Alice]");
    assert_eq!(Sender::System.label(), "[System]");
    assert_eq!(Sender::default(), Sender::UserSudo);
    assert!(Sender::UserSudo.is_user() && !Sender::System.is_user());
}

#[test]
fn agents_are_told_apart_by_name() {
    let a = AgentId::new("Alice");
    assert!(a.same_as(&a.clone()) && !a.same_as(&AgentId::new("Bob")));
    assert_eq!(a.to_string(), "Alice");
}

#[test]
fn mapping_an_envelope_keeps_its_cover() {
    let env = Envelope {
        id: 7,
        ts: Timestamp { secs: 1, nanos: 2 },
        topic: Topic::new("general"),
        sender: Sender::System,
        conversation_id: ConversationId::from_seed("x"),
        payload: Message { text: "hello".to_string() },
    };
    let seen = env.clone().map(|m| m.text.len());
    assert_eq!(seen.payload, 5);
    assert_eq!((seen.id, seen.ts), (env.id, env.ts));
    assert_eq!((seen.topic, seen.sender), (env.topic, env.sender));
    assert_eq!(seen.conversation_id, env.conversation_id);
}

#[test]
fn errors_say_what_went_wrong() {
    let e = "x".to_string();
    assert_eq!(UnicError::Io(e.clone()).to_string(), "io error: x");
    assert_eq!(UnicError::SerdeJson(e.clone()).to_string(), "serde json error: x");
    assert_eq!(UnicError::TomlDe(e.clone()).to_string(), "toml deserialize error: x");
    assert_eq!(UnicError::TomlSer(e.clone()).to_string(), "toml serialize error: x");
    assert_eq!(UnicError::BusSend.to_string(), "bus send error");
    assert_eq!(UnicError::Llm(e.clone()).to_string(), "llm error: x");
    assert_eq!(UnicError::Tool(e.clone()).to_string(), "tool error: x");
    assert_eq!(UnicError::Notify(e).to_string(), "notify error: x");
}

#[test]
fn conversations_are_eight_hexadecimal_digits() {
    assert_eq!(ConversationId::default().as_str(), "00000000");
    assert_eq!(ConversationId::parse_hex("DeadBEEF").unwrap().as_str(), "deadbeef");
    for bad in ["", "deadbee", "deadbeef0", "deadbeeg", "déadbee"] {
        assert!(ConversationId::parse_hex(bad).is_none(), "{bad}");
    }
}

#[test]
fn seeds_give_their_checksum() {
    assert_eq!(ConversationId::from_seed("").as_str(), "811c9dc5");
    assert_eq!(ConversationId::from_seed("a").as_str(), "e40c292c");
    assert_eq!(ConversationId::from_seed("foobar").as_str(), "bf9cf968");
    let id = ConversationId::from_seed("task-42");
    assert!(ConversationId::parse_hex(&id.to_string()).unwrap().same_as(&id));
}
