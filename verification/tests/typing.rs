use unicos::common::{AgentId, Envelope, Event, Message, Sender, SystemNotification, Timestamp, Topic};
use unicos::completion::{
    look, Colour, CompletionState, Look, Mark, UnicosCompleter, UnicosHighlighter,
};
use unicos::conversation::ConversationId;

fn known() -> CompletionState {
    let mut st = CompletionState::default();
    for n in ["Carol", "Alice", "Bob"] {
        st.note_agent_spawned(&AgentId::new(n));
    }
    st.note_agent_killed(&AgentId::new("Alice"));
    st.note_topic(&Topic::new("zoo"));
    st.note_topic(&Topic::new("art"));
    st.note_topic(&Topic::new("general"));
    st
}

fn offered(line: &str, pos: usize) -> Vec<(String, String, usize, usize)> {
    UnicosCompleter::new()
        .complete(&known(), line, pos)
        .into_iter()
        .map(|s| {
            assert!(s.append_whitespace);
            (s.value, s.description, s.start, s.end)
        })
        .collect()
}

fn values(line: &str) -> Vec<String> {
    offered(line, line.len()).into_iter().map(|o| o.0).collect()
}

fn marks(line: &str) -> Vec<(usize, usize, Mark)> {
    UnicosHighlighter::default()
        .highlight(line)
        .into_iter()
        .map(|h| (h.start, h.end, h.mark))
        .collect()
}

#[test]
fn running_agents_are_offered_first() {
    let mut st = known();
    assert_eq!(st.agent_suggestions(), ["Bob", "Carol", "Alice"]);
    st.note_agent_purged(&AgentId::new("Alice"));
    st.note_agent_killed(&AgentId::new("Dave"));
    assert_eq!(st.agent_suggestions(), ["Bob", "Carol", "Dave"]);
    st.note_agent_purged(&AgentId::new("Bob"));
    assert_eq!(st.agent_suggestions(), ["Carol", "Dave"]);
}

#[test]
fn usual_topics_are_offered_first() {
    assert_eq!(
        known().topic_suggestions(),
        ["#general", "#system", "#project_x", "#art", "#zoo"],
    );
    assert_eq!(CompletionState::default().topic_suggestions().len(), 3);
}

#[test]
fn what_happens_is_remembered_for_completion() {
    let mut st = CompletionState::default();
    let mut hear = |topic: &str, payload: Event| {
        st.note_event(&Envelope {
            id: 1,
            ts: Timestamp { secs: 0, nanos: 0 },
            topic: Topic::new(topic),
            sender: Sender::System,
            conversation_id: ConversationId::default(),
            payload,
        });
    };
    let id = || AgentId::new("Bob");
    hear("a", Event::SystemNotification(SystemNotification::AgentSpawned { id: id() }));
    hear("b", Event::Message(Message { text: "x".to_string() }));
    hear("b", Event::SystemNotification(SystemNotification::AgentSlept { id: id() }));
    hear("c", Event::SystemNotification(SystemNotification::AgentKilled { id: id() }));
    assert_eq!(st.agent_suggestions(), ["Bob"]);
    assert_eq!(st.topic_suggestions()[3..], ["#a", "#b", "#c"]);
    st.note_agent_purged(&id());
    assert!(st.agent_suggestions().is_empty());
}

#[test]
fn the_first_word_is_coloured_by_its_first_character() {
    assert_eq!(marks("/kill Bob"), [(0, 5, Mark::Command)]);
    assert_eq!(marks("  !bash ls"), [(2, 7, Mark::Bang)]);
    assert_eq!(marks("\u{3000}@Bob"), [(3, 7, Mark::Dm)]);
    assert_eq!(marks("/"), [(0, 1, Mark::Command)]);
    assert_eq!(marks("hello /x"), []);
    assert_eq!(marks(""), []);
}

#[test]
fn every_mark_has_its_look() {
    assert_eq!(look(Mark::Command), Look { colour: Colour::Cyan, bold: true });
    assert_eq!(look(Mark::Bang), Look { colour: Colour::Yellow, bold: false });
    assert_eq!(look(Mark::Dm), Look { colour: Colour::Purple, bold: false });
    assert_eq!(look(Mark::Topic), Look { colour: Colour::LightBlue, bold: false });
}

#[test]
fn topics_are_coloured_wherever_they_stand() {
    assert_eq!(
        marks("/join Bob #é #"),
        [(0, 5, Mark::Command), (10, 13, Mark::Topic)],
    );
    assert_eq!(marks("a#b#c d"), [(1, 5, Mark::Topic), (3, 5, Mark::Topic)]);
    assert_eq!(marks("##"), [(0, 2, Mark::Topic)]);
    assert_eq!(marks("# x"), []);
}

#[test]
fn the_word_at_the_cursor_is_found() {
    assert_eq!(UnicosCompleter::word_span("/kill Bo x", 8), (6, 8, "Bo"));
    assert_eq!(UnicosCompleter::word_span("/kill Bo x", 7), (6, 8, "B"));
    assert_eq!(UnicosCompleter::word_span("/kill Bo x", 6), (6, 8, ""));
    assert_eq!(UnicosCompleter::word_span("/kill", 99), (0, 5, "/kill"));
    assert_eq!(UnicosCompleter::word_span("é b", 2), (0, 2, "é"));
    assert_eq!(UnicosCompleter::word_span("", 0), (0, 0, ""));
    assert!(!UnicosCompleter::is_spannable("é", 1));
    assert!(!UnicosCompleter::is_spannable("a\u{3000}b", 5));
    assert!(UnicosCompleter::is_spannable("a\u{3000}b", 1));
    assert!(UnicosCompleter::is_spannable("a\u{3000} b", 6));
    assert_eq!(UnicosCompleter::tokenize(" a  b"), ["a", "b"]);
}

#[test]
fn commands_are_completed() {
    assert_eq!(values("/").len(), 12);
    assert_eq!(values("/p"), ["/ping", "/purge"]);
    assert_eq!(
        offered("  /qu", 5),
        [("/quit".to_string(), "exit cli".to_string(), 2, 5)],
    );
    assert!(values("/nothing").is_empty());
    assert_eq!(values("/kill ").len(), 12);
}

#[test]
fn agents_are_completed() {
    for cmd in ["/kill", "/sleep", "/wake", "/purge", "/dm", "/join"] {
        assert_eq!(values(&format!("{cmd} C")), ["Carol"], "{cmd}");
    }
    assert_eq!(offered("/kill B x", 7)[0], ("Bob".to_string(), "agent".to_string(), 6, 7));
    assert!(values("/spawn B").is_empty());
    assert!(values("/kill Bob B").is_empty());
}

#[test]
fn topics_are_completed() {
    assert_eq!(values("/topic #"), ["#general", "#system", "#project_x", "#art", "#zoo"]);
    assert_eq!(values("/join Bob #a"), ["#art"]);
    assert!(values("/topic art").is_empty());
    assert_eq!(offered("/topic #z", 9)[0].1, "topic");
}

#[test]
fn names_behind_an_at_sign_are_completed() {
    assert_eq!(values("@"), ["@Bob", "@Carol", "@Alice"]);
    assert_eq!(offered(" @Al", 99), [("@Alice".to_string(), "dm".to_string(), 1, 4)]);
    assert_eq!(values("@Bob C"), ["@Carol"]);
    assert!(values("hello B").is_empty());
}

#[test]
fn offers_go_on_from_what_was_typed() {
    for (line, start) in [("/k", 0), ("/kill C", 6), ("/topic #p", 7), ("@B", 0)] {
        for (value, _, from, to) in offered(line, line.len()) {
            assert!(value.starts_with(&line[start..]), "{value}");
            assert!(from <= line.len() && line.len() <= to);
        }
    }
}
