//! The vocabulary that every part of the system shares: who speaks, where,
//! and what travels over the bus.

use vstd::prelude::*;
use vstd::string::*;
use crate::conversation::ConversationId;
use crate::text::{
    before_first, begins, count_before, lemma_before_first, same, starts_with, strip_prefix,
};

verus! {

/// The name of an agent.
#[derive(Debug, PartialEq, Eq, Hash)]
pub struct AgentId(String);

impl View for AgentId {
    type V = Seq<char>;

    closed spec fn view(&self) -> Seq<char> {
        self.0@
    }
}

impl AgentId {
    /// The agent called `id`.
    pub fn new(id: &str) -> (r: AgentId)
        ensures
            r@ == id@,
    {
        AgentId(id.to_owned())
    }

    /// The agent's name.
    pub fn as_str(&self) -> (r: &str)
        ensures
            r@ == self@,
    {
        self.0.as_str()
    }

    /// The agent's name, as a string of its own.
    pub fn to_string(&self) -> (r: String)
        ensures
            r@ == self@,
    {
        self.0.clone()
    }

    /// Whether both are the same agent.
    pub fn same_as(&self, other: &AgentId) -> (r: bool)
        ensures
            r == (self@ == other@),
    {
        same(self.as_str(), other.as_str())
    }
}

impl Clone for AgentId {
    fn clone(&self) -> (r: AgentId)
        ensures
            r == *self,
    {
        AgentId(self.0.clone())
    }
}

/// The name of a topic made from `raw`: it begins with a hash sign.
pub open spec fn hashed(raw: Seq<char>) -> Seq<char> {
    if raw.len() > 0 && raw[0] == '#' {
        raw
    } else {
        seq!['#'] + raw
    }
}

/// What the topics of direct messages begin with.
pub const DM_PREFIX: &'static str = "#dm:";

/// The name of the topic of the direct messages between `a` and `b`.
pub open spec fn dm_name(a: Seq<char>, b: Seq<char>) -> Seq<char> {
    DM_PREFIX@ + a + ":"@ + b
}

/// The two sides that the name of a topic of direct messages gives: what stands
/// before the first colon behind the prefix, and what stands after it.
pub open spec fn dm_pair(name: Seq<char>) -> Option<(Seq<char>, Seq<char>)> {
    let rest = name.skip(DM_PREFIX@.len() as int);
    let k = before_first(rest, ':') as int;
    if !begins(name, DM_PREFIX@) || k == 0 || k + 1 >= rest.len() {
        None
    } else {
        Some((rest.take(k), rest.skip(k + 1)))
    }
}

/// The topic of the direct messages between two sides gives both of them back.
pub proof fn law_dm_gives_its_sides_back(a: Seq<char>, b: Seq<char>)
    requires
        a.len() > 0,
        b.len() > 0,
        !a.contains(':'),
    ensures
        begins(dm_name(a, b), DM_PREFIX@),
        dm_pair(dm_name(a, b)) == Some((a, b)),
{
    reveal_strlit("#dm:");
    reveal_strlit(":");
    let name = dm_name(a, b);
    let rest = name.skip(4);
    assert(":"@ =~= seq![':']);
    assert(name.take(4) =~= DM_PREFIX@);
    assert(rest =~= a + seq![':'] + b);
    assert forall|i: int| 0 <= i < a.len() implies #[trigger] rest[i] != ':' by {
        assert(rest[i] == a[i]);
        assert(a.contains(a[i]));
    }
    lemma_before_first(rest, ':', a.len() as int);
    assert(rest.take(a.len() as int) =~= a);
    assert(rest.skip(a.len() as int + 1) =~= b);
}

/// A topic's name is left as it is when a topic is made of it again.
pub proof fn law_topic_name_is_stable(raw: Seq<char>)
    ensures
        hashed(hashed(raw)) == hashed(raw),
        hashed(raw).len() > 0,
        hashed(raw)[0] == '#',
{
}

/// A place on the bus that messages are sent to.
#[derive(Debug, PartialEq, Eq, Hash)]
pub struct Topic(String);

impl View for Topic {
    type V = Seq<char>;

    closed spec fn view(&self) -> Seq<char> {
        self.0@
    }
}

impl Topic {
    /// The topic called `raw`; a hash sign is put in front where it is missing.
    pub fn new(raw: &str) -> (r: Topic)
        ensures
            r@ == hashed(raw@),
    {
        proof {
            reveal_strlit("#");
            assert("#"@ =~= seq!['#']);
        }
        if starts_with(raw, "#") {
            assert(raw@.take(1)[0] == '#');
            Topic(raw.to_owned())
        } else {
            proof {
                if raw@.len() > 0 && raw@[0] == '#' {
                    assert(raw@.take(1) =~= seq!['#']);
                }
            }
            Topic("#".to_owned().concat(raw))
        }
    }

    /// The topic that has exactly this name, as it was written down before.
    pub fn verbatim(name: String) -> (r: Topic)
        ensures
            r@ == name@,
    {
        Topic(name)
    }

    /// The topic's name.
    pub fn as_str(&self) -> (r: &str)
        ensures
            r@ == self@,
    {
        self.0.as_str()
    }

    /// The topic's name, as a string of its own.
    pub fn to_string(&self) -> (r: String)
        ensures
            r@ == self@,
    {
        self.0.clone()
    }

    /// The topic of the direct messages between `a` and `b`.
    pub fn dm(a: &str, b: &str) -> (r: Topic)
        ensures
            r@ == dm_name(a@, b@),
    {
        Topic(DM_PREFIX.to_owned().concat(a).concat(":").concat(b))
    }

    /// Whether this is a topic of direct messages.
    pub fn is_dm(&self) -> (r: bool)
        ensures
            r == begins(self@, DM_PREFIX@),
    {
        starts_with(self.as_str(), DM_PREFIX)
    }

    /// The two sides of a topic of direct messages.
    pub fn dm_participants(&self) -> (r: Option<(&str, &str)>)
        ensures
            match r {
                Some((a, b)) => dm_pair(self@) == Some((a@, b@)),
                None => dm_pair(self@) is None,
            },
    {
        match strip_prefix(self.as_str(), DM_PREFIX) {
            None => None,
            Some(rest) => {
                let k: usize = count_before(rest, ':');
                let n: usize = rest.unicode_len();
                if k == 0 || k == n || k + 1 == n {
                    return None;
                }
                let a = rest.substring_char(0, k);
                let b = rest.substring_char(k + 1, n);
                assert(a@ =~= rest@.take(k as int));
                assert(b@ =~= rest@.skip(k + 1));
                Some((a, b))
            },
        }
    }

    /// Whether both are the same topic.
    pub fn same_as(&self, other: &Topic) -> (r: bool)
        ensures
            r == (self@ == other@),
    {
        same(self.as_str(), other.as_str())
    }
}

impl Clone for Topic {
    fn clone(&self) -> (r: Topic)
        ensures
            r == *self,
    {
        Topic(self.0.clone())
    }
}

/// Who sent a message.
#[derive(Debug, PartialEq, Eq)]
pub enum Sender {
    UserSudo,
    Agent(AgentId),
    System,
}

impl Default for Sender {
    fn default() -> (r: Sender)
        ensures
            r == Sender::UserSudo,
    {
        Sender::UserSudo
    }
}

impl Clone for Sender {
    fn clone(&self) -> (r: Sender)
        ensures
            r == *self,
    {
        match self {
            Sender::UserSudo => Sender::UserSudo,
            Sender::Agent(id) => Sender::Agent(id.clone()),
            Sender::System => Sender::System,
        }
    }
}

impl Sender {
    /// How a sender is shown in front of what it says.
    pub open spec fn shown(self) -> Seq<char> {
        match self {
            Sender::UserSudo => "[User: sudo]"@,
            Sender::Agent(id) => "[Unic: "@ + id@ + "]"@,
            Sender::System => "[System]"@,
        }
    }

    /// How the sender is shown in front of what it says.
    pub fn label(&self) -> (r: String)
        ensures
            r@ == self.shown(),
    {
        match self {
            Sender::UserSudo => "[User: sudo]".to_owned(),
            Sender::Agent(id) => "[Unic: ".to_owned().concat(id.as_str()).concat("]"),
            Sender::System => "[System]".to_owned(),
        }
    }

    /// Whether the sender is the user.
    pub fn is_user(&self) -> (r: bool)
        ensures
            r == (*self is UserSudo),
    {
        match self {
            Sender::UserSudo => true,
            _ => false,
        }
    }
}

/// What is said.
#[derive(Debug)]
pub struct Message {
    pub text: String,
}

impl Clone for Message {
    fn clone(&self) -> (r: Message)
        ensures
            r == *self,
    {
        Message { text: self.text.clone() }
    }
}

/// What the user orders.
#[derive(Debug)]
pub enum Command {
    Spawn { id: AgentId },
    Kill { id: AgentId },
    Purge { id: AgentId, confirm: bool },
    JoinTopic { id: AgentId, topic: Topic },
    Sleep { id: AgentId },
    Wake { id: AgentId },
    SetUserTopic { topic: Topic },
}

impl Clone for Command {
    fn clone(&self) -> (r: Command)
        ensures
            r == *self,
    {
        match self {
            Command::Spawn { id } => Command::Spawn { id: id.clone() },
            Command::Kill { id } => Command::Kill { id: id.clone() },
            Command::Purge { id, confirm } => Command::Purge { id: id.clone(), confirm: *confirm },
            Command::JoinTopic { id, topic } => Command::JoinTopic {
                id: id.clone(),
                topic: topic.clone(),
            },
            Command::Sleep { id } => Command::Sleep { id: id.clone() },
            Command::Wake { id } => Command::Wake { id: id.clone() },
            Command::SetUserTopic { topic } => Command::SetUserTopic { topic: topic.clone() },
        }
    }
}

/// What the system tells about its agents.
#[derive(Debug)]
pub enum SystemNotification {
    AgentSpawned { id: AgentId },
    AgentKilled { id: AgentId },
    AgentPurged { id: AgentId },
    AgentPanicked { id: AgentId, message: String },
    AgentJoinedTopic { id: AgentId, topic: Topic },
    AgentSlept { id: AgentId },
    AgentWoke { id: AgentId },
}

impl Clone for SystemNotification {
    fn clone(&self) -> (r: SystemNotification)
        ensures
            r == *self,
    {
        match self {
            SystemNotification::AgentSpawned { id } => SystemNotification::AgentSpawned {
                id: id.clone(),
            },
            SystemNotification::AgentKilled { id } => SystemNotification::AgentKilled {
                id: id.clone(),
            },
            SystemNotification::AgentPurged { id } => SystemNotification::AgentPurged {
                id: id.clone(),
            },
            SystemNotification::AgentPanicked { id, message } => {
                SystemNotification::AgentPanicked { id: id.clone(), message: message.clone() }
            },
            SystemNotification::AgentJoinedTopic { id, topic } => {
                SystemNotification::AgentJoinedTopic { id: id.clone(), topic: topic.clone() }
            },
            SystemNotification::AgentSlept { id } => SystemNotification::AgentSlept {
                id: id.clone(),
            },
            SystemNotification::AgentWoke { id } => SystemNotification::AgentWoke { id: id.clone() },
        }
    }
}

/// What travels over the bus.
#[derive(Debug)]
pub enum Event {
    Message(Message),
    Command(Command),
    SystemNotification(SystemNotification),
}

impl Clone for Event {
    fn clone(&self) -> (r: Event)
        ensures
            r == *self,
    {
        match self {
            Event::Message(m) => Event::Message(m.clone()),
            Event::Command(c) => Event::Command(c.clone()),
            Event::SystemNotification(n) => Event::SystemNotification(n.clone()),
        }
    }
}

/// A moment in UTC: seconds since 1970, and the nanoseconds within the second.
#[derive(Clone, Copy, Debug, PartialEq, Eq, Structural)]
pub struct Timestamp {
    pub secs: i64,
    pub nanos: u32,
}

/// Something that travels, with what is written on its cover.
#[derive(Debug)]
pub struct Envelope<T> {
    pub id: u128,
    pub ts: Timestamp,
    pub topic: Topic,
    pub sender: Sender,
    pub conversation_id: ConversationId,
    pub payload: T,
}

impl<T> Envelope<T> {
    /// The same cover around what `f` makes of the contents.
    pub fn map<U, F: FnOnce(T) -> U>(self, f: F) -> (r: Envelope<U>)
        requires
            call_requires(f, (self.payload,)),
        ensures
            r.id == self.id,
            r.ts == self.ts,
            r.topic == self.topic,
            r.sender == self.sender,
            r.conversation_id == self.conversation_id,
            call_ensures(f, (self.payload,), r.payload),
    {
        Envelope {
            id: self.id,
            ts: self.ts,
            topic: self.topic,
            sender: self.sender,
            conversation_id: self.conversation_id,
            payload: f(self.payload),
        }
    }
}

impl<T: Clone> Clone for Envelope<T> {
    fn clone(&self) -> (r: Envelope<T>)
        ensures
            r.id == self.id,
            r.ts == self.ts,
            r.topic == self.topic,
            r.sender == self.sender,
            r.conversation_id == self.conversation_id,
            cloned(self.payload, r.payload),
    {
        Envelope {
            id: self.id,
            ts: self.ts,
            topic: self.topic.clone(),
            sender: self.sender.clone(),
            conversation_id: self.conversation_id.clone(),
            payload: self.payload.clone(),
        }
    }
}

/// The part that a line of a chat plays towards a language model.
#[derive(Clone, Copy, Debug, PartialEq, Eq, Structural)]
pub enum ChatRole {
    System,
    User,
    Assistant,
    Tool,
}

/// A line of a chat with a language model.
#[derive(Debug)]
pub struct ChatMessage {
    pub role: ChatRole,
    pub content: String,
    pub name: Option<String>,
}

/// What a line of a chat says.
#[verifier::ext_equal]
pub struct ChatLine {
    pub role: ChatRole,
    pub content: Seq<char>,
    pub name: Option<Seq<char>>,
}

impl View for ChatMessage {
    type V = ChatLine;

    open spec fn view(&self) -> ChatLine {
        ChatLine {
            role: self.role,
            content: self.content@,
            name: match self.name {
                Some(n) => Some(n@),
                None => None,
            },
        }
    }
}

/// What the lines of a chat say.
pub open spec fn chat_lines(chat: Seq<ChatMessage>) -> Seq<ChatLine> {
    chat.map_values(|m: ChatMessage| m@)
}

impl Clone for ChatMessage {
    fn clone(&self) -> (r: ChatMessage)
        ensures
            r == *self,
    {
        ChatMessage {
            role: self.role,
            content: self.content.clone(),
            name: match &self.name {
                Some(n) => Some(n.clone()),
                None => None,
            },
        }
    }
}

/// What an agent has before it when it decides.
#[derive(Clone, Debug)]
pub struct Perception {
    pub agent_id: AgentId,
    pub topic: Topic,
    pub soul: String,
    pub recent: Vec<Envelope<Message>>,
}

/// What can go wrong.
#[derive(Debug)]
pub enum UnicError {
    Io(String),
    SerdeJson(String),
    TomlDe(String),
    TomlSer(String),
    BusSend,
    Llm(String),
    Tool(String),
    Notify(String),
}

impl UnicError {
    /// What the error says.
    pub open spec fn said(self) -> Seq<char> {
        match self {
            UnicError::Io(e) => "io error: "@ + e@,
            UnicError::SerdeJson(e) => "serde json error: "@ + e@,
            UnicError::TomlDe(e) => "toml deserialize error: "@ + e@,
            UnicError::TomlSer(e) => "toml serialize error: "@ + e@,
            UnicError::BusSend => "bus send error"@,
            UnicError::Llm(e) => "llm error: "@ + e@,
            UnicError::Tool(e) => "tool error: "@ + e@,
            UnicError::Notify(e) => "notify error: "@ + e@,
        }
    }

    /// What the error says.
    pub fn to_string(&self) -> (r: String)
        ensures
            r@ == self.said(),
    {
        match self {
            UnicError::Io(e) => "io error: ".to_owned().concat(e.as_str()),
            UnicError::SerdeJson(e) => "serde json error: ".to_owned().concat(e.as_str()),
            UnicError::TomlDe(e) => "toml deserialize error: ".to_owned().concat(e.as_str()),
            UnicError::TomlSer(e) => "toml serialize error: ".to_owned().concat(e.as_str()),
            UnicError::BusSend => "bus send error".to_owned(),
            UnicError::Llm(e) => "llm error: ".to_owned().concat(e.as_str()),
            UnicError::Tool(e) => "tool error: ".to_owned().concat(e.as_str()),
            UnicError::Notify(e) => "notify error: ".to_owned().concat(e.as_str()),
        }
    }
}

/// A topic is called as it is given, and only a missing hash sign is put in front; so two names
/// lead to one topic just where they differ by no more than that.
pub proof fn law_a_topic_keeps_its_name(raw: &str, topic: Topic)
    requires
        call_ensures(Topic::new, (raw,), topic),
    ensures
        raw@.len() > 0 && raw@[0] == '#' ==> topic@ == raw@,
        !(raw@.len() > 0 && raw@[0] == '#') ==> {
            &&& topic@.len() == raw@.len() + 1
            &&& topic@[0] == '#'
            &&& topic@.skip(1) == raw@
        },
{
    if !(raw@.len() > 0 && raw@[0] == '#') {
        assert(topic@.skip(1) =~= raw@);
    }
}

/// Two sides can be read out of the name of a topic only where it is the name of the topic of
/// their direct messages.
pub proof fn law_the_sides_make_up_the_name(name: Seq<char>, a: Seq<char>, b: Seq<char>)
    requires
        dm_pair(name) == Some((a, b)),
    ensures
        name == "#dm:"@ + a + ":"@ + b,
        a.len() > 0,
        b.len() > 0,
        !a.contains(':'),
{
    reveal_strlit("#dm:");
    reveal_strlit(":");
    let rest = name.skip(4);
    lemma_before_first_holds(rest, ':');
    let k = before_first(rest, ':') as int;
    assert(":"@ =~= seq![':']);
    assert(name =~= name.take(4) + rest);
    assert(rest =~= a + seq![':'] + b);
    assert(name =~= "#dm:"@ + a + ":"@ + b);
    if a.contains(':') {
        let i = choose|i: int| 0 <= i < a.len() && a[i] == ':';
        assert(rest[i] == ':');
    }
}

proof fn lemma_before_first_holds(s: Seq<char>, c: char)
    ensures
        before_first(s, c) <= s.len(),
        before_first(s, c) < s.len() ==> s[before_first(s, c) as int] == c,
        forall|i: int| 0 <= i < before_first(s, c) ==> #[trigger] s[i] != c,
    decreases s.len(),
{
    if s.len() > 0 && s[0] != c {
        let rest = s.drop_first();
        lemma_before_first_holds(rest, c);
        assert forall|i: int| 0 <= i < before_first(s, c) implies #[trigger] s[i] != c by {
            if i > 0 {
                assert(rest[i - 1] != c);
            }
        }
    }
}

/// A sender is shown by who it is: no agent looks like the user or the system, and two agents
/// look the same only where they are called the same.
pub proof fn law_senders_can_be_told_apart(a: AgentId, b: AgentId)
    ensures
        Sender::UserSudo.shown() == "[User: sudo]"@,
        Sender::System.shown() == "[System]"@,
        Sender::Agent(a).shown() == "[Unic: "@ + a@ + "]"@,
        Sender::Agent(a).shown() != Sender::UserSudo.shown(),
        Sender::Agent(a).shown() != Sender::System.shown(),
        Sender::Agent(a).shown() == Sender::Agent(b).shown() ==> a@ == b@,
{
    reveal_strlit("[User: sudo]");
    reveal_strlit("[System]");
    reveal_strlit("[Unic: ");
    reveal_strlit("]");
    let x = Sender::Agent(a).shown();
    let y = Sender::Agent(b).shown();
    assert(x[2] == 'n');
    assert("[User: sudo]"@[2] == 's');
    assert("[System]"@[2] == 'y');
    assert(x.subrange(7, x.len() - 1) =~= a@);
    assert(y.subrange(7, y.len() - 1) =~= b@);
}

/// An error says of what kind it is and then all that was found out about it.
pub proof fn law_an_error_tells_its_reason(error: UnicError, shown: String, why: String)
    requires
        call_ensures(UnicError::to_string, (&error,), shown),
    ensures
        error == UnicError::Io(why) ==> shown@ == "io error: "@ + why@,
        error == UnicError::SerdeJson(why) ==> shown@ == "serde json error: "@ + why@,
        error == UnicError::TomlDe(why) ==> shown@ == "toml deserialize error: "@ + why@,
        error == UnicError::TomlSer(why) ==> shown@ == "toml serialize error: "@ + why@,
        error is BusSend ==> shown@ == "bus send error"@,
        error == UnicError::Llm(why) ==> shown@ == "llm error: "@ + why@,
        error == UnicError::Tool(why) ==> shown@ == "tool error: "@ + why@,
        error == UnicError::Notify(why) ==> shown@ == "notify error: "@ + why@,
{
}

} // verus!
