//! How an agent decides what to do next.

use vstd::prelude::*;
use vstd::string::*;
use crate::common::{
    chat_lines, ChatLine, ChatMessage, ChatRole, Envelope, Message, Perception, Sender,
};
use crate::json::{fields_model, law_the_first_field_counts, object, put, Json, JsonModel};
use crate::llm::{last_user_text, RuleBasedProvider};
use crate::text::{
    begins, blank, is_blank, join, joined, law_every_part_occurs, law_joining_loses_nothing,
    law_parts_occur, occurs, strip_prefix, texts, trim, trim_suffixes, trimmed, without_suffixes,
};

verus! {

/// What an agent does.
#[derive(Debug)]
pub enum AgentAction {
    Speak(String),
    ToolCall { tool: String, args: Json },
}

/// What a language model asks for.
#[derive(Debug)]
pub enum NextAction {
    Speak { text: String },
    Tool { tool: String, args: Json },
    Noop,
}

/// The call that a message of the user asks for by its first word, where it does: the tool, and
/// its arguments.
pub open spec fn user_call(text: Seq<char>) -> Option<(Seq<char>, JsonModel)> {
    if begins(text, "!bash "@) {
        Some(
            (
                "bash"@,
                JsonModel::Object(
                    seq![
                        ("cmd"@, JsonModel::Text(text.skip("!bash "@.len() as int))),
                        ("timeout_ms"@, JsonModel::Integer(30000)),
                    ],
                ),
            ),
        )
    } else if begins(text, "!fs_read "@) {
        Some(
            (
                "fs"@,
                JsonModel::Object(
                    seq![
                        ("op"@, JsonModel::Text("read"@)),
                        ("path"@, JsonModel::Text(text.skip("!fs_read "@.len() as int))),
                        ("max_bytes"@, JsonModel::Integer(65536)),
                    ],
                ),
            ),
        )
    } else if begins(text, "!net_get "@) {
        Some(
            (
                "net"@,
                JsonModel::Object(
                    seq![
                        ("method"@, JsonModel::Text("GET"@)),
                        ("url"@, JsonModel::Text(text.skip("!net_get "@.len() as int))),
                    ],
                ),
            ),
        )
    } else {
        None
    }
}

/// The call that a message asks for, whoever sent it, where it does: to load a conversation.
pub open spec fn load_call(text: Seq<char>) -> Option<(Seq<char>, JsonModel)> {
    if begins(text, "!conv_load "@) {
        Some(
            (
                "conv_load"@,
                JsonModel::Object(
                    seq![
                        (
                            "conversation_id"@,
                            JsonModel::Text(text.skip("!conv_load "@.len() as int)),
                        ),
                        ("max_messages"@, JsonModel::Integer(200)),
                    ],
                ),
            ),
        )
    } else {
        None
    }
}

/// The call that the user's latest message asks for, where it does.
pub open spec fn asked_call(recent: Seq<Envelope<Message>>) -> Option<(Seq<char>, JsonModel)> {
    match last_user_text(recent) {
        Some(t) => user_call(t),
        None => None,
    }
}

/// The conversation that the latest message of all asks to load, where it does.
pub open spec fn asked_load(recent: Seq<Envelope<Message>>) -> Option<(Seq<char>, JsonModel)> {
    if recent.len() > 0 {
        load_call(recent.last().payload.text@)
    } else {
        None
    }
}

/// The call that the messages ask for, where they do. Loading a conversation comes first.
pub open spec fn wanted_call(recent: Seq<Envelope<Message>>) -> Option<(Seq<char>, JsonModel)> {
    match asked_load(recent) {
        Some(call) => Some(call),
        None => asked_call(recent),
    }
}

/// The call that is due without asking the provider: to load a conversation at any time, and
/// what the user asks for once it is settled that the agent responds.
pub open spec fn due_call(recent: Seq<Envelope<Message>>, settled: bool) -> Option<
    (Seq<char>, JsonModel),
> {
    if settled {
        wanted_call(recent)
    } else {
        asked_load(recent)
    }
}

/// Whether `r` is that the tool of `call` is called with its arguments.
pub open spec fn makes_call(call: (Seq<char>, JsonModel), r: DecisionStep) -> bool {
    &&& r matches DecisionStep::Act(Some(AgentAction::ToolCall { tool, args }))
    &&& tool@ == call.0
    &&& args.model() == call.1
}

/// Whether `r` is that the provider is asked for the next action.
pub open spec fn generates(perception: Perception, trace: Seq<ChatMessage>, r: DecisionStep) -> bool {
    &&& r matches DecisionStep::Generate(prompt)
    &&& chat_lines(prompt@) == prompt_lines(perception, trace)
}

/// Whether `r` is the first step of a decision, where `trace` is what the tools said so far: the
/// call that is due, or else a question to the provider.
pub open spec fn begins_with(
    perception: Perception,
    trace: Seq<ChatMessage>,
    r: DecisionStep,
) -> bool {
    match due_call(perception.recent@, trace.len() > 0) {
        Some(call) => makes_call(call, r),
        None => if trace.len() == 0 {
            r is AskWhether
        } else {
            generates(perception, trace, r)
        },
    }
}

/// The conversation that the latest message of all asks to load, where it does.
fn asked_load_of(perception: &Perception) -> (r: Option<(String, Json)>)
    ensures
        match r {
            Some((tool, args)) => asked_load(perception.recent@) == Some((tool@, args.model())),
            None => asked_load(perception.recent@) is None,
        },
{
    let n: usize = perception.recent.len();
    if n > 0 {
        load_call_of(perception.recent[n - 1].payload.text.as_str())
    } else {
        None
    }
}

/// The call that the messages ask for, where they do.
pub fn wanted_call_of(perception: &Perception) -> (r: Option<(String, Json)>)
    ensures
        match r {
            Some((tool, args)) => wanted_call(perception.recent@) == Some((tool@, args.model())),
            None => wanted_call(perception.recent@) is None,
        },
{
    match asked_load_of(perception) {
        Some(call) => Some(call),
        None => match RuleBasedProvider::last_user_line(perception) {
            Some(t) => user_call_of(t.as_str()),
            None => None,
        },
    }
}

/// The call that a message of the user asks for by its first word, where it does.
pub fn user_call_of(text: &str) -> (r: Option<(String, Json)>)
    ensures
        match r {
            Some((tool, args)) => user_call(text@) == Some((tool@, args.model())),
            None => user_call(text@) is None,
        },
{
    let mut fields: Vec<(String, Json)> = Vec::new();
    match strip_prefix(text, "!bash ") {
        Some(cmd) => {
            put(&mut fields, "cmd", Json::Text(cmd.to_owned()));
            put(&mut fields, "timeout_ms", Json::Integer(30000));
            assert(fields_model(fields@) =~= (user_call(text@)->0).1->Object_0);
            return Some(("bash".to_owned(), object(fields)));
        },
        None => {},
    }
    match strip_prefix(text, "!fs_read ") {
        Some(path) => {
            put(&mut fields, "op", Json::Text("read".to_owned()));
            put(&mut fields, "path", Json::Text(path.to_owned()));
            put(&mut fields, "max_bytes", Json::Integer(65536));
            assert(fields_model(fields@) =~= (user_call(text@)->0).1->Object_0);
            return Some(("fs".to_owned(), object(fields)));
        },
        None => {},
    }
    match strip_prefix(text, "!net_get ") {
        Some(url) => {
            put(&mut fields, "method", Json::Text("GET".to_owned()));
            put(&mut fields, "url", Json::Text(url.to_owned()));
            assert(fields_model(fields@) =~= (user_call(text@)->0).1->Object_0);
            return Some(("net".to_owned(), object(fields)));
        },
        None => {},
    }
    None
}

/// The call that a message asks for, whoever sent it, where it does: to load a conversation.
pub fn load_call_of(text: &str) -> (r: Option<(String, Json)>)
    ensures
        match r {
            Some((tool, args)) => load_call(text@) == Some((tool@, args.model())),
            None => load_call(text@) is None,
        },
{
    match strip_prefix(text, "!conv_load ") {
        Some(id) => {
            let mut fields: Vec<(String, Json)> = Vec::new();
            put(&mut fields, "conversation_id", Json::Text(id.to_owned()));
            put(&mut fields, "max_messages", Json::Integer(200));
            assert(fields_model(fields@) =~= (load_call(text@)->0).1->Object_0);
            Some(("conv_load".to_owned(), object(fields)))
        },
        None => None,
    }
}

/// The lines of the rules that a language model is given.
pub open spec fn protocol_lines() -> Seq<Seq<char>> {
    seq![
        "You are an autonomous agent running inside UnicOS."@,
        "IMPORTANT: Tool calls and tool outputs are PRIVATE to you. Other participants will NOT see them."@,
        "After using any tool, you MUST send a normal speak message that includes the relevant results (a short, user-facing summary and key output lines)."@,
        "You can think silently, but you MUST output ONLY a single JSON object as your final output."@,
        "Valid actions:"@,
        "  - {\"action\":\"speak\",\"text\":\"...\"}"@,
        "  - {\"action\":\"tool\",\"tool\":\"bash\",\"args\":{\"cmd\":\"...\",\"timeout_ms\":30000}}"@,
        "  - {\"action\":\"tool\",\"tool\":\"fs\",\"args\":{\"op\":\"read\",\"path\":\"/path\",\"max_bytes\":65536}}"@,
        "  - {\"action\":\"tool\",\"tool\":\"fs\",\"args\":{\"op\":\"write\",\"path\":\"/path\",\"data\":\"...\",\"append\":true}}"@,
        "  - {\"action\":\"tool\",\"tool\":\"net\",\"args\":{\"method\":\"GET\",\"url\":\"https://...\",\"headers\":{},\"body\":null}}"@,
        "  - {\"action\":\"tool\",\"tool\":\"conv_load\",\"args\":{\"conversation_id\":\"<seed-or-8hex-id>\",\"max_messages\":200}}"@,
        "  - {\"action\":\"noop\"}"@,
        "Do not wrap JSON in Markdown fences. Do not include any extra keys."@,
        "When you call a tool, its result will appear in the context as a tool(...) message; use it to decide the next action."@,
        "If you need a tool, choose tool action; otherwise choose speak."@,
    ]
}

/// The rules that a language model is given.
pub open spec fn protocol() -> Seq<char> {
    joined(protocol_lines(), "\n"@)
}

/// The part that a sender plays in a prompt.
pub open spec fn part_of(sender: Sender) -> ChatRole {
    match sender {
        Sender::UserSudo => ChatRole::User,
        Sender::Agent(_) => ChatRole::Assistant,
        Sender::System => ChatRole::System,
    }
}

/// A message as a line of a prompt.
pub open spec fn recent_line(m: Envelope<Message>) -> ChatLine {
    ChatLine {
        role: part_of(m.sender),
        content: m.sender.shown() + " "@ + m.payload.text@,
        name: None,
    }
}

/// The soul as a line of a prompt, where there is one.
pub open spec fn soul_lines(soul: Seq<char>) -> Seq<ChatLine> {
    if blank(soul) {
        Seq::empty()
    } else {
        seq![ChatLine { role: ChatRole::System, content: soul, name: None }]
    }
}

/// What a language model is asked: the rules, the soul, the recent messages, what the
/// tools said so far, and the order to answer.
pub open spec fn prompt_lines(perception: Perception, trace: Seq<ChatMessage>) -> Seq<ChatLine> {
    seq![ChatLine { role: ChatRole::System, content: protocol(), name: None }] + soul_lines(
        perception.soul@,
    ) + perception.recent@.map_values(|m: Envelope<Message>| recent_line(m)) + chat_lines(trace)
        + seq![
        ChatLine {
            role: ChatRole::User,
            content: "Return the next action JSON now."@,
            name: None,
        },
    ]
}

/// What a language model wrote, without the fence around it.
pub open spec fn unfenced(s: Seq<char>) -> Seq<char> {
    let t = trimmed(s);
    if begins(t, "```json"@) {
        trimmed(without_suffixes(trimmed(t.skip("```json"@.len() as int)), "```"@))
    } else if begins(t, "```"@) {
        trimmed(without_suffixes(trimmed(t.skip("```"@.len() as int)), "```"@))
    } else {
        t
    }
}

/// What a decision comes to, or what it waits for.
#[derive(Debug)]
pub enum DecisionStep {
    /// Do this, or nothing.
    Act(Option<AgentAction>),
    /// Ask the provider whether to respond.
    AskWhether,
    /// Have the provider answer this prompt.
    Generate(Vec<ChatMessage>),
}

/// How an agent decides, through the provider `P`.
pub struct DecisionEngine<P> {
    pub provider: P,
}

impl<P> DecisionEngine<P> {
    /// An engine that decides through `provider`.
    pub fn new(provider: P) -> (r: DecisionEngine<P>)
        ensures
            r.provider == provider,
    {
        DecisionEngine { provider }
    }

    /// The first step of a decision with nothing from the tools yet.
    pub fn decide(&self, perception: &Perception) -> (r: DecisionStep)
        ensures
            begins_with(*perception, Seq::empty(), r),
    {
        let none: Vec<ChatMessage> = Vec::new();
        assert(none@ =~= Seq::empty());
        first_step(perception, &none)
    }

    /// The first step of a decision, where `trace` is what the tools said so far.
    pub fn decide_with_trace(&self, perception: &Perception, trace: &Vec<ChatMessage>) -> (r:
        DecisionStep)
        ensures
            begins_with(*perception, trace@, r),
    {
        first_step(perception, trace)
    }
}

/// The first step of a decision, where `trace` is what the tools said so far.
pub fn first_step(perception: &Perception, trace: &Vec<ChatMessage>) -> (r: DecisionStep)
    ensures
        begins_with(*perception, trace@, r),
{
    let due = if trace.len() > 0 {
        wanted_call_of(perception)
    } else {
        asked_load_of(perception)
    };
    match due {
        Some((tool, args)) => {
            return DecisionStep::Act(Some(AgentAction::ToolCall { tool, args }));
        },
        None => {},
    }
    if trace.len() == 0 {
        DecisionStep::AskWhether
    } else {
        DecisionStep::Generate(prompt_for(perception, trace))
    }
}

/// The step after the provider said whether to respond: nothing, or else the call that the
/// messages ask for, or else a question for the next action.
pub fn after_gate(respond: bool, perception: &Perception, trace: &Vec<ChatMessage>) -> (r:
    DecisionStep)
    ensures
        !respond ==> r == DecisionStep::Act(None),
        respond ==> match wanted_call(perception.recent@) {
            Some(call) => makes_call(call, r),
            None => generates(*perception, trace@, r),
        },
{
    if !respond {
        return DecisionStep::Act(None);
    }
    match wanted_call_of(perception) {
        Some((tool, args)) => DecisionStep::Act(Some(AgentAction::ToolCall { tool, args })),
        None => DecisionStep::Generate(prompt_for(perception, trace)),
    }
}

/// Whatever others say after the user, the call that is asked for is the one of the user's latest
/// message. It is due once it is settled that the agent responds, and not before, unless a
/// conversation is to be loaded.
pub proof fn law_the_user_decides_about_calls(
    recent: Seq<Envelope<Message>>,
    others: Seq<Envelope<Message>>,
)
    requires
        forall|i: int| 0 <= i < others.len() ==> (#[trigger] others[i]).sender != Sender::UserSudo,
    ensures
        asked_call(recent + others) == asked_call(recent),
        asked_load(recent + others) is None ==> {
            &&& due_call(recent + others, true) == asked_call(recent)
            &&& due_call(recent + others, false) is None
        },
    decreases others.len(),
{
    if others.len() == 0 {
        assert(recent + others =~= recent);
    } else {
        let all = recent + others;
        assert(all.drop_last() =~= recent + others.drop_last());
        assert(all.last() == others[others.len() - 1]);
        law_the_user_decides_about_calls(recent, others.drop_last());
    }
}

/// A message that asks to load a conversation has it loaded at once, whoever sent it, and only
/// while it is the latest.
pub proof fn law_the_latest_message_decides_about_loading(
    recent: Seq<Envelope<Message>>,
    latest: Envelope<Message>,
    settled: bool,
)
    ensures
        asked_load(recent.push(latest)) == load_call(latest.payload.text@),
        load_call(latest.payload.text@) is Some ==> due_call(recent.push(latest), settled)
            == load_call(latest.payload.text@),
{
}

/// The rules that a language model is given.
pub fn tool_protocol_system_prompt() -> (r: String)
    ensures
        r@ == protocol(),
{
    let mut lines: Vec<String> = Vec::new();
    lines.push("You are an autonomous agent running inside UnicOS.".to_owned());
    lines.push(
        "IMPORTANT: Tool calls and tool outputs are PRIVATE to you. Other participants will NOT see them.".to_owned(),
    );
    lines.push(
        "After using any tool, you MUST send a normal speak message that includes the relevant results (a short, user-facing summary and key output lines).".to_owned(),
    );
    lines.push(
        "You can think silently, but you MUST output ONLY a single JSON object as your final output.".to_owned(),
    );
    lines.push("Valid actions:".to_owned());
    lines.push("  - {\"action\":\"speak\",\"text\":\"...\"}".to_owned());
    lines.push(
        "  - {\"action\":\"tool\",\"tool\":\"bash\",\"args\":{\"cmd\":\"...\",\"timeout_ms\":30000}}".to_owned(),
    );
    lines.push(
        "  - {\"action\":\"tool\",\"tool\":\"fs\",\"args\":{\"op\":\"read\",\"path\":\"/path\",\"max_bytes\":65536}}".to_owned(),
    );
    lines.push(
        "  - {\"action\":\"tool\",\"tool\":\"fs\",\"args\":{\"op\":\"write\",\"path\":\"/path\",\"data\":\"...\",\"append\":true}}".to_owned(),
    );
    lines.push(
        "  - {\"action\":\"tool\",\"tool\":\"net\",\"args\":{\"method\":\"GET\",\"url\":\"https://...\",\"headers\":{},\"body\":null}}".to_owned(),
    );
    lines.push(
        "  - {\"action\":\"tool\",\"tool\":\"conv_load\",\"args\":{\"conversation_id\":\"<seed-or-8hex-id>\",\"max_messages\":200}}".to_owned(),
    );
    lines.push("  - {\"action\":\"noop\"}".to_owned());
    lines.push("Do not wrap JSON in Markdown fences. Do not include any extra keys.".to_owned());
    lines.push(
        "When you call a tool, its result will appear in the context as a tool(...) message; use it to decide the next action.".to_owned(),
    );
    lines.push("If you need a tool, choose tool action; otherwise choose speak.".to_owned());
    assert(texts(lines@) =~= protocol_lines());
    join(&lines, "\n")
}

/// What a language model is asked.
pub fn prompt_for(perception: &Perception, trace: &Vec<ChatMessage>) -> (r: Vec<ChatMessage>)
    ensures
        chat_lines(r@) == prompt_lines(*perception, trace@),
        r@.len() == 1 + (if blank(perception.soul@) {
            0int
        } else {
            1int
        }) + perception.recent@.len() + trace@.len() + 1,
        forall|i: int|
            0 <= i < trace@.len() ==> (#[trigger] trace@[i])@ == r@[r@.len() - 1 - trace@.len()
                + i]@,
{
    let mut prompt: Vec<ChatMessage> = Vec::new();
    prompt.push(
        ChatMessage {
            role: ChatRole::System,
            content: tool_protocol_system_prompt(),
            name: None,
        },
    );
    if !is_blank(perception.soul.as_str()) {
        prompt.push(
            ChatMessage {
                role: ChatRole::System,
                content: perception.soul.clone(),
                name: None,
            },
        );
    }
    let ghost head = seq![
        ChatLine { role: ChatRole::System, content: protocol(), name: None },
    ] + soul_lines(perception.soul@);
    assert(chat_lines(prompt@) =~= head);
    let ghost said = perception.recent@.map_values(|m: Envelope<Message>| recent_line(m));
    let mut i: usize = 0;
    assert(head + said.take(0) =~= head);
    while i < perception.recent.len()
        invariant
            i <= perception.recent.len(),
            said == perception.recent@.map_values(|m: Envelope<Message>| recent_line(m)),
            chat_lines(prompt@) == head + said.take(i as int),
        decreases perception.recent.len() - i,
    {
        let m = &perception.recent[i];
        let role = match &m.sender {
            Sender::UserSudo => ChatRole::User,
            Sender::Agent(_) => ChatRole::Assistant,
            Sender::System => ChatRole::System,
        };
        let content = m.sender.label().concat(" ").concat(m.payload.text.as_str());
        let ghost before = prompt@;
        prompt.push(ChatMessage { role, content, name: None });
        assert(prompt@.last()@ == recent_line(*m));
        assert(chat_lines(prompt@) =~= chat_lines(before).push(recent_line(*m)));
        assert(said.take(i + 1) =~= said.take(i as int).push(said[i as int]));
        assert(chat_lines(prompt@) =~= head + said.take(i + 1));
        i += 1;
    }
    assert(said.take(i as int) =~= said);
    let ghost body = head + said;
    let ghost tools = chat_lines(trace@);
    let mut j: usize = 0;
    assert(body + tools.take(0) =~= body);
    while j < trace.len()
        invariant
            j <= trace.len(),
            tools == chat_lines(trace@),
            chat_lines(prompt@) == body + tools.take(j as int),
        decreases trace.len() - j,
    {
        let ghost before = prompt@;
        prompt.push(trace[j].clone());
        assert(chat_lines(prompt@) =~= chat_lines(before).push(tools[j as int]));
        assert(chat_lines(prompt@) =~= body + tools.take(j + 1));
        j += 1;
    }
    assert(tools.take(j as int) =~= tools);
    let ghost before = prompt@;
    prompt.push(
        ChatMessage {
            role: ChatRole::User,
            content: "Return the next action JSON now.".to_owned(),
            name: None,
        },
    );
    assert(chat_lines(prompt@) =~= chat_lines(before).push(prompt@.last()@));
    assert(chat_lines(prompt@) =~= prompt_lines(*perception, trace@));
    proof {
        law_a_prompt_holds_everything(*perception, trace@, prompt@);
    }
    prompt
}

/// A prompt leaves nothing out. It begins with the rules; the soul follows as it is, where there
/// is one; then every message of the perception, in order, behind the label of its sender; then
/// every word of a tool, in order and as it is; and the order to answer comes last.
pub proof fn law_a_prompt_holds_everything(
    perception: Perception,
    trace: Seq<ChatMessage>,
    prompt: Seq<ChatMessage>,
)
    requires
        chat_lines(prompt) == prompt_lines(perception, trace),
    ensures
        ({
            let souls: int = if blank(perception.soul@) { 0 } else { 1 };
            let said = perception.recent@;
            &&& prompt.len() == 1 + souls + said.len() + trace.len() + 1
            &&& prompt[0].role == ChatRole::System
            &&& prompt[0].content@ == protocol()
            &&& prompt[0].name is None
            &&& !blank(perception.soul@) ==> {
                &&& prompt[1].role == ChatRole::System
                &&& prompt[1].content@ == perception.soul@
                &&& prompt[1].name is None
            }
            &&& forall|i: int|
                0 <= i < said.len() ==> {
                    let line = prompt[1 + souls + i];
                    &&& line.name is None
                    &&& match (#[trigger] said[i]).sender {
                        Sender::UserSudo => {
                            &&& line.role == ChatRole::User
                            &&& line.content@ == "[User: sudo]"@ + " "@ + said[i].payload.text@
                        },
                        Sender::Agent(id) => {
                            &&& line.role == ChatRole::Assistant
                            &&& line.content@ == "[Unic: "@ + id@ + "]"@ + " "@
                                + said[i].payload.text@
                        },
                        Sender::System => {
                            &&& line.role == ChatRole::System
                            &&& line.content@ == "[System]"@ + " "@ + said[i].payload.text@
                        },
                    }
                }
            &&& forall|i: int|
                0 <= i < trace.len() ==> {
                    let line = prompt[prompt.len() - 1 - trace.len() + i];
                    &&& line.role == (#[trigger] trace[i]).role
                    &&& line.content@ == trace[i].content@
                    &&& crate::path::said(line.name) == crate::path::said(trace[i].name)
                }
            &&& prompt.last().role == ChatRole::User
            &&& prompt.last().content@ == "Return the next action JSON now."@
            &&& prompt.last().name is None
        }),
{
    let lines = chat_lines(prompt);
    let souls: int = if blank(perception.soul@) { 0 } else { 1 };
    let said = perception.recent@;
    assert(lines.len() == prompt.len());
    assert(lines[0] == prompt[0]@);
    assert(lines[1] == prompt[1]@);
    assert(lines.last() == prompt.last()@);
    assert forall|i: int| 0 <= i < said.len() implies lines[1 + souls + i] == recent_line(
        #[trigger] said[i],
    ) && lines[1 + souls + i] == prompt[1 + souls + i]@ by {}
    assert forall|i: int| 0 <= i < trace.len() implies lines[prompt.len() - 1 - trace.len() + i] == (
    #[trigger] trace[i])@ && lines[prompt.len() - 1 - trace.len() + i] == prompt[prompt.len() - 1
        - trace.len() + i]@ by {
        assert(chat_lines(trace)[i] == trace[i]@);
    }
}

/// What a language model wrote, without the fence around it.
pub fn strip_json_fence(s: &str) -> (r: &str)
    ensures
        r@ == unfenced(s@),
{
    let t = trim(s);
    match strip_prefix(t, "```json") {
        Some(rest) => {
            return trim(trim_suffixes(trim(rest), "```"));
        },
        None => {},
    }
    match strip_prefix(t, "```") {
        Some(rest) => {
            return trim(trim_suffixes(trim(rest), "```"));
        },
        None => {},
    }
    t
}

/// What the agent does when the provider wrote `text`, where `parsed` is the action
/// that the text spells, if it spells one.
pub fn conclude(text: String, parsed: Option<NextAction>) -> (r: Option<AgentAction>)
    ensures
        match parsed {
            Some(NextAction::Speak { text: said }) => r == Some(AgentAction::Speak(said)),
            Some(NextAction::Tool { tool: name, args: given }) => {
                &&& r matches Some(AgentAction::ToolCall { tool, args })
                &&& tool == name
                &&& given is Null ==> args.model() == JsonModel::Object(Seq::empty())
                &&& !(given is Null) ==> args == given
            },
            Some(NextAction::Noop) => r is None,
            None => r == Some(AgentAction::Speak(text)),
        },
{
    match parsed {
        Some(NextAction::Speak { text: said }) => Some(AgentAction::Speak(said)),
        Some(NextAction::Tool { tool, args }) => {
            let args = match args {
                Json::Null => {
                    let none: Vec<(String, Json)> = Vec::new();
                    assert(fields_model(none@) =~= Seq::empty());
                    object(none)
                },
                given => given,
            };
            Some(AgentAction::ToolCall { tool, args })
        },
        Some(NextAction::Noop) => None,
        None => Some(AgentAction::Speak(text)),
    }
}

/// What stands behind the word for a tool is handed to the tool as it is, and whole: to the shell
/// as a command, to the files as a path, to the web as an address, and to the conversations as a
/// name.
pub proof fn law_direct_calls_are_whole(rest: Seq<char>)
    ensures
        user_call("!bash "@ + rest) matches Some((tool, args)) && {
            &&& tool == "bash"@
            &&& args.member("cmd"@) == Some(JsonModel::Text(rest))
            &&& args.member("timeout_ms"@) == Some(JsonModel::Integer(30000))
        },
        user_call("!fs_read "@ + rest) matches Some((tool, args)) && {
            &&& tool == "fs"@
            &&& args.member("op"@) == Some(JsonModel::Text("read"@))
            &&& args.member("path"@) == Some(JsonModel::Text(rest))
            &&& args.member("max_bytes"@) == Some(JsonModel::Integer(65536))
        },
        user_call("!net_get "@ + rest) matches Some((tool, args)) && {
            &&& tool == "net"@
            &&& args.member("method"@) == Some(JsonModel::Text("GET"@))
            &&& args.member("url"@) == Some(JsonModel::Text(rest))
        },
        load_call("!conv_load "@ + rest) matches Some((tool, args)) && {
            &&& tool == "conv_load"@
            &&& args.member("conversation_id"@) == Some(JsonModel::Text(rest))
            &&& args.member("max_messages"@) == Some(JsonModel::Integer(200))
        },
{
    reveal_strlit("!bash ");
    reveal_strlit("!fs_read ");
    reveal_strlit("!net_get ");
    reveal_strlit("cmd");
    reveal_strlit("timeout_ms");
    reveal_strlit("op");
    reveal_strlit("path");
    reveal_strlit("max_bytes");
    reveal_strlit("method");
    reveal_strlit("url");
    reveal_strlit("conversation_id");
    reveal_strlit("max_messages");
    crate::text::law_parts_occur(Seq::empty(), "!bash "@, rest);
    crate::text::law_parts_occur(Seq::empty(), "!fs_read "@, rest);
    crate::text::law_parts_occur(Seq::empty(), "!net_get "@, rest);
    crate::text::law_parts_occur(Seq::empty(), "!conv_load "@, rest);
    let bash = "!bash "@ + rest;
    let fs = "!fs_read "@ + rest;
    let net = "!net_get "@ + rest;
    let conv = "!conv_load "@ + rest;
    assert(bash.skip("!bash "@.len() as int) =~= rest);
    assert(fs.skip("!fs_read "@.len() as int) =~= rest);
    assert(net.skip("!net_get "@.len() as int) =~= rest);
    assert(conv.skip("!conv_load "@.len() as int) =~= rest);
    assert(fs[1] == 'f' && net[1] == 'n');
    assert(!begins(fs, "!bash "@)) by {
        assert(fs.take(6)[1] == 'f');
        assert("!bash "@[1] == 'b');
    }
    assert(!begins(net, "!bash "@)) by {
        assert(net.take(6)[1] == 'n');
        assert("!bash "@[1] == 'b');
    }
    assert(!begins(net, "!fs_read "@)) by {
        assert(net.take(9)[1] == 'n');
        assert("!fs_read "@[1] == 'f');
    }
    let b = (user_call(bash)->0).1->Object_0;
    assert("cmd"@.len() != "timeout_ms"@.len());
    law_the_first_field_counts(b, "cmd"@, 0);
    law_the_first_field_counts(b, "timeout_ms"@, 1);
    let f = (user_call(fs)->0).1->Object_0;
    assert("op"@.len() != "path"@.len() && "op"@.len() != "max_bytes"@.len() && "path"@.len()
        != "max_bytes"@.len());
    law_the_first_field_counts(f, "op"@, 0);
    law_the_first_field_counts(f, "path"@, 1);
    law_the_first_field_counts(f, "max_bytes"@, 2);
    let n = (user_call(net)->0).1->Object_0;
    assert("method"@.len() != "url"@.len());
    law_the_first_field_counts(n, "method"@, 0);
    law_the_first_field_counts(n, "url"@, 1);
    let c = (load_call(conv)->0).1->Object_0;
    assert("conversation_id"@.len() != "max_messages"@.len());
    law_the_first_field_counts(c, "conversation_id"@, 0);
    law_the_first_field_counts(c, "max_messages"@, 1);
}

/// A message that does not begin with an exclamation mark asks for no call.
pub proof fn law_plain_messages_ask_for_no_call(text: Seq<char>)
    requires
        text.len() > 0 ==> text[0] != '!',
    ensures
        user_call(text) is None,
        load_call(text) is None,
{
    reveal_strlit("!bash ");
    reveal_strlit("!fs_read ");
    reveal_strlit("!net_get ");
    reveal_strlit("!conv_load ");
    if text.len() > 0 {
        assert forall|p: Seq<char>| p.len() > 0 && p[0] == '!' implies !#[trigger] begins(text, p) by {
            if begins(text, p) {
                assert(text.take(p.len() as int)[0] == text[0]);
            }
        }
        assert("!bash "@[0] == '!' && "!fs_read "@[0] == '!' && "!net_get "@[0] == '!'
            && "!conv_load "@[0] == '!');
    }
}

/// The user's latest message decides about a call by itself, and where the user said nothing
/// there is none.
pub proof fn law_a_call_is_that_of_the_users_latest_message(recent: Seq<Envelope<Message>>, i: int)
    requires
        -1 <= i < recent.len(),
        i >= 0 ==> recent[i].sender == Sender::UserSudo,
        forall|j: int| i < j < recent.len() ==> (#[trigger] recent[j]).sender != Sender::UserSudo,
    ensures
        i >= 0 ==> asked_call(recent) == user_call(recent[i].payload.text@),
        i < 0 ==> asked_call(recent) is None,
{
    crate::llm::law_the_last_words_of_the_user(recent, i);
}

/// What a model wrote counts without the white space around it and without a fence, with or
/// without the name of the language; all that stands inside the fence is kept.
#[verifier::spinoff_prover]
pub proof fn law_a_fence_is_taken_off(body: Seq<char>)
    requires
        body.len() > 0,
        !crate::text::white(body[0]),
        !crate::text::white(body.last()),
        body[0] != '`',
        body.last() != '`',
    ensures
        unfenced(body) == body,
        unfenced("```json\n"@ + body + "\n```"@) == body,
        unfenced("```json"@ + body + "```"@) == body,
        unfenced("```\n"@ + body + "\n```"@) == body,
{
    reveal_strlit("```json\n");
    reveal_strlit("\n```");
    reveal_strlit("```json");
    reveal_strlit("```\n");
    reveal_strlit("```");
    let none = Seq::<char>::empty();
    let brk = seq!['\n'];
    crate::text::law_a_bare_text_is_left_as_it_is(body);
    if begins(body, "```"@) {
        assert(body.take(3)[0] == body[0]);
        assert("```"@[0] == '`');
    }
    if begins(body, "```json"@) {
        assert(body.take(7)[0] == body[0]);
        assert("```json"@[0] == '`');
    }
    lemma_fenced(body, none, "```json"@);
    lemma_fenced(body, brk, "```json"@);
    lemma_fenced(body, brk, "```"@);
    assert("```json\n"@ =~= "```json"@ + brk);
    assert("```\n"@ =~= "```"@ + brk);
    assert("\n```"@ =~= brk + "```"@);
    assert("```json\n"@ + body + "\n```"@ =~= "```json"@ + brk + body + brk + "```"@);
    assert("```json"@ + body + "```"@ =~= "```json"@ + none + body + none + "```"@);
    assert("```\n"@ + body + "\n```"@ =~= "```"@ + brk + body + brk + "```"@);
}

#[verifier::spinoff_prover]
proof fn lemma_fenced(body: Seq<char>, brk: Seq<char>, open: Seq<char>)
    requires
        body.len() > 0,
        !crate::text::white(body[0]),
        !crate::text::white(body.last()),
        body[0] != '`',
        body.last() != '`',
        brk.len() == 0 || brk == seq!['\n'],
        open == "```json"@ || (open == "```"@ && brk.len() == 1),
    ensures
        unfenced(open + brk + body + brk + "```"@) == body,
{
    reveal_strlit("```json");
    reveal_strlit("```");
    let none = Seq::<char>::empty();
    let fence = "```"@;
    let s = open + brk + body + brk + fence;
    assert(open[0] == '`');
    assert(fence[2] == '`');
    assert(s[0] == '`');
    assert(s.last() == '`');
    crate::text::law_a_bare_text_is_left_as_it_is(s);
    assert(s.take(open.len() as int) =~= open);
    if open == fence {
        if begins(s, "```json"@) {
            assert(s.take(7)[3] == s[3]);
            assert(s[3] == '\n');
            assert("```json"@[3] == 'j');
        }
    }
    let inner = s.skip(open.len() as int);
    assert(inner =~= brk + (body + brk + fence) + none);
    let kept = body + brk + fence;
    assert(kept[0] == body[0]);
    assert(kept.last() == '`');
    crate::text::law_only_the_white_space_around_goes(brk, kept, none);
    let bare = body + brk;
    crate::text::law_only_what_repeats_at_the_end_goes(bare, fence);
    assert(bare + fence =~= kept);
    if crate::text::ends(bare, fence) {
        assert(bare.skip(bare.len() - 3)[2] == bare.last());
    }
    assert(none + body + brk =~= bare);
    crate::text::law_only_the_white_space_around_goes(none, body, brk);
    assert(unfenced(s) == trimmed(without_suffixes(trimmed(inner), fence)));
}

/// The rules that a model is given name every action that it can take, and how each tool is
/// called.
pub proof fn law_the_rules_name_every_action(rules: String)
    requires
        call_ensures(tool_protocol_system_prompt, (), rules),
    ensures
        begins(rules@, "You are an autonomous agent running inside UnicOS."@),
        occurs(rules@, "IMPORTANT: Tool calls and tool outputs are PRIVATE to you. Other participants will NOT see them."@),
        occurs(rules@, "After using any tool, you MUST send a normal speak message that includes the relevant results (a short, user-facing summary and key output lines)."@),
        occurs(rules@, "Valid actions:"@),
        occurs(rules@, "You can think silently, but you MUST output ONLY a single JSON object as your final output."@),
        occurs(rules@, "  - {\"action\":\"speak\",\"text\":\"...\"}"@),
        occurs(rules@, "  - {\"action\":\"tool\",\"tool\":\"bash\",\"args\":{\"cmd\":\"...\",\"timeout_ms\":30000}}"@),
        occurs(rules@, "  - {\"action\":\"tool\",\"tool\":\"fs\",\"args\":{\"op\":\"read\",\"path\":\"/path\",\"max_bytes\":65536}}"@),
        occurs(rules@, "  - {\"action\":\"tool\",\"tool\":\"fs\",\"args\":{\"op\":\"write\",\"path\":\"/path\",\"data\":\"...\",\"append\":true}}"@),
        occurs(rules@, "  - {\"action\":\"tool\",\"tool\":\"net\",\"args\":{\"method\":\"GET\",\"url\":\"https://...\",\"headers\":{},\"body\":null}}"@),
        occurs(rules@, "  - {\"action\":\"tool\",\"tool\":\"conv_load\",\"args\":{\"conversation_id\":\"<seed-or-8hex-id>\",\"max_messages\":200}}"@),
        occurs(rules@, "  - {\"action\":\"noop\"}"@),
        occurs(rules@, "Do not wrap JSON in Markdown fences. Do not include any extra keys."@),
        occurs(rules@, "When you call a tool, its result will appear in the context as a tool(...) message; use it to decide the next action."@),
        occurs(rules@, "If you need a tool, choose tool action; otherwise choose speak."@),
{
    let lines = protocol_lines();
    let first = seq![lines[0]];
    let rest = lines.skip(1);
    law_joining_loses_nothing(first, rest, "\n"@);
    assert(first + rest =~= lines);
    law_parts_occur(Seq::empty(), lines[0], "\n"@ + joined(rest, "\n"@));
    assert(lines[0] + ("\n"@ + joined(rest, "\n"@)) =~= rules@);
    law_every_part_occurs(lines, "\n"@, 1);
    law_every_part_occurs(lines, "\n"@, 2);
    law_every_part_occurs(lines, "\n"@, 4);
    law_every_part_occurs(lines, "\n"@, 3);
    law_every_part_occurs(lines, "\n"@, 5);
    law_every_part_occurs(lines, "\n"@, 6);
    law_every_part_occurs(lines, "\n"@, 7);
    law_every_part_occurs(lines, "\n"@, 8);
    law_every_part_occurs(lines, "\n"@, 9);
    law_every_part_occurs(lines, "\n"@, 10);
    law_every_part_occurs(lines, "\n"@, 11);
    law_every_part_occurs(lines, "\n"@, 12);
    law_every_part_occurs(lines, "\n"@, 13);
    law_every_part_occurs(lines, "\n"@, 14);
}

/// What a model asks for comes out of its words as it is: a speech word for word, a tool with its
/// own arguments, and plain words as a speech; what wants nothing comes to nothing.
pub proof fn law_a_models_wish_is_kept(
    text: String,
    parsed: Option<NextAction>,
    action: Option<AgentAction>,
)
    requires
        call_ensures(conclude, (text, parsed), action),
    ensures
        action is None <==> parsed matches Some(NextAction::Noop),
        parsed is None ==> action == Some(AgentAction::Speak(text)),
        parsed matches Some(NextAction::Speak { text: said }) ==> action == Some(
            AgentAction::Speak(said),
        ),
        parsed matches Some(NextAction::Tool { tool, args }) ==> {
            &&& action matches Some(AgentAction::ToolCall { tool: called, args: given })
            &&& called@ == tool@
            &&& !(args is Null) ==> given == args
            &&& args is Null ==> given.model() == JsonModel::Object(Seq::empty())
        },
{
}

/// A decision asks the provider whether to respond before anything else, unless the latest
/// message asks to load a conversation; and once tools have spoken it asks for the next action,
/// unless the messages ask for a call.
pub proof fn law_a_decision_asks_first(
    perception: Perception,
    trace: Vec<ChatMessage>,
    first: DecisionStep,
    settled: DecisionStep,
    refused: DecisionStep,
)
    requires
        call_ensures(first_step, (&perception, &trace), first),
        call_ensures(after_gate, (true, &perception, &trace), settled),
        call_ensures(after_gate, (false, &perception, &trace), refused),
        perception.recent@.len() > 0 ==> !begins(
            perception.recent@.last().payload.text@,
            "!conv_load "@,
        ),
    ensures
        trace@.len() == 0 ==> first is AskWhether,
        trace@.len() > 0 && asked_call(perception.recent@) is None ==> first is Generate,
        asked_call(perception.recent@) is None ==> settled is Generate,
        asked_call(perception.recent@) is Some ==> settled matches DecisionStep::Act(Some(_)),
        refused matches DecisionStep::Act(None),
{
}

} // verus!
