//! The life of an agent: what it listens to, what it remembers, and how it takes its turn.

use vstd::prelude::*;
use vstd::string::*;
use crate::bus::Draft;
use crate::common::{
    chat_lines, AgentId, ChatLine, ChatMessage, ChatRole, Command, Envelope, Event, Message,
    Perception, Sender, SystemNotification, Topic, UnicError,
};
use crate::context::{latest, ContextManager};
use crate::conversation::{hex8, ConversationId};
use crate::decision::{
    after_gate, conclude, due_call, first_step, law_a_prompt_holds_everything, prompt_for,
    prompt_lines, wanted_call, wanted_call_of, AgentAction, DecisionStep, NextAction,
};
use crate::json::{json_text, text_for, text_or_none, Json, JsonModel};
use crate::names::NameSet;
use crate::path::{inside, join_path};

verus! {

/// How an agent is set up.
#[derive(Clone, Debug)]
pub struct AgentConfig {
    pub id: AgentId,
    pub topics: Vec<Topic>,
    pub perception_window: usize,
    pub soul_dir: String,
    pub tools_enabled: bool,
}

/// The names of topics.
pub open spec fn topic_names(topics: Seq<Topic>) -> Set<Seq<char>> {
    topics.map_values(|t: Topic| t@).to_set()
}

/// What an agent is at a moment: who it is, what it listens to, whether it sleeps, what it
/// remembers, and how many messages it can remember.
#[verifier::ext_equal]
pub struct AgentState {
    pub id: Seq<char>,
    pub topics: Set<Seq<char>>,
    pub sleeping: bool,
    pub recent: Seq<Envelope<Message>>,
    pub window: nat,
}

/// What an agent becomes on a command, whoever it is for.
pub open spec fn obeying(state: AgentState, cmd: Command) -> AgentState {
    match cmd {
        Command::JoinTopic { id, topic } => if id@ == state.id {
            AgentState { topics: state.topics.insert(topic@), ..state }
        } else {
            state
        },
        Command::Sleep { id } => if id@ == state.id {
            AgentState { sleeping: true, ..state }
        } else {
            state
        },
        Command::Wake { id } => if id@ == state.id {
            AgentState { sleeping: false, ..state }
        } else {
            state
        },
        _ => state,
    }
}

/// Whether an agent answers a command with `reply`: it tells what became of it, where the
/// command was for it.
pub open spec fn confirms(me: AgentId, cmd: Command, reply: Option<Draft>) -> bool {
    match cmd {
        Command::JoinTopic { id, topic } => if id@ == me@ {
            &&& reply matches Some(draft)
            &&& draft.topic == topic
            &&& draft.sender == Sender::System
            &&& draft.conversation_id@ == hex8(0)
            &&& draft.payload == Event::SystemNotification(
                SystemNotification::AgentJoinedTopic { id: me, topic },
            )
        } else {
            reply is None
        },
        Command::Sleep { id } => if id@ == me@ {
            &&& reply matches Some(draft)
            &&& draft.announces(
                Event::SystemNotification(SystemNotification::AgentSlept { id: me }),
            )
        } else {
            reply is None
        },
        Command::Wake { id } => if id@ == me@ {
            &&& reply matches Some(draft)
            &&& draft.announces(Event::SystemNotification(SystemNotification::AgentWoke { id: me }))
        } else {
            reply is None
        },
        _ => reply is None,
    }
}

/// Whether an agent attends to a message in `envelope`: it listens to the topic, did not say
/// it itself, and is awake.
pub open spec fn attends(state: AgentState, topic: Seq<char>, sender: Sender) -> bool {
    &&& state.topics.contains(topic)
    &&& !(sender matches Sender::Agent(id) && id@ == state.id)
    &&& !state.sleeping
}

/// What an event calls for.
#[derive(Debug)]
pub enum AgentStep {
    /// Nothing.
    Ignore,
    /// Publish this.
    Publish(Draft),
    /// Put this into the mailbox, and take a turn on it.
    Attend(Envelope<Message>),
}

/// Whether `step` is what an event calls for of the agent `me`, which is `before`, and `after`
/// what it is then.
pub open spec fn follows(
    before: AgentState,
    me: AgentId,
    env: Envelope<Event>,
    after: AgentState,
    step: AgentStep,
) -> bool {
    match env.payload {
        Event::Command(cmd) => {
            &&& after == obeying(before, cmd)
            &&& !(step is Attend)
            &&& confirms(
                me,
                cmd,
                match step {
                    AgentStep::Publish(draft) => Some(draft),
                    _ => None,
                },
            )
        },
        Event::SystemNotification(_) => step is Ignore && after == before,
        Event::Message(msg) => if attends(before, env.topic@, env.sender) {
            &&& step matches AgentStep::Attend(heard)
            &&& heard == (Envelope {
                id: env.id,
                ts: env.ts,
                topic: env.topic,
                sender: env.sender,
                conversation_id: env.conversation_id,
                payload: msg,
            })
            &&& after == (AgentState {
                recent: latest(before.recent.push(heard), before.window),
                ..before
            })
            &&& after.recent.len() > 0
            &&& after.recent.last() == heard
        } else {
            step is Ignore && after == before
        },
    }
}

/// An agent.
pub struct AgentRuntime {
    pub cfg: AgentConfig,
    pub sleeping: bool,
    pub subscribed: NameSet,
    pub ctx: ContextManager,
}

impl View for AgentRuntime {
    type V = AgentState;

    open spec fn view(&self) -> AgentState {
        AgentState {
            id: self.cfg.id@,
            topics: self.subscribed@,
            sleeping: self.sleeping,
            recent: self.ctx@,
            window: self.ctx.size(),
        }
    }
}

impl AgentRuntime {
    /// The set of topics is in order.
    pub open spec fn wf(&self) -> bool {
        self.subscribed.wf()
    }

    /// An agent that is awake, listens to the topics of its setup, and remembers nothing yet.
    pub fn new(cfg: AgentConfig) -> (r: AgentRuntime)
        ensures
            r.wf(),
            r.cfg == cfg,
            r@ == (AgentState {
                id: cfg.id@,
                topics: topic_names(cfg.topics@),
                sleeping: false,
                recent: Seq::empty(),
                window: if cfg.perception_window == 0 { 1 } else { cfg.perception_window as nat },
            }),
    {
        let mut subscribed = NameSet::new();
        let ghost names = cfg.topics@.map_values(|t: Topic| t@);
        let mut i: usize = 0;
        assert(names.take(0).to_set() =~= Set::<Seq<char>>::empty());
        while i < cfg.topics.len()
            invariant
                i <= cfg.topics.len(),
                names == cfg.topics@.map_values(|t: Topic| t@),
                subscribed.wf(),
                subscribed@ == names.take(i as int).to_set(),
            decreases cfg.topics.len() - i,
        {
            subscribed.insert(cfg.topics[i].as_str());
            proof {
                let a = names.take(i as int);
                let b = names.take(i + 1);
                assert(b =~= a.push(names[i as int]));
                assert forall|n: Seq<char>| b.contains(n) <==> a.contains(n) || n
                    == names[i as int] by {
                    if a.contains(n) {
                        let k = choose|k: int| 0 <= k < a.len() && a[k] == n;
                        assert(b[k] == n);
                    }
                    assert(b[i as int] == names[i as int]);
                }
                assert(b.to_set() =~= a.to_set().insert(names[i as int]));
            }
            i += 1;
        }
        assert(names.take(i as int) =~= names);
        let ctx = ContextManager::new(cfg.perception_window);
        AgentRuntime { cfg, sleeping: false, subscribed, ctx }
    }

    /// Where the agent's mailbox is kept.
    pub fn mailbox_path(&self) -> (r: String)
        ensures
            r@ == inside(self.cfg.soul_dir@, "mailbox.log"@),
    {
        join_path(self.cfg.soul_dir.as_str(), "mailbox.log")
    }

    /// Where the agent's soul is kept.
    pub fn soul_path(&self) -> (r: String)
        ensures
            r@ == inside(self.cfg.soul_dir@, "soul.md"@),
    {
        join_path(self.cfg.soul_dir.as_str(), "soul.md")
    }

    /// Whether the agent listens to `topic`.
    pub fn should_accept(&self, topic: &Topic) -> (r: bool)
        requires
            self.wf(),
        ensures
            r == self@.topics.contains(topic@),
    {
        self.subscribed.contains(topic.as_str())
    }

    /// Obeys a command, and says what is to be published about it.
    pub fn handle_command(&mut self, cmd: Command) -> (reply: Option<Draft>)
        requires
            old(self).wf(),
        ensures
            final(self).wf(),
            final(self).cfg == old(self).cfg,
            final(self)@ == obeying(old(self)@, cmd),
            confirms(old(self).cfg.id, cmd, reply),
    {
        match cmd {
            Command::JoinTopic { id, topic } => {
                if !id.same_as(&self.cfg.id) {
                    return None;
                }
                self.subscribed.insert(topic.as_str());
                Some(
                    Draft {
                        topic: topic.clone(),
                        sender: Sender::System,
                        conversation_id: ConversationId::default(),
                        payload: Event::SystemNotification(
                            SystemNotification::AgentJoinedTopic { id: self.cfg.id.clone(), topic },
                        ),
                    },
                )
            },
            Command::Sleep { id } => {
                if !id.same_as(&self.cfg.id) {
                    return None;
                }
                self.sleeping = true;
                Some(
                    Draft::announcement(
                        Event::SystemNotification(
                            SystemNotification::AgentSlept { id: self.cfg.id.clone() },
                        ),
                    ),
                )
            },
            Command::Wake { id } => {
                if !id.same_as(&self.cfg.id) {
                    return None;
                }
                self.sleeping = false;
                Some(
                    Draft::announcement(
                        Event::SystemNotification(
                            SystemNotification::AgentWoke { id: self.cfg.id.clone() },
                        ),
                    ),
                )
            },
            _ => None,
        }
    }

    /// What an event on the bus calls for.
    pub fn on_event(&mut self, env: Envelope<Event>) -> (step: AgentStep)
        requires
            old(self).wf(),
        ensures
            final(self).wf(),
            final(self).cfg == old(self).cfg,
            follows(old(self)@, old(self).cfg.id, env, final(self)@, step),
    {
        let Envelope { id, ts, topic, sender, conversation_id, payload } = env;
        match payload {
            Event::Command(cmd) => match self.handle_command(cmd) {
                Some(draft) => AgentStep::Publish(draft),
                None => AgentStep::Ignore,
            },
            Event::SystemNotification(_) => AgentStep::Ignore,
            Event::Message(msg) => {
                if !self.should_accept(&topic) {
                    return AgentStep::Ignore;
                }
                let own = match &sender {
                    Sender::Agent(from) => from.same_as(&self.cfg.id),
                    _ => false,
                };
                if own || self.sleeping {
                    return AgentStep::Ignore;
                }
                let heard = Envelope { id, ts, topic, sender, conversation_id, payload: msg };
                let kept = heard.clone();
                assert(kept == heard);
                self.ctx.push_message(kept);
                AgentStep::Attend(heard)
            },
        }
    }

    /// The turn that the agent takes on what it `heard`, with the soul that it has now.
    pub fn begin_turn(&self, heard: &Envelope<Message>, soul: String) -> (r: Turn)
        ensures
            r.wf(),
            r.perception.agent_id == self.cfg.id,
            r.perception.topic == heard.topic,
            r.perception.soul == soul,
            r.perception.recent@ == self@.recent,
            r.conversation_id == heard.conversation_id,
            r.tools_enabled == self.cfg.tools_enabled,
            r.steps == 0,
            r.trace@.len() == 0,
    {
        Turn {
            perception: Perception {
                agent_id: self.cfg.id.clone(),
                topic: heard.topic.clone(),
                soul,
                recent: self.ctx.snapshot(),
            },
            conversation_id: heard.conversation_id.clone(),
            tools_enabled: self.cfg.tools_enabled,
            trace: Vec::new(),
            steps: 0,
        }
    }
}

/// How many tools an agent may call in one turn.
pub const MAX_STEPS: usize = 6;

/// What an agent says when it has called too many tools.
pub const LIMIT_TEXT: &'static str =
    "工具调用回合数超限，已停止（请缩小任务或指定更明确的命令）。";

/// What stands in place of a tool's word where tools are switched off.
pub const DISABLED_TEXT: &'static str = "ERROR: tools disabled";

/// A turn: from a message that the agent attends to, to what it says about it.
pub struct Turn {
    pub perception: Perception,
    pub conversation_id: ConversationId,
    pub tools_enabled: bool,
    pub trace: Vec<ChatMessage>,
    pub steps: usize,
}

/// What a turn waits for, or comes to.
#[derive(Debug)]
pub enum TurnStep {
    /// Ask the provider whether to respond.
    AskWhether,
    /// Have the provider answer this prompt.
    Generate(Vec<ChatMessage>),
    /// Call this tool.
    CallTool { tool: String, args: Json },
    /// Publish this; the turn is over.
    Say(Draft),
    /// The turn is over, and nothing is said.
    Rest,
}

/// What a tool's word becomes: the text of its result, or its error.
pub open spec fn tool_word(result: Result<String, UnicError>) -> Seq<char> {
    match result {
        Ok(text) => text@,
        Err(e) => "ERROR: "@ + e.said(),
    }
}

/// What a tool's result becomes: its JSON text, or its error.
pub open spec fn result_word(result: Result<Json, UnicError>) -> Seq<char> {
    match result {
        Ok(v) => text_or_none(text_for(v.model().tidied())),
        Err(e) => "ERROR: "@ + e.said(),
    }
}

impl Turn {
    /// No more tools were called than may be.
    pub open spec fn wf(&self) -> bool {
        self.steps <= MAX_STEPS
    }

    /// The tool call that the messages ask for, where they do.
    pub open spec fn direct(&self) -> Option<(Seq<char>, JsonModel)> {
        wanted_call(self.perception.recent@)
    }

    /// Whether `step` is that the agent says `text`, where and in the conversation in which
    /// it was spoken to.
    pub open spec fn says(&self, step: TurnStep, text: Seq<char>) -> bool {
        &&& step matches TurnStep::Say(draft)
        &&& draft.topic == self.perception.topic
        &&& draft.sender == Sender::Agent(self.perception.agent_id)
        &&& draft.conversation_id == self.conversation_id
        &&& draft.payload matches Event::Message(m)
        &&& m.text@ == text
    }

    /// Whether `step` is that `tool` is called with `args`.
    pub open spec fn calls(&self, step: TurnStep, tool: Seq<char>, args: JsonModel) -> bool {
        &&& step matches TurnStep::CallTool { tool: t, args: a }
        &&& t@ == tool
        &&& a.model() == args
    }

    /// Whether `step` is how the turn goes on by itself: the provider is asked whether to
    /// respond, and for the next action once a tool has spoken, until too many tools were
    /// called.
    pub open spec fn goes_on(&self, step: TurnStep) -> bool {
        if self.steps >= MAX_STEPS {
            self.says(step, LIMIT_TEXT@)
        } else if self.trace@.len() == 0 {
            step is AskWhether
        } else {
            &&& step matches TurnStep::Generate(prompt)
            &&& chat_lines(prompt@) == prompt_lines(self.perception, self.trace@)
        }
    }

    /// Whether `step` is what becomes of a call that the messages ask for. Where tools are switched
    /// off it could only fail, as often as it may be tried, so what is said is what is said then.
    pub open spec fn tries(&self, call: (Seq<char>, JsonModel), step: TurnStep) -> bool {
        if self.tools_enabled {
            self.calls(step, call.0, call.1)
        } else {
            self.says(step, LIMIT_TEXT@)
        }
    }

    /// Whether `step` is the first step of the turn: a conversation is loaded, where the latest
    /// message asks for that, or else it is asked whether to respond.
    pub open spec fn starts(&self, step: TurnStep) -> bool {
        match due_call(self.perception.recent@, false) {
            Some(call) => self.tries(call, step),
            None => step is AskWhether,
        }
    }

    /// Whether `step` is how the turn goes on when the provider said whether to respond: a call
    /// that the messages ask for is made only if it says so.
    pub open spec fn opens(&self, respond: bool, step: TurnStep) -> bool {
        if !respond {
            step is Rest
        } else {
            match self.direct() {
                Some(call) => self.tries(call, step),
                None => {
                    &&& step matches TurnStep::Generate(prompt)
                    &&& chat_lines(prompt@) == prompt_lines(self.perception, self.trace@)
                },
            }
        }
    }

    /// Whether `step` is how the turn goes on, as `after`, when the provider wrote `text`, where
    /// `parsed` is the action that the text spells, if it spells one.
    pub open spec fn reads(
        &self,
        text: Seq<char>,
        parsed: Option<NextAction>,
        after: &Turn,
        step: TurnStep,
    ) -> bool {
        &&& after.wf()
        &&& after.same_setting(self)
        &&& match parsed {
            Some(NextAction::Speak { text: said }) => *after == *self && self.says(step, said@),
            Some(NextAction::Noop) => *after == *self && step is Rest,
            None => *after == *self && self.says(step, text),
            Some(NextAction::Tool { tool, args }) => {
                &&& after.steps == self.steps + 1
                &&& if self.tools_enabled {
                    &&& after.trace == self.trace
                    &&& self.calls(
                        step,
                        tool@,
                        if args is Null {
                            JsonModel::Object(Seq::empty())
                        } else {
                            args.model()
                        },
                    )
                } else {
                    &&& chat_lines(after.trace@) == chat_lines(self.trace@).push(
                        ChatLine {
                            role: ChatRole::Tool,
                            content: DISABLED_TEXT@,
                            name: Some(tool@),
                        },
                    )
                    &&& after.goes_on(step)
                }
            },
        }
    }

    /// Everything but the trace and the count of calls is as in `other`.
    pub open spec fn same_setting(&self, other: &Turn) -> bool {
        &&& self.perception == other.perception
        &&& self.conversation_id == other.conversation_id
        &&& self.tools_enabled == other.tools_enabled
    }

    /// The draft with which the agent says `text`.
    fn say(&self, text: String) -> (r: TurnStep)
        ensures
            self.says(r, text@),
    {
        TurnStep::Say(
            Draft {
                topic: self.perception.topic.clone(),
                sender: Sender::Agent(self.perception.agent_id.clone()),
                conversation_id: self.conversation_id.clone(),
                payload: Event::Message(Message { text }),
            },
        )
    }

    /// How the turn goes on by itself.
    fn go_on(&self) -> (step: TurnStep)
        requires
            self.wf(),
            self.direct() is None,
        ensures
            self.goes_on(step),
    {
        if self.steps >= MAX_STEPS {
            return self.say(LIMIT_TEXT.to_owned());
        }
        if self.trace.len() == 0 {
            TurnStep::AskWhether
        } else {
            TurnStep::Generate(prompt_for(&self.perception, &self.trace))
        }
    }

    /// What becomes of a call that the messages ask for.
    fn try_call(&self, tool: String, args: Json) -> (step: TurnStep)
        ensures
            self.tries((tool@, args.model()), step),
    {
        if self.tools_enabled {
            TurnStep::CallTool { tool, args }
        } else {
            self.say(LIMIT_TEXT.to_owned())
        }
    }

    /// The first step of the turn.
    pub fn start(&self) -> (step: TurnStep)
        requires
            self.wf(),
            self.steps == 0,
            self.trace@.len() == 0,
        ensures
            self.starts(step),
    {
        match first_step(&self.perception, &self.trace) {
            DecisionStep::Act(Some(AgentAction::ToolCall { tool, args })) => self.try_call(
                tool,
                args,
            ),
            _ => TurnStep::AskWhether,
        }
    }

    /// The step after the provider said whether to respond.
    pub fn on_gate(&self, respond: bool) -> (step: TurnStep)
        ensures
            self.opens(respond, step),
    {
        match after_gate(respond, &self.perception, &self.trace) {
            DecisionStep::Generate(prompt) => TurnStep::Generate(prompt),
            DecisionStep::Act(Some(AgentAction::ToolCall { tool, args })) => self.try_call(
                tool,
                args,
            ),
            _ => TurnStep::Rest,
        }
    }

    /// The step after the provider wrote `text`, where `parsed` is the action that the text
    /// spells, if it spells one.
    pub fn on_text(&mut self, text: String, parsed: Option<NextAction>) -> (step: TurnStep)
        requires
            old(self).wf(),
            old(self).direct() is None,
            old(self).steps < MAX_STEPS,
        ensures
            old(self).reads(text@, parsed, final(self), step),
    {
        match conclude(text, parsed) {
            None => TurnStep::Rest,
            Some(AgentAction::Speak(said)) => self.say(said),
            Some(AgentAction::ToolCall { tool, args }) => {
                self.steps = self.steps + 1;
                if self.tools_enabled {
                    TurnStep::CallTool { tool, args }
                } else {
                    self.note(tool.as_str(), DISABLED_TEXT.to_owned());
                    self.go_on()
                }
            },
        }
    }

    /// Adds what `tool` said to the trace.
    fn note(&mut self, tool: &str, content: String)
        ensures
            final(self).same_setting(old(self)),
            final(self).steps == old(self).steps,
            chat_lines(final(self).trace@) == chat_lines(old(self).trace@).push(
                ChatLine { role: ChatRole::Tool, content: content@, name: Some(tool@) },
            ),
    {
        let ghost before = self.trace@;
        self.trace.push(
            ChatMessage { role: ChatRole::Tool, content, name: Some(tool.to_owned()) },
        );
        assert(chat_lines(self.trace@) =~= chat_lines(before).push(
            ChatLine { role: ChatRole::Tool, content: content@, name: Some(tool@) },
        ));
    }

    /// Whether `step` is how the turn goes on when `tool` has said `word`. That is private to
    /// the agent, unless the messages asked for the call: then it is said as it is.
    pub open spec fn hears(&self, tool: Seq<char>, word: Seq<char>, after: &Turn, step: TurnStep) -> bool {
        &&& after.wf()
        &&& after.same_setting(self)
        &&& after.steps == self.steps
        &&& if self.direct() is Some {
            &&& after.trace == self.trace
            &&& self.says(step, word)
        } else {
            &&& chat_lines(after.trace@) == chat_lines(self.trace@).push(
                ChatLine { role: ChatRole::Tool, content: word, name: Some(tool) },
            )
            &&& after.goes_on(step)
        }
    }

    /// The step after `tool` was called.
    pub fn on_tool(&mut self, tool: &str, result: Result<Json, UnicError>) -> (step: TurnStep)
        requires
            old(self).wf(),
        ensures
            old(self).hears(tool@, result_word(result), final(self), step),
    {
        match result {
            Ok(v) => self.on_tool_word(tool, Ok(json_text(&v))),
            Err(e) => self.on_tool_word(tool, Err(e)),
        }
    }

    /// The step after `tool` was called, and said this.
    pub fn on_tool_word(&mut self, tool: &str, result: Result<String, UnicError>) -> (step:
        TurnStep)
        requires
            old(self).wf(),
        ensures
            old(self).hears(tool@, tool_word(result), final(self), step),
    {
        let content = match result {
            Ok(text) => text,
            Err(e) => "ERROR: ".to_owned().concat(e.to_string().as_str()),
        };
        if self.is_direct() {
            return self.say(content);
        }
        self.note(tool, content);
        self.go_on()
    }

    /// Whether the messages ask for a tool.
    fn is_direct(&self) -> (r: bool)
        ensures
            r == (self.direct() is Some),
    {
        wanted_call_of(&self.perception).is_some()
    }
}

/// Waking an agent undoes putting it to sleep, and nothing else.
pub proof fn law_wake_undoes_sleep(state: AgentState, id: AgentId)
    requires
        !state.sleeping,
    ensures
        obeying(obeying(state, Command::Sleep { id }), Command::Wake { id }) == state,
{
}

/// A sleeping agent attends to nothing.
pub proof fn law_sleep_shuts_everything_out(
    state: AgentState,
    id: AgentId,
    topic: Seq<char>,
    sender: Sender,
)
    requires
        id@ == state.id,
    ensures
        !attends(obeying(state, Command::Sleep { id }), topic, sender),
{
}

/// An agent never attends to what it said itself.
pub proof fn law_no_agent_hears_itself(state: AgentState, topic: Seq<char>, id: AgentId)
    requires
        id@ == state.id,
    ensures
        !attends(state, topic, Sender::Agent(id)),
{
}

/// Once an agent joined a topic it attends to what others say there, as long as it is awake.
pub proof fn law_joining_opens_a_topic(
    state: AgentState,
    id: AgentId,
    topic: Topic,
    sender: Sender,
)
    requires
        id@ == state.id,
        !state.sleeping,
        !(sender matches Sender::Agent(from) && from@ == state.id),
    ensures
        attends(obeying(state, Command::JoinTopic { id, topic }), topic@, sender),
{
}

/// A command for another agent leaves an agent as it is.
pub proof fn law_commands_reach_only_their_agent(state: AgentState, cmd: Command)
    requires
        match cmd {
            Command::JoinTopic { id, .. } => id@ != state.id,
            Command::Sleep { id } => id@ != state.id,
            Command::Wake { id } => id@ != state.id,
            _ => true,
        },
    ensures
        obeying(state, cmd) == state,
{
}

/// What a tool says stays with the agent that called it of its own accord: all that others can
/// hear right after it is that too many tools were called.
pub proof fn law_tool_results_stay_private(
    turn: Turn,
    tool: Seq<char>,
    word: Seq<char>,
    after: Turn,
    step: TurnStep,
)
    requires
        turn.direct() is None,
        turn.hears(tool, word, &after, step),
    ensures
        step matches TurnStep::Say(draft) ==> {
            &&& after.steps >= MAX_STEPS
            &&& draft.payload matches Event::Message(m)
            &&& m.text@ == LIMIT_TEXT@
        },
{
}

/// What a tool says that the messages asked for comes back as a message of the agent, where the
/// agent was spoken to and in its conversation.
pub proof fn law_direct_results_come_back(
    turn: Turn,
    tool: Seq<char>,
    word: Seq<char>,
    after: Turn,
    step: TurnStep,
)
    requires
        turn.direct() is Some,
        turn.hears(tool, word, &after, step),
    ensures
        step matches TurnStep::Say(draft) && {
            &&& draft.topic == turn.perception.topic
            &&& draft.conversation_id == turn.conversation_id
            &&& draft.sender == Sender::Agent(turn.perception.agent_id)
            &&& draft.payload matches Event::Message(m)
            &&& m.text@ == word
        },
{
}

/// A turn in which as many tools were called as may be ends.
pub proof fn law_too_many_calls_end_a_turn(turn: Turn, step: TurnStep)
    requires
        turn.steps >= MAX_STEPS,
        turn.goes_on(step),
    ensures
        turn.says(step, LIMIT_TEXT@),
{
}

/// Whether a turn that has come to `before` and waits on `step` can come to `after` and `next`:
/// through some answer of the provider, or some word of the tool. Once something was said, or
/// the agent rests, the turn is over.
pub open spec fn moves(before: Turn, step: TurnStep, after: Turn, next: TurnStep) -> bool {
    match step {
        TurnStep::AskWhether => after == before && exists|respond: bool| #[trigger]
            before.opens(respond, next),
        TurnStep::Generate(_) => exists|text: Seq<char>, parsed: Option<NextAction>| #[trigger]
            before.reads(text, parsed, &after, next),
        TurnStep::CallTool { tool, .. } => exists|word: Seq<char>| #[trigger]
            before.hears(tool@, word, &after, next),
        TurnStep::Say(_) => false,
        TurnStep::Rest => false,
    }
}

/// Whether the turn moves on from its `i`th step to the next one.
pub open spec fn moves_at(states: Seq<Turn>, steps: Seq<TurnStep>, i: int) -> bool {
    moves(states[i], steps[i], states[i + 1], steps[i + 1])
}

/// Whether `steps` are the steps of a turn so far, and `states` what it was at each of them.
pub open spec fn is_turn(states: Seq<Turn>, steps: Seq<TurnStep>) -> bool {
    &&& states.len() == steps.len()
    &&& steps.len() > 0
    &&& states[0].steps == 0
    &&& states[0].trace@.len() == 0
    &&& states[0].starts(steps[0])
    &&& forall|i: int| 0 <= i < steps.len() - 1 ==> #[trigger] moves_at(states, steps, i)
}

/// How often the provider is asked for an action in the first `n` steps.
pub open spec fn times_asked(steps: Seq<TurnStep>, n: int) -> nat
    decreases n,
{
    if n <= 0 {
        0
    } else if steps[n - 1] is Generate {
        times_asked(steps, n - 1) + 1
    } else {
        times_asked(steps, n - 1)
    }
}

/// What holds at the `i`th step of a turn.
spec fn holds_at(states: Seq<Turn>, steps: Seq<TurnStep>, i: int) -> bool {
    let turn = states[i];
    let asked = times_asked(steps, i + 1);
    &&& turn.wf()
    &&& turn.same_setting(&states[0])
    &&& match steps[i] {
        TurnStep::AskWhether => i == 0 && turn.steps == 0 && asked == 0,
        TurnStep::Generate(_) => {
            &&& turn.direct() is None
            &&& turn.steps < MAX_STEPS
            &&& asked == turn.steps + 1
            &&& i <= 1 + 2 * turn.steps
        },
        TurnStep::CallTool { .. } => {
            &&& turn.tools_enabled
            &&& turn.direct() is Some ==> i <= 1 && asked == 0
            &&& turn.direct() is None ==> asked == turn.steps && 1 <= turn.steps && i <= 2
                * turn.steps
        },
        TurnStep::Say(draft) => {
            &&& draft.topic == turn.perception.topic
            &&& draft.sender == Sender::Agent(turn.perception.agent_id)
            &&& draft.conversation_id == turn.conversation_id
            &&& draft.payload is Message
            &&& turn.direct() is Some ==> i <= 2 && asked == 0
            &&& turn.direct() is None ==> {
                &&& 1 <= i <= 2 * MAX_STEPS + 1
                &&& if turn.steps == MAX_STEPS {
                    asked == MAX_STEPS && draft.payload->Message_0.text@ == LIMIT_TEXT@
                } else {
                    asked == turn.steps + 1 && steps[i - 1] is Generate
                }
            }
        },
        TurnStep::Rest => {
            &&& i <= 2 * MAX_STEPS
            &&& asked <= MAX_STEPS
            &&& turn.direct() is Some ==> asked == 0
        },
    }
}

proof fn lemma_holds_at(states: Seq<Turn>, steps: Seq<TurnStep>, i: int)
    requires
        is_turn(states, steps),
        0 <= i < steps.len(),
    ensures
        holds_at(states, steps, i),
    decreases i,
{
    assert(times_asked(steps, 0) == 0);
    if i > 0 {
        lemma_holds_at(states, steps, i - 1);
        assert(moves_at(states, steps, i - 1));
        let before = states[i - 1];
        let after = states[i];
        assert(chat_lines(after.trace@).len() == after.trace@.len());
        match steps[i - 1] {
            TurnStep::AskWhether => {
                let respond = choose|respond: bool| #[trigger] before.opens(respond, steps[i]);
                assert(before.opens(respond, steps[i]));
            },
            TurnStep::Generate(_) => {
                let (text, parsed) = choose|text: Seq<char>, parsed: Option<NextAction>| #[trigger]
                    before.reads(text, parsed, &after, steps[i]);
                assert(before.reads(text, parsed, &after, steps[i]));
            },
            TurnStep::CallTool { tool, .. } => {
                let word = choose|word: Seq<char>| #[trigger]
                    before.hears(tool@, word, &after, steps[i]);
                assert(before.hears(tool@, word, &after, steps[i]));
            },
            _ => {},
        }
    }
}

/// The law of a whole turn, whatever the provider and the tools answer: it comes to an end; the
/// provider is asked for an action six times at most; at most one thing is said, and then last,
/// by the agent, where it was spoken to and in that conversation; where all six actions were
/// calls of tools, this is that they were too many, and otherwise it is what the provider wrote
/// last, or what became of the call that the messages asked for; and where tools are switched off
/// none is called.
pub proof fn law_of_a_turn(states: Seq<Turn>, steps: Seq<TurnStep>)
    requires
        is_turn(states, steps),
    ensures
        steps.len() <= 2 * MAX_STEPS + 2,
        times_asked(steps, steps.len() as int) <= MAX_STEPS,
        forall|i: int|
            0 <= i < steps.len() - 1 ==> !((#[trigger] steps[i]) is Say) && !(steps[i] is Rest),
        steps.last() matches TurnStep::Say(draft) ==> {
            &&& draft.topic == states[0].perception.topic
            &&& draft.sender == Sender::Agent(states[0].perception.agent_id)
            &&& draft.conversation_id == states[0].conversation_id
            &&& draft.payload matches Event::Message(m)
            &&& states[0].direct() is None ==> if states.last().steps == MAX_STEPS {
                &&& times_asked(steps, steps.len() as int) == MAX_STEPS
                &&& m.text@ == LIMIT_TEXT@
            } else {
                &&& times_asked(steps, steps.len() as int) == states.last().steps + 1
                &&& steps[steps.len() - 2] is Generate
            }
        },
        states[0].direct() is Some ==> times_asked(steps, steps.len() as int) == 0,
        !states[0].tools_enabled ==> forall|i: int|
            0 <= i < steps.len() ==> !((#[trigger] steps[i]) is CallTool),
        forall|i: int|
            0 <= i < steps.len() && (#[trigger] steps[i]) is Generate ==> states[i].direct() is None
                && states[i].steps < MAX_STEPS,
{
    let last = steps.len() - 1;
    lemma_holds_at(states, steps, last);
    assert forall|i: int| 0 <= i < last implies !((#[trigger] steps[i]) is Say) && !(
    steps[i] is Rest) by {
        assert(moves_at(states, steps, i));
    }
    assert forall|i: int| 0 <= i < steps.len() && !states[0].tools_enabled implies !(
    (#[trigger] steps[i]) is CallTool) by {
        lemma_holds_at(states, steps, i);
    }
    assert forall|i: int|
        0 <= i < steps.len() && (#[trigger] steps[i]) is Generate implies states[i].direct() is None
        && states[i].steps < MAX_STEPS by {
        lemma_holds_at(states, steps, i);
    }
}

/// Joining takes nothing away: an agent listens afterwards to every topic that it listened to
/// before, and to none anew but the joined one. What it remembers, and whether it sleeps, is left
/// as it is.
pub proof fn law_joining_takes_nothing_away(
    state: AgentState,
    id: AgentId,
    topic: Topic,
    other: Seq<char>,
)
    ensures
        ({
            let after = obeying(state, Command::JoinTopic { id, topic });
            &&& state.topics.contains(other) ==> after.topics.contains(other)
            &&& after.topics.contains(other) ==> state.topics.contains(other) || other == topic@
            &&& id@ == state.id ==> after.topics.contains(topic@)
            &&& after.sleeping == state.sleeping
            &&& after.recent == state.recent
            &&& after.window == state.window
            &&& after.id == state.id
        }),
{
}

/// No command changes who an agent is or what it remembers; only joining changes what it listens
/// to, and only sleeping and waking whether it sleeps, and they do.
pub proof fn law_commands_change_one_thing(state: AgentState, cmd: Command)
    ensures
        ({
            let after = obeying(state, cmd);
            &&& after.id == state.id
            &&& after.recent == state.recent
            &&& after.window == state.window
            &&& !(cmd is JoinTopic) ==> after.topics == state.topics
            &&& !(cmd is Sleep) && !(cmd is Wake) ==> after.sleeping == state.sleeping
            &&& (cmd matches Command::Sleep { id } && id@ == state.id) ==> after.sleeping
            &&& (cmd matches Command::Wake { id } && id@ == state.id) ==> !after.sleeping
        }),
{
}

/// An agent that obeys a command says so: that it sleeps or is awake on the system topic, and
/// that it joined a topic on that topic. It says nothing of other commands, or of those for
/// others.
pub proof fn law_what_an_agent_did_is_told(me: AgentId, cmd: Command, reply: Option<Draft>)
    requires
        confirms(me, cmd, reply),
    ensures
        reply is Some <==> match cmd {
            Command::JoinTopic { id, .. } => id@ == me@,
            Command::Sleep { id } => id@ == me@,
            Command::Wake { id } => id@ == me@,
            _ => false,
        },
        reply matches Some(draft) ==> {
            &&& draft.sender == Sender::System
            &&& (cmd matches Command::JoinTopic { topic, .. } ==> {
                &&& draft.topic == topic
                &&& draft.payload == Event::SystemNotification(
                    SystemNotification::AgentJoinedTopic { id: me, topic },
                )
            })
            &&& cmd is Sleep ==> draft.topic@ == "#system"@ && draft.payload
                == Event::SystemNotification(SystemNotification::AgentSlept { id: me })
            &&& cmd is Wake ==> draft.topic@ == "#system"@ && draft.payload
                == Event::SystemNotification(SystemNotification::AgentWoke { id: me })
        },
{
}

/// An agent that is awake attends to every message of others on the topics that it listens to,
/// whoever they are, and to no other message. What it attends to it hears as it was said, and
/// remembers last; of what it remembered before, the latest stays, in its order, as far as there
/// is room.
pub proof fn law_what_is_heard_is_remembered(
    before: AgentState,
    me: AgentId,
    env: Envelope<Event>,
    said: Message,
    after: AgentState,
    step: AgentStep,
)
    requires
        follows(before, me, env, after, step),
        env.payload == Event::Message(said),
        before.window >= 1,
    ensures
        after.id == before.id,
        after.topics == before.topics,
        after.sleeping == before.sleeping,
        after.window == before.window,
        step is Attend <==> {
            &&& !before.sleeping
            &&& before.topics.contains(env.topic@)
            &&& match env.sender {
                Sender::Agent(from) => from@ != before.id,
                _ => true,
            }
        },
        !(step is Attend) ==> after.recent == before.recent,
        step matches AgentStep::Attend(heard) ==> {
            let n = after.recent.len();
            &&& heard.payload == said
            &&& heard.sender == env.sender
            &&& heard.topic == env.topic
            &&& heard.conversation_id == env.conversation_id
            &&& heard.id == env.id
            &&& heard.ts == env.ts
            &&& n == if before.recent.len() < before.window {
                before.recent.len() + 1
            } else {
                before.window
            }
            &&& after.recent[n - 1] == heard
            &&& forall|i: int|
                0 <= i < n - 1 ==> #[trigger] after.recent[i] == before.recent[before.recent.len()
                    - (n - 1) + i]
        },
{
}

/// What the system tells, and what others are told to do, changes nothing about an agent.
pub proof fn law_notices_leave_an_agent_as_it_is(
    before: AgentState,
    me: AgentId,
    env: Envelope<Event>,
    after: AgentState,
    step: AgentStep,
)
    requires
        follows(before, me, env, after, step),
    ensures
        env.payload is SystemNotification ==> after == before && step is Ignore,
        env.payload matches Event::Command(Command::Sleep { id }) && id@ == before.id
            ==> after.sleeping,
        env.payload matches Event::Command(Command::Wake { id }) && id@ == before.id
            ==> !after.sleeping,
        env.payload is Command ==> after.recent == before.recent,
{
}

/// A new agent is awake, remembers nothing, and listens to every topic of its setup and to no
/// other.
pub proof fn law_a_new_agent_listens_to_its_topics(
    cfg: AgentConfig,
    agent: AgentRuntime,
    topic: Seq<char>,
)
    requires
        call_ensures(AgentRuntime::new, (cfg,), agent),
    ensures
        agent@.topics.contains(topic) <==> exists|i: int|
            0 <= i < cfg.topics@.len() && (#[trigger] cfg.topics@[i])@ == topic,
        forall|i: int|
            0 <= i < cfg.topics@.len() ==> agent@.topics.contains((#[trigger] cfg.topics@[i])@),
        agent@.id == cfg.id@,
        !agent@.sleeping,
        agent@.recent.len() == 0,
        agent@.window >= 1,
        cfg.perception_window > 0 ==> agent@.window == cfg.perception_window,
{
    let names = cfg.topics@.map_values(|t: Topic| t@);
    assert forall|i: int| 0 <= i < cfg.topics@.len() implies names.contains(
        (#[trigger] cfg.topics@[i])@,
    ) by {
        assert(names[i] == cfg.topics@[i]@);
    }
    if names.contains(topic) {
        let i = choose|i: int| 0 <= i < names.len() && names[i] == topic;
        assert(cfg.topics@[i]@ == topic);
    }
}

/// A turn begins with all that the agent remembers, its own soul and name, and what it is spoken
/// to about; no tool has spoken yet.
pub proof fn law_a_turn_begins_with_all_that_is_remembered(
    agent: AgentRuntime,
    heard: Envelope<Message>,
    soul: String,
    turn: Turn,
)
    requires
        call_ensures(AgentRuntime::begin_turn, (&agent, &heard, soul), turn),
    ensures
        turn.perception.recent@.len() == agent@.recent.len(),
        forall|i: int|
            0 <= i < agent@.recent.len() ==> #[trigger] turn.perception.recent@[i]
                == agent@.recent[i],
        turn.perception.soul@ == soul@,
        turn.perception.agent_id == agent.cfg.id,
        turn.perception.topic == heard.topic,
        turn.conversation_id == heard.conversation_id,
        turn.tools_enabled == agent.cfg.tools_enabled,
        turn.trace@.len() == 0,
        turn.steps == 0,
{
}

/// What a tool says to the agent that called it goes to the end of the trace, word for word and
/// under the tool's name, and nothing of the trace is lost. Where the model is asked again, the
/// whole trace is before it, and what the tool said comes right before the order to answer.
pub proof fn law_what_a_tool_says_reaches_the_model(
    turn: Turn,
    tool: Seq<char>,
    word: Seq<char>,
    after: Turn,
    step: TurnStep,
)
    requires
        turn.direct() is None,
        turn.hears(tool, word, &after, step),
    ensures
        ({
            let n = turn.trace@.len();
            &&& after.trace@.len() == n + 1
            &&& forall|i: int| 0 <= i < n ==> (#[trigger] turn.trace@[i])@ == after.trace@[i]@
            &&& after.trace@[n as int].role == ChatRole::Tool
            &&& after.trace@[n as int].content@ == word
            &&& crate::path::said(after.trace@[n as int].name) == Some(tool)
            &&& after.steps < 6 ==> step is Generate
            &&& (step matches TurnStep::Generate(prompt) ==> {
                &&& prompt@[prompt@.len() - 2].content@ == word
                &&& forall|i: int|
                    0 <= i < n ==> (#[trigger] turn.trace@[i])@ == prompt@[prompt@.len() - 2 - n
                        + i]@
            })
        }),
{
    let n = turn.trace@.len();
    lemma_grown(turn.trace@, after.trace@, tool, word);
    if let TurnStep::Generate(prompt) = step {
        law_a_prompt_holds_everything(after.perception, after.trace@, prompt@);
        assert(after.trace@[n as int]@ == prompt@[prompt@.len() - 2]@);
        assert forall|i: int| 0 <= i < n implies (#[trigger] turn.trace@[i])@
            == prompt@[prompt@.len() - 2 - n + i]@ by {
            assert(after.trace@[i]@ == prompt@[prompt@.len() - 1 - (n + 1) + i]@);
        }
    }
}

proof fn lemma_grown(
    before: Seq<ChatMessage>,
    after: Seq<ChatMessage>,
    tool: Seq<char>,
    word: Seq<char>,
)
    requires
        chat_lines(after) == chat_lines(before).push(
            ChatLine { role: ChatRole::Tool, content: word, name: Some(tool) },
        ),
    ensures
        after.len() == before.len() + 1,
        forall|i: int| 0 <= i < before.len() ==> (#[trigger] before[i])@ == after[i]@,
        after[before.len() as int]@ == (ChatLine {
            role: ChatRole::Tool,
            content: word,
            name: Some(tool),
        }),
{
    let a = chat_lines(before);
    let b = chat_lines(after);
    assert(b.len() == after.len());
    assert forall|i: int| 0 <= i < before.len() implies (#[trigger] before[i])@ == after[i]@ by {
        assert(a[i] == before[i]@);
        assert(b[i] == after[i]@);
    }
    assert(b[before.len() as int] == after[before.len() as int]@);
}

/// What a tool gives back is told in full: a text as it is, and an error with all that it says.
pub proof fn law_a_tools_word_is_whole(text: String, e: String)
    ensures
        tool_word(Ok(text)) == text@,
        tool_word(Err(UnicError::Llm(e))) == "ERROR: "@ + ("llm error: "@ + e@),
        tool_word(Err(UnicError::Tool(e))) == "ERROR: "@ + ("tool error: "@ + e@),
        tool_word(Err(UnicError::Io(e))) == "ERROR: "@ + ("io error: "@ + e@),
        result_word(Err(UnicError::Tool(e))) == "ERROR: "@ + ("tool error: "@ + e@),
        result_word(Err(UnicError::Io(e))) == "ERROR: "@ + ("io error: "@ + e@),
{
}

/// A document that a tool gives back is told as the text that is written for it, where its
/// fields are in order.
pub proof fn law_a_tools_document_is_written_out(v: Json, text: Seq<char>)
    requires
        v.model().tidy(),
        text_for(v.model()) == Some(text),
    ensures
        result_word(Ok(v)) == text,
{
    crate::json::law_tidy_documents_come_back(v.model());
}

/// What the model asks for is done: what it says is said, word for word, where the agent was
/// spoken to; what is no action is said as it is; a tool is called by the name and with the
/// arguments that it gives; and nothing is done where it wants nothing. Where tools are switched
/// off it is told so instead.
pub proof fn law_the_model_has_its_way(
    turn: Turn,
    text: Seq<char>,
    parsed: Option<NextAction>,
    after: Turn,
    step: TurnStep,
)
    requires
        turn.reads(text, parsed, &after, step),
    ensures
        after.perception == turn.perception,
        after.conversation_id == turn.conversation_id,
        after.tools_enabled == turn.tools_enabled,
        (parsed is None || (parsed matches Some(NextAction::Speak { .. }))) ==> {
            &&& step matches TurnStep::Say(draft)
            &&& draft.topic == turn.perception.topic
            &&& draft.sender == Sender::Agent(turn.perception.agent_id)
            &&& draft.conversation_id == turn.conversation_id
            &&& draft.payload matches Event::Message(m)
            &&& m.text@ == match parsed {
                Some(NextAction::Speak { text: said }) => said@,
                _ => text,
            }
        },
        parsed matches Some(NextAction::Noop) ==> step is Rest,
        parsed matches Some(NextAction::Tool { tool, args }) ==> {
            &&& after.steps == turn.steps + 1
            &&& turn.tools_enabled ==> {
                &&& after.trace == turn.trace
                &&& step matches TurnStep::CallTool { tool: called, args: given }
                &&& called@ == tool@
                &&& !(args is Null) ==> given.model() == args.model()
                &&& args is Null ==> given.model() == JsonModel::Object(Seq::empty())
            }
            &&& !turn.tools_enabled ==> {
                let n = turn.trace@.len();
                &&& after.trace@.len() == n + 1
                &&& after.trace@[n as int].content@ == "ERROR: tools disabled"@
                &&& crate::path::said(after.trace@[n as int].name) == Some(tool@)
                &&& !(step is CallTool)
            }
        },
{
    if let Some(NextAction::Tool { tool, args }) = parsed {
        if !turn.tools_enabled {
            lemma_grown(turn.trace@, after.trace@, tool@, DISABLED_TEXT@);
        }
    }
}

/// Nothing that a tool said to the agent is forgotten in a turn: at every later step the trace
/// still holds it, at its place and word for word, and whenever the model is asked for an action
/// the whole trace stands in the prompt, in order, right before the order to answer.
pub proof fn law_a_turn_forgets_nothing(states: Seq<Turn>, steps: Seq<TurnStep>, i: int, j: int)
    requires
        is_turn(states, steps),
        0 <= i <= j < steps.len(),
    ensures
        states[i].trace@.len() <= states[j].trace@.len(),
        forall|k: int|
            0 <= k < states[i].trace@.len() ==> (#[trigger] states[i].trace@[k])@
                == states[j].trace@[k]@,
        steps[j] matches TurnStep::Generate(prompt) ==> {
            let n = states[j].trace@.len();
            &&& prompt@.len() > n
            &&& forall|k: int|
                0 <= k < n ==> (#[trigger] states[j].trace@[k])@ == prompt@[prompt@.len() - 1 - n
                    + k]@
        },
        i < j && states[i].direct() is None ==> (steps[i] matches TurnStep::CallTool { tool, .. }
            ==> {
            let n = states[i].trace@.len();
            &&& states[j].trace@.len() > n
            &&& states[j].trace@[n as int].role == ChatRole::Tool
            &&& crate::path::said(states[j].trace@[n as int].name) == Some(tool@)
        }),
    decreases j - i,
{
    lemma_holds_at(states, steps, j);
    if let TurnStep::Generate(prompt) = steps[j] {
        assert(chat_lines(prompt@) == prompt_lines(states[j].perception, states[j].trace@)) by {
            if j > 0 {
                lemma_moves(states, steps, j - 1);
            }
        }
        law_a_prompt_holds_everything(states[j].perception, states[j].trace@, prompt@);
        let n = states[j].trace@.len();
        assert forall|k: int| 0 <= k < n implies (#[trigger] states[j].trace@[k])@
            == prompt@[prompt@.len() - 1 - n + k]@ by {}
    }
    if i < j {
        law_a_turn_forgets_nothing(states, steps, i + 1, j);
        lemma_moves(states, steps, i);
        assert forall|k: int| 0 <= k < states[i].trace@.len() implies (
        #[trigger] states[i].trace@[k])@ == states[j].trace@[k]@ by {
            assert(states[i + 1].trace@[k]@ == states[j].trace@[k]@);
        }
        if let TurnStep::CallTool { tool, .. } = steps[i] {
            if states[i].direct() is None {
                let n = states[i].trace@.len() as int;
                assert(states[i + 1].trace@[n]@ == states[j].trace@[n]@);
            }
        }
    }
}

proof fn lemma_moves(states: Seq<Turn>, steps: Seq<TurnStep>, i: int)
    requires
        is_turn(states, steps),
        0 <= i < steps.len() - 1,
    ensures
        ({
            let before = states[i];
            let after = states[i + 1];
            &&& before.trace@.len() <= after.trace@.len()
            &&& forall|k: int|
                0 <= k < before.trace@.len() ==> (#[trigger] before.trace@[k])@
                    == after.trace@[k]@
            &&& (steps[i + 1] matches TurnStep::Generate(prompt) ==> chat_lines(prompt@)
                == prompt_lines(after.perception, after.trace@))
            &&& before.direct() is None ==> (steps[i] matches TurnStep::CallTool { tool, .. } ==> {
                let n = before.trace@.len() as int;
                &&& after.trace@.len() == n + 1
                &&& after.trace@[n].role == ChatRole::Tool
                &&& crate::path::said(after.trace@[n].name) == Some(tool@)
            })
        }),
{
    let before = states[i];
    let after = states[i + 1];
    assert(moves_at(states, steps, i));
    match steps[i] {
        TurnStep::AskWhether => {
            let respond = choose|respond: bool| #[trigger] before.opens(respond, steps[i + 1]);
            assert(before.opens(respond, steps[i + 1]));
        },
        TurnStep::Generate(_) => {
            let (text, parsed) = choose|text: Seq<char>, parsed: Option<NextAction>| #[trigger]
                before.reads(text, parsed, &after, steps[i + 1]);
            assert(before.reads(text, parsed, &after, steps[i + 1]));
            if let Some(NextAction::Tool { tool, args }) = parsed {
                if !before.tools_enabled {
                    lemma_grown(before.trace@, after.trace@, tool@, DISABLED_TEXT@);
                }
            }
        },
        TurnStep::CallTool { tool, .. } => {
            let word = choose|word: Seq<char>| #[trigger]
                before.hears(tool@, word, &after, steps[i + 1]);
            assert(before.hears(tool@, word, &after, steps[i + 1]));
            if before.direct() is None {
                lemma_grown(before.trace@, after.trace@, tool@, word);
            }
        },
        _ => {},
    }
}

/// A command that the user wrote last is run by the shell, the whole of it, once the agent is to
/// respond, whatever others said since; and where it is not to respond nothing is done.
pub proof fn law_the_users_command_is_run(
    turn: Turn,
    i: int,
    cmd: Seq<char>,
    step: TurnStep,
    refused: TurnStep,
)
    requires
        turn.opens(true, step),
        turn.opens(false, refused),
        turn.tools_enabled,
        0 <= i < turn.perception.recent@.len(),
        turn.perception.recent@[i].sender == Sender::UserSudo,
        turn.perception.recent@[i].payload.text@ == "!bash "@ + cmd,
        forall|j: int|
            i < j < turn.perception.recent@.len() ==> (#[trigger] turn.perception.recent@[j]).sender
                != Sender::UserSudo,
        !crate::text::begins(turn.perception.recent@.last().payload.text@, "!conv_load "@),
    ensures
        step matches TurnStep::CallTool { tool, args } && {
            &&& tool@ == "bash"@
            &&& args.model().member("cmd"@) == Some(JsonModel::Text(cmd))
        },
        refused is Rest,
{
    crate::llm::law_the_last_words_of_the_user(turn.perception.recent@, i);
    crate::decision::law_direct_calls_are_whole(cmd);
}

/// The last word of a turn in which the model wanted nothing but tools, and how long such a turn
/// lasts: it asks six times for an action, and fourteen steps are its longest.
pub proof fn law_a_turn_stops_in_time(states: Seq<Turn>, steps: Seq<TurnStep>)
    requires
        is_turn(states, steps),
    ensures
        steps.len() <= 14,
        times_asked(steps, steps.len() as int) <= 6,
        states[0].direct() is None && states.last().steps == 6 ==> (
        steps.last() matches TurnStep::Say(draft) ==> (draft.payload matches Event::Message(m)
            && m.text@ == "工具调用回合数超限，已停止（请缩小任务或指定更明确的命令）。"@)),
{
    law_of_a_turn(states, steps);
    lemma_holds_at(states, steps, steps.len() - 1);
}

/// Where tools are switched off none is called: a call that the messages ask for is answered as
/// one that was tried too often.
pub proof fn law_switched_off_tools_are_not_called(
    turn: Turn,
    first: TurnStep,
    respond: bool,
    next: TurnStep,
)
    requires
        !turn.tools_enabled,
        turn.starts(first),
        turn.opens(respond, next),
    ensures
        !(first is CallTool),
        !(next is CallTool),
        respond && turn.direct() is Some ==> (next matches TurnStep::Say(draft)
            && draft.topic == turn.perception.topic && draft.conversation_id
            == turn.conversation_id && (draft.payload matches Event::Message(m) && m.text@
            == "工具调用回合数超限，已停止（请缩小任务或指定更明确的命令）。"@)),
        !respond ==> next is Rest,
{
}

/// A turn begins with the question whether to respond, unless the latest message, whoever sent
/// it, asks to load a conversation: then that very conversation is loaded.
pub proof fn law_a_turn_begins_by_asking(turn: Turn, id: Seq<char>, step: TurnStep)
    requires
        turn.starts(step),
        turn.tools_enabled,
    ensures
        turn.perception.recent@.len() == 0 ==> step is AskWhether,
        turn.perception.recent@.len() > 0 && !crate::text::begins(
            turn.perception.recent@.last().payload.text@,
            "!conv_load "@,
        ) ==> step is AskWhether,
        turn.perception.recent@.len() > 0 && turn.perception.recent@.last().payload.text@
            == "!conv_load "@ + id ==> {
            &&& step matches TurnStep::CallTool { tool, args }
            &&& tool@ == "conv_load"@
            &&& args.model().member("conversation_id"@) == Some(JsonModel::Text(id))
        },
{
    crate::decision::law_direct_calls_are_whole(id);
}

/// Once the agent is to respond and no call is asked for, the model is asked with all that was
/// said and all that the tools said.
pub proof fn law_a_model_is_asked_with_everything(turn: Turn, step: TurnStep)
    requires
        turn.opens(true, step),
        turn.direct() is None,
    ensures
        step matches TurnStep::Generate(prompt) && {
            let souls: int = if crate::text::blank(turn.perception.soul@) { 0 } else { 1 };
            &&& prompt@.len() == 2 + souls + turn.perception.recent@.len() + turn.trace@.len()
            &&& forall|i: int|
                0 <= i < turn.perception.recent@.len() ==> crate::text::occurs(
                    prompt@[1 + souls + i].content@,
                    (#[trigger] turn.perception.recent@[i]).payload.text@,
                )
            &&& forall|i: int|
                0 <= i < turn.trace@.len() ==> (#[trigger] turn.trace@[i])@ == prompt@[prompt@.len()
                    - 1 - turn.trace@.len() + i]@
        },
{
    if let TurnStep::Generate(prompt) = step {
        law_a_prompt_holds_everything(turn.perception, turn.trace@, prompt@);
        let said = turn.perception.recent@;
        let souls: int = if crate::text::blank(turn.perception.soul@) { 0 } else { 1 };
        assert forall|i: int| 0 <= i < said.len() implies crate::text::occurs(
            prompt@[1 + souls + i].content@,
            (#[trigger] said[i]).payload.text@,
        ) by {
            let text = said[i].payload.text@;
            let whole = prompt@[1 + souls + i].content@;
            let front = whole.take(whole.len() - text.len());
            assert(whole =~= front + text + Seq::empty());
            crate::text::law_parts_occur(front, text, Seq::empty());
        }
    }
}

} // verus!
