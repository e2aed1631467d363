//! The daemon: how it is started, and what it answers its clients.

use vstd::prelude::*;
use vstd::string::*;
use crate::bus::Draft;
use crate::common::{
    hashed, AgentId, Command, Envelope, Event, Message, Sender, SystemNotification, Topic,
};
use crate::conversation::{hex8, ConversationId};
use crate::ipc::{ClientRequest, ServerMessage};
use crate::names::{lemma_ordered_once, lemma_sorted_holds, ordered, sorted, NameSet};
use crate::orchestrator::CoreState;
use crate::path::said;
use crate::text::{same, texts};

verus! {

/// What the command line of the daemon says.
#[derive(Debug)]
pub struct DaemonArgs {
    pub config: String,
    pub socket: Option<String>,
    pub no_fs_watch: bool,
}

/// What the command line of the daemon says.
#[verifier::ext_equal]
pub struct DaemonOptions {
    pub config: Seq<char>,
    pub socket: Option<Seq<char>>,
    pub no_fs_watch: bool,
}

impl View for DaemonArgs {
    type V = DaemonOptions;

    open spec fn view(&self) -> DaemonOptions {
        DaemonOptions {
            config: self.config@,
            socket: said(self.socket),
            no_fs_watch: self.no_fs_watch,
        }
    }
}

impl DaemonOptions {
    /// What holds where the command line says nothing.
    pub open spec fn usual() -> DaemonOptions {
        DaemonOptions {
            config: "/etc/unicos/config.toml"@,
            socket: None,
            no_fs_watch: false,
        }
    }

    /// What holds after `args`, read from left to right. Words that are not known change
    /// nothing, and neither does an option without its value.
    pub open spec fn after(self, args: Seq<Seq<char>>) -> DaemonOptions
        decreases args.len(),
    {
        if args.len() == 0 {
            self
        } else if args[0] == "--config"@ {
            if args.len() == 1 {
                self
            } else {
                (DaemonOptions { config: args[1], ..self }).after(args.skip(2))
            }
        } else if args[0] == "--socket"@ {
            if args.len() == 1 {
                self
            } else {
                (DaemonOptions { socket: Some(args[1]), ..self }).after(args.skip(2))
            }
        } else if args[0] == "--no-fs-watch"@ {
            (DaemonOptions { no_fs_watch: true, ..self }).after(args.skip(1))
        } else {
            self.after(args.skip(1))
        }
    }
}

/// What the command line of the daemon says, without the name of the program.
pub fn parse_args(args: &Vec<String>) -> (r: DaemonArgs)
    ensures
        r@ == DaemonOptions::usual().after(texts(args@)),
{
    let mut out = DaemonArgs {
        config: "/etc/unicos/config.toml".to_owned(),
        socket: None,
        no_fs_watch: false,
    };
    let ghost all = texts(args@);
    let mut i: usize = 0;
    assert(all.skip(0) =~= all);
    while i < args.len()
        invariant
            i <= args.len(),
            all == texts(args@),
            out@.after(all.skip(i as int)) == DaemonOptions::usual().after(all),
        decreases args.len() - i,
    {
        let ghost rest = all.skip(i as int);
        assert(rest[0] == args@[i as int]@);
        assert(rest.skip(1) =~= all.skip(i + 1));
        let a = args[i].as_str();
        let config = same(a, "--config");
        if config || same(a, "--socket") {
            if i + 1 == args.len() {
                return out;
            }
            assert(rest[1] == args@[i + 1]@);
            assert(rest.skip(2) =~= all.skip(i + 2));
            if config {
                out.config = args[i + 1].clone();
            } else {
                out.socket = Some(args[i + 1].clone());
            }
            i += 2;
        } else {
            if same(a, "--no-fs-watch") {
                out.no_fs_watch = true;
            }
            i += 1;
        }
    }
    out
}

impl DaemonArgs {
    /// Where the daemon listens: where the command line says, or else the setup.
    pub fn socket_path(&self, configured: &str) -> (r: String)
        ensures
            r@ == match self@.socket {
                Some(s) => s,
                None => configured@,
            },
    {
        match &self.socket {
            Some(s) => s.clone(),
            None => configured.to_owned(),
        }
    }
}

/// Which agents run, after `event` was heard.
pub open spec fn indexed(agents: Set<Seq<char>>, event: Event) -> Set<Seq<char>> {
    match event {
        Event::SystemNotification(SystemNotification::AgentSpawned { id }) => agents.insert(id@),
        Event::SystemNotification(SystemNotification::AgentKilled { id }) => agents.remove(id@),
        Event::SystemNotification(SystemNotification::AgentPurged { id }) => agents.remove(id@),
        _ => agents,
    }
}

/// The agents that run, as far as the daemon heard of them.
pub struct AgentIndex {
    ids: NameSet,
}

impl View for AgentIndex {
    type V = Set<Seq<char>>;

    closed spec fn view(&self) -> Set<Seq<char>> {
        self.ids@
    }
}

/// The names of a list of agents.
pub open spec fn agent_names(ids: Seq<AgentId>) -> Seq<Seq<char>> {
    ids.map_values(|id: AgentId| id@)
}

/// What is to be done for a client.
pub enum DaemonStep {
    /// Tell it this.
    Reply(ServerMessage),
    /// Publish this.
    Publish(Draft),
}

/// Whether `step` is what `request` calls for, where `agents` run.
pub open spec fn serves(agents: Set<Seq<char>>, request: ClientRequest, step: DaemonStep) -> bool {
    match request {
        ClientRequest::Ping => step == DaemonStep::Reply(ServerMessage::Pong),
        ClientRequest::ListAgents => {
            &&& step matches DaemonStep::Reply(ServerMessage::Agents { ids })
            &&& agent_names(ids@) == sorted(agents)
        },
        ClientRequest::Publish { topic, text, sender, conversation_id } => {
            step == DaemonStep::Publish(
                Draft {
                    topic,
                    sender,
                    conversation_id,
                    payload: Event::Message(Message { text }),
                },
            )
        },
        ClientRequest::Command { cmd } => {
            &&& step matches DaemonStep::Publish(draft)
            &&& draft.topic@ == "#system"@
            &&& draft.sender == Sender::UserSudo
            &&& draft.conversation_id@ == hex8(0)
            &&& draft.payload == Event::Command(cmd)
        },
    }
}

impl AgentIndex {
    /// The names are kept in order.
    pub closed spec fn wf(&self) -> bool {
        self.ids.wf()
    }

    /// No agents.
    pub fn new() -> (r: AgentIndex)
        ensures
            r.wf(),
            r@ == Set::<Seq<char>>::empty(),
    {
        AgentIndex { ids: NameSet::new() }
    }

    /// Only finitely many agents run.
    pub proof fn law_index_is_finite(&self)
        requires
            self.wf(),
        ensures
            self@.finite(),
    {
        self.ids.lemma_finite();
    }

    /// Takes note of an event.
    pub fn on_event(&mut self, event: &Event)
        requires
            old(self).wf(),
        ensures
            final(self).wf(),
            final(self)@ == indexed(old(self)@, *event),
    {
        match event {
            Event::SystemNotification(n) => match n {
                SystemNotification::AgentSpawned { id } => self.ids.insert(id.as_str()),
                SystemNotification::AgentKilled { id } => self.ids.remove(id.as_str()),
                SystemNotification::AgentPurged { id } => self.ids.remove(id.as_str()),
                _ => {},
            },
            _ => {},
        }
    }

    /// The agents that run, in alphabetical order.
    pub fn agents(&self) -> (r: Vec<AgentId>)
        requires
            self.wf(),
        ensures
            agent_names(r@) == sorted(self@),
            ordered(agent_names(r@)),
            agent_names(r@).no_duplicates(),
            agent_names(r@).to_set() == self@,
    {
        proof {
            self.law_index_is_finite();
            lemma_sorted_holds(self@);
            lemma_ordered_once(sorted(self@));
        }
        let names = self.ids.to_vec();
        let mut out: Vec<AgentId> = Vec::new();
        let mut i: usize = 0;
        while i < names.len()
            invariant
                i <= names.len(),
                out.len() == i,
                forall|j: int| 0 <= j < i ==> #[trigger] out@[j]@ == names@[j]@,
            decreases names.len() - i,
        {
            out.push(AgentId::new(names[i].as_str()));
            i += 1;
        }
        assert(agent_names(out@) =~= texts(names@));
        out
    }

    /// What is to be done for a client that asks this.
    pub fn handle_request(&self, request: ClientRequest) -> (step: DaemonStep)
        requires
            self.wf(),
        ensures
            serves(self@, request, step),
            step matches DaemonStep::Reply(ServerMessage::Agents { ids }) ==> {
                &&& ordered(agent_names(ids@))
                &&& agent_names(ids@).no_duplicates()
                &&& agent_names(ids@).to_set() == self@
            },
    {
        match request {
            ClientRequest::Ping => DaemonStep::Reply(ServerMessage::Pong),
            ClientRequest::ListAgents => DaemonStep::Reply(
                ServerMessage::Agents { ids: self.agents() },
            ),
            ClientRequest::Publish { topic, text, sender, conversation_id } => DaemonStep::Publish(
                Draft {
                    topic,
                    sender,
                    conversation_id,
                    payload: Event::Message(Message { text }),
                },
            ),
            ClientRequest::Command { cmd } => {
                proof {
                    reveal_strlit("system");
                    reveal_strlit("#system");
                    assert(hashed("system"@) =~= "#system"@);
                }
                DaemonStep::Publish(
                    Draft {
                        topic: Topic::new("system"),
                        sender: Sender::UserSudo,
                        conversation_id: ConversationId::default(),
                        payload: Event::Command(cmd),
                    },
                )
            },
        }
    }
}

/// What a client is told whose request could not be understood, for the reason `why`.
pub fn bad_request(why: &str) -> (r: ServerMessage)
    ensures
        r matches ServerMessage::Error { message } && message@ == "bad request: "@ + why@,
{
    ServerMessage::Error { message: "bad request: ".to_owned().concat(why) }
}

/// Who hears of every agent that is let run, stopped or purged knows which agents run.
pub proof fn law_index_follows_the_agents<H>(
    state: CoreState<H>,
    agents: Set<Seq<char>>,
    id: AgentId,
    handle: H,
    now: u128,
)
    requires
        agents == state.running.dom(),
    ensures
        indexed(agents, Event::SystemNotification(SystemNotification::AgentSpawned { id }))
            == state.running.insert(id@, handle).dom(),
        indexed(agents, Event::SystemNotification(SystemNotification::AgentKilled { id }))
            == state.without(id@).running.dom(),
        state.confirmable(id@, now) ==> indexed(
            agents,
            Event::SystemNotification(SystemNotification::AgentPurged { id }),
        ) == state.purging(id@, true, now).running.dom(),
{
}

/// An option that is given twice has the value that comes last.
pub proof fn law_last_option_wins(options: DaemonOptions, first: Seq<char>, second: Seq<char>)
    ensures
        options.after(seq!["--config"@, first, "--config"@, second]) == options.after(
            seq!["--config"@, second],
        ),
        options.after(seq!["--socket"@, first, "--socket"@, second]) == options.after(
            seq!["--socket"@, second],
        ),
{
    let none = Seq::<Seq<char>>::empty();
    let c = seq!["--config"@, first, "--config"@, second];
    assert(c.skip(2) =~= seq!["--config"@, second]);
    assert(seq!["--config"@, second].skip(2) =~= none);
    reveal_strlit("--config");
    reveal_strlit("--socket");
    assert("--config"@[2] != "--socket"@[2]);
    let s = seq!["--socket"@, first, "--socket"@, second];
    assert(s.skip(2) =~= seq!["--socket"@, second]);
    assert(seq!["--socket"@, second].skip(2) =~= none);
    reveal_with_fuel(DaemonOptions::after, 3);
}

/// A command that a client sends reaches the bus as a word of the user, and so is obeyed.
pub proof fn law_commands_of_clients_are_the_users(
    agents: Set<Seq<char>>,
    cmd: Command,
    step: DaemonStep,
    env: Envelope<Event>,
)
    requires
        serves(agents, ClientRequest::Command { cmd }, step),
        step matches DaemonStep::Publish(draft) && draft.sealed_in(env),
    ensures
        env.sender == Sender::UserSudo,
        env.payload == Event::Command(cmd),
{
}

/// What a client says reaches the bus as a message, whoever it says that it is: it is never
/// taken for a command.
pub proof fn law_words_of_clients_are_no_commands(
    agents: Set<Seq<char>>,
    topic: Topic,
    text: String,
    sender: Sender,
    conversation_id: ConversationId,
    step: DaemonStep,
    env: Envelope<Event>,
)
    requires
        serves(agents, ClientRequest::Publish { topic, text, sender, conversation_id }, step),
        step matches DaemonStep::Publish(draft) && draft.sealed_in(env),
    ensures
        env.payload == Event::Message(Message { text }),
        env.topic == topic,
        env.sender == sender,
        env.conversation_id == conversation_id,
{
}

/// The command line is read from left to right: an option takes effect with the word behind it,
/// whatever follows, and a word that is no option changes nothing.
pub proof fn law_the_command_line_is_read_word_by_word(
    options: DaemonOptions,
    value: Seq<char>,
    word: Seq<char>,
    rest: Seq<Seq<char>>,
)
    requires
        word != "--config"@,
        word != "--socket"@,
        word != "--no-fs-watch"@,
    ensures
        options.after(seq!["--config"@, value] + rest) == (DaemonOptions {
            config: value,
            socket: options.socket,
            no_fs_watch: options.no_fs_watch,
        }).after(rest),
        options.after(seq!["--socket"@, value] + rest) == (DaemonOptions {
            config: options.config,
            socket: Some(value),
            no_fs_watch: options.no_fs_watch,
        }).after(rest),
        options.after(seq!["--no-fs-watch"@] + rest) == (DaemonOptions {
            config: options.config,
            socket: options.socket,
            no_fs_watch: true,
        }).after(rest),
        options.after(seq![word] + rest) == options.after(rest),
        options.after(Seq::empty()) == options,
{
    reveal_strlit("--config");
    reveal_strlit("--socket");
    reveal_strlit("--no-fs-watch");
    assert("--config"@[2] != "--socket"@[2]);
    assert("--no-fs-watch"@.len() != "--config"@.len() && "--no-fs-watch"@.len()
        != "--socket"@.len());
    assert((seq!["--config"@, value] + rest).skip(2) =~= rest);
    assert((seq!["--socket"@, value] + rest).skip(2) =~= rest);
    assert((seq!["--no-fs-watch"@] + rest).skip(1) =~= rest);
    assert((seq![word] + rest).skip(1) =~= rest);
}

/// A daemon that is told nothing on its command line reads the usual setup, watches the files,
/// and listens where the setup says; where it is told, it listens there.
pub proof fn law_the_command_line_comes_before_the_setup(
    args: Vec<String>,
    read: DaemonArgs,
    configured: &str,
    path: String,
)
    requires
        call_ensures(parse_args, (&args,), read),
        call_ensures(DaemonArgs::socket_path, (&read, configured), path),
    ensures
        args@.len() == 0 ==> {
            &&& read.config@ == "/etc/unicos/config.toml"@
            &&& !read.no_fs_watch
            &&& path@ == configured@
        },
        args@.len() == 2 && args@[0]@ == "--socket"@ ==> path@ == args@[1]@,
{
    let all = texts(args@);
    assert(all.len() == args@.len());
    if args@.len() == 2 && args@[0]@ == "--socket"@ {
        let none = Seq::<Seq<char>>::empty();
        assert(all =~= seq!["--socket"@, args@[1]@] + none);
        reveal_strlit("--config");
        reveal_strlit("--socket");
        reveal_strlit("--no-fs-watch");
        reveal_strlit("");
        assert(""@.len() == 0);
        law_the_command_line_is_read_word_by_word(
            DaemonOptions::usual(),
            args@[1]@,
            ""@,
            none,
        );
    }
}

/// The daemon lists the agents of whose start it heard, and no longer those of whose end it
/// heard; nothing else changes the list for an agent.
pub proof fn law_the_list_of_agents_is_kept_up(
    agents: Set<Seq<char>>,
    event: Event,
    name: Seq<char>,
)
    ensures
        (event matches Event::SystemNotification(SystemNotification::AgentSpawned { id }) && id@
            == name) ==> indexed(agents, event).contains(name),
        (event matches Event::SystemNotification(SystemNotification::AgentKilled { id }) && id@
            == name) ==> !indexed(agents, event).contains(name),
        (event matches Event::SystemNotification(SystemNotification::AgentPurged { id }) && id@
            == name) ==> !indexed(agents, event).contains(name),
        !(event matches Event::SystemNotification(SystemNotification::AgentSpawned { id }) && id@
            == name) && !(event matches Event::SystemNotification(
            SystemNotification::AgentKilled { id },
        ) && id@ == name) && !(event matches Event::SystemNotification(
            SystemNotification::AgentPurged { id },
        ) && id@ == name) ==> indexed(agents, event).contains(name) == agents.contains(name),
{
}

/// A client that asks for the agents is told every agent that runs, once, in alphabetical order,
/// and no other; one that asks whether the daemon is there is told so.
pub proof fn law_clients_are_told_who_runs(
    agents: Set<Seq<char>>,
    request: ClientRequest,
    step: DaemonStep,
    name: Seq<char>,
)
    requires
        agents.finite(),
        serves(agents, request, step),
    ensures
        request is Ping ==> step == DaemonStep::Reply(ServerMessage::Pong),
        request is ListAgents ==> {
            &&& step matches DaemonStep::Reply(ServerMessage::Agents { ids })
            &&& agents.contains(name) <==> exists|i: int|
                0 <= i < ids@.len() && (#[trigger] ids@[i])@ == name
            &&& forall|i: int, j: int|
                0 <= i < j < ids@.len() ==> crate::names::less(
                    (#[trigger] ids@[i])@,
                    (#[trigger] ids@[j])@,
                )
        },
{
    if request is ListAgents {
        lemma_sorted_holds(agents);
        if let DaemonStep::Reply(ServerMessage::Agents { ids }) = step {
            let names = agent_names(ids@);
            assert(names.len() == ids@.len());
            assert forall|i: int| 0 <= i < ids@.len() implies names[i] == (#[trigger] ids@[i])@ by {}
            if agents.contains(name) {
                assert(names.to_set().contains(name));
                let i = choose|i: int| 0 <= i < names.len() && names[i] == name;
                assert(ids@[i]@ == name);
            }
            if exists|i: int| 0 <= i < ids@.len() && (#[trigger] ids@[i])@ == name {
                let i = choose|i: int| 0 <= i < ids@.len() && (#[trigger] ids@[i])@ == name;
                assert(names[i] == name);
                assert(names.to_set().contains(name));
            }
            assert forall|i: int, j: int| 0 <= i < j < ids@.len() implies crate::names::less(
                (#[trigger] ids@[i])@,
                (#[trigger] ids@[j])@,
            ) by {
                assert(crate::names::less(names[i], names[j]));
            }
        }
    }
}

/// A request that could not be understood is answered with the reason, in full.
pub proof fn law_bad_requests_are_told_why(why: &str, answer: ServerMessage)
    requires
        call_ensures(bad_request, (why,), answer),
    ensures
        answer matches ServerMessage::Error { message } && message@ == "bad request: "@ + why@,
{
}

} // verus!
