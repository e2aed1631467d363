//! The heart of the system: which agents run, and what becomes of commands.

use vstd::prelude::*;
use vstd::string::*;
use crate::agent::{
    follows, law_a_new_agent_listens_to_its_topics, AgentConfig, AgentRuntime, AgentState, AgentStep,
};
use crate::bus::{Bus, Draft};
use crate::common::{
    dm_pair, hashed, AgentId, Command, Envelope, Event, Sender, SystemNotification, Topic,
    UnicError, DM_PREFIX,
};
use crate::config::{choose_provider, chooses, Config, ProviderChoice};
use crate::name_map::NameMap;
use crate::path::{child_of, inside, join_path, name_in, said};
use crate::text::{begins, contains, occurs, same, texts};

verus! {

/// Where everything that happens is written down.
#[derive(Debug)]
pub struct GodLogger {
    pub path: String,
}

impl GodLogger {
    /// A logger that writes to `path`.
    pub fn new(path: String) -> (r: GodLogger)
        ensures
            r.path == path,
    {
        GodLogger { path }
    }
}

/// The agents that run, each with the handle by which it is stopped.
pub struct AgentRegistry<H> {
    agents: NameMap<H>,
}

impl<H> View for AgentRegistry<H> {
    type V = Map<Seq<char>, H>;

    closed spec fn view(&self) -> Map<Seq<char>, H> {
        self.agents@
    }
}

impl<H> AgentRegistry<H> {
    /// No agent stands twice.
    pub closed spec fn wf(&self) -> bool {
        self.agents.wf()
    }

    /// No agents.
    pub fn new() -> (r: AgentRegistry<H>)
        ensures
            r.wf(),
            r@ == Map::<Seq<char>, H>::empty(),
    {
        AgentRegistry { agents: NameMap::new() }
    }

    /// Whether the agent runs.
    pub fn contains(&self, id: &AgentId) -> (r: bool)
        requires
            self.wf(),
        ensures
            r == self@.contains_key(id@),
    {
        self.agents.contains(id.as_str())
    }

    /// Notes that the agent runs.
    pub fn insert(&mut self, id: &AgentId, handle: H)
        requires
            old(self).wf(),
        ensures
            final(self).wf(),
            final(self)@ == old(self)@.insert(id@, handle),
    {
        self.agents.insert(id.as_str(), handle);
    }

    /// Notes that the agent no longer runs.
    pub fn remove(&mut self, id: &AgentId) -> (r: Option<H>)
        requires
            old(self).wf(),
        ensures
            final(self).wf(),
            final(self)@ == old(self)@.remove(id@),
            match r {
                Some(h) => old(self)@.contains_key(id@) && old(self)@[id@] == h,
                None => !old(self)@.contains_key(id@),
            },
    {
        self.agents.remove(id.as_str())
    }

    /// The agents that run.
    pub fn iter_ids(&self) -> (r: Vec<AgentId>)
        requires
            self.wf(),
        ensures
            r@.map_values(|id: AgentId| id@).no_duplicates(),
            r@.map_values(|id: AgentId| id@).to_set() == self@.dom(),
    {
        let names = self.agents.names();
        let mut out: Vec<AgentId> = Vec::new();
        let mut i: usize = 0;
        while i < names.len()
            invariant
                i <= names.len(),
                out.len() == i,
                forall|j: int| 0 <= j < i ==> #[trigger] out@[j]@ == names@[j]@,
            decreases names.len() - i,
        {
            out.push(AgentId::new(names[i].as_str()));
            i += 1;
        }
        assert(out@.map_values(|id: AgentId| id@) =~= texts(names@));
        out
    }
}

/// What is written into the directory of an agent about its setup.
#[derive(Debug)]
pub struct AgentDiskConfig {
    pub id: String,
    pub topics: Vec<String>,
    pub perception_window: usize,
    pub tools_enabled: bool,
}

/// The soul that an agent is given at first.
pub open spec fn first_soul(id: Seq<char>) -> Seq<char> {
    "# "@ + id + "\n\nYou are "@ + id + ", an agent running inside UnicOS.\n\nRules:\n- Keep replies concise.\n- When the user says \"Ping\" (case-insensitive), reply exactly with \"Pong\" and nothing else.\n"@
}

/// The soul that an agent is given at first.
pub fn default_soul(id: &AgentId) -> (r: String)
    ensures
        r@ == first_soul(id@),
{
    "# ".to_owned().concat(id.as_str()).concat("\n\nYou are ").concat(id.as_str()).concat(
        ", an agent running inside UnicOS.\n\nRules:\n- Keep replies concise.\n- When the user says \"Ping\" (case-insensitive), reply exactly with \"Pong\" and nothing else.\n",
    )
}

/// What is to be done before an agent runs: its directory is made, and in it the files that
/// are not there yet.
#[derive(Debug)]
pub struct SpawnPlan {
    pub agent: AgentConfig,
    pub soul_path: String,
    pub soul: String,
    pub config_path: String,
    pub disk_config: AgentDiskConfig,
}

/// Whether `plan` is how the agent `id` is set up.
pub open spec fn plans(cfg: Config, id: Seq<char>, plan: SpawnPlan) -> bool {
    let dir = inside(cfg.paths.unics_dir@, id);
    &&& plan.agent.id@ == id
    &&& plan.agent.topics@.map_values(|t: Topic| t@) == cfg.agent.default_topics@.map_values(
        |t: String| hashed(t@),
    )
    &&& plan.agent.perception_window == cfg.agent.perception_window
    &&& plan.agent.soul_dir@ == dir
    &&& plan.agent.tools_enabled == cfg.agent.tools_enabled
    &&& plan.soul_path@ == inside(dir, "soul.md"@)
    &&& plan.soul@ == first_soul(id)
    &&& plan.config_path@ == inside(dir, "config.json"@)
    &&& plan.disk_config.id@ == id
    &&& texts(plan.disk_config.topics@) == texts(cfg.agent.default_topics@)
    &&& plan.disk_config.perception_window == cfg.agent.perception_window
    &&& plan.disk_config.tools_enabled == cfg.agent.tools_enabled
}

/// What became of looking at a file, or of removing a directory.
#[derive(Debug)]
pub enum Looked {
    /// It was there.
    There,
    /// It was not there.
    Missing,
    /// This went wrong.
    Failed(String),
}

/// Whether a file of an agent is to be written: only where there is none yet, so that what
/// was written there before is never lost.
pub fn needs_writing(looked: Looked) -> (r: Result<bool, UnicError>)
    ensures
        match looked {
            Looked::There => r == Ok::<bool, UnicError>(false),
            Looked::Missing => r == Ok::<bool, UnicError>(true),
            Looked::Failed(e) => r == Err::<bool, UnicError>(UnicError::Io(e)),
        },
{
    match looked {
        Looked::There => Ok(false),
        Looked::Missing => Ok(true),
        Looked::Failed(e) => Err(UnicError::Io(e)),
    }
}

/// Whether a purge may be told of: the directory of the agent is gone, or was not there.
pub fn is_gone(removed: Looked) -> (r: Result<(), UnicError>)
    ensures
        match removed {
            Looked::Failed(e) => r == Err::<(), UnicError>(UnicError::Io(e)),
            _ => r == Ok::<(), UnicError>(()),
        },
{
    match removed {
        Looked::Failed(e) => Err(UnicError::Io(e)),
        _ => Ok(()),
    }
}

/// How an agent ended.
#[derive(Debug)]
pub enum AgentExitKind {
    Finished,
    Cancelled,
    Panicked(String),
}

/// That an agent ended.
#[derive(Debug)]
pub struct AgentExit {
    pub id: AgentId,
    pub kind: AgentExitKind,
}

/// What happened to files.
#[derive(Debug)]
pub struct FsEvent {
    pub kind: String,
    pub paths: Vec<String>,
}

/// What a change of files calls for.
#[derive(Debug)]
pub enum FsStep {
    Ignore,
    Spawn(AgentId),
    Kill(AgentId),
}

/// Whether `step` is what a change of the kind `kind` calls for, where `name` is the name of
/// what changed in the directory of the agents: what appears there runs, and what disappears
/// is stopped.
pub open spec fn fs_calls_for(kind: Seq<char>, name: Option<Seq<char>>, step: FsStep) -> bool {
    match name {
        Some(n) => if occurs(kind, "Create"@) {
            step matches FsStep::Spawn(id) && id@ == n
        } else if occurs(kind, "Remove"@) {
            step matches FsStep::Kill(id) && id@ == n
        } else {
            step is Ignore
        },
        None => step is Ignore,
    }
}

/// What a change of the kind `kind` calls for.
pub fn fs_step(kind: &str, name: Option<String>) -> (r: FsStep)
    ensures
        fs_calls_for(kind@, said(name), r),
{
    match name {
        Some(n) => if contains(kind, "Create") {
            FsStep::Spawn(AgentId::new(n.as_str()))
        } else if contains(kind, "Remove") {
            FsStep::Kill(AgentId::new(n.as_str()))
        } else {
            FsStep::Ignore
        },
        None => FsStep::Ignore,
    }
}

/// How long a purge may be confirmed after it was asked for, in nanoseconds.
pub const PURGE_TTL: u128 = 30_000_000_000;

/// Which agents run, and which purges were asked for, and when.
#[verifier::ext_equal]
pub struct CoreState<H> {
    pub running: Map<Seq<char>, H>,
    pub pending: Map<Seq<char>, u128>,
}

impl<H> CoreState<H> {
    /// The agent `id` no longer runs.
    pub open spec fn without(self, id: Seq<char>) -> CoreState<H> {
        CoreState { running: self.running.remove(id), ..self }
    }

    /// Whether a purge of `id` takes place when it is confirmed now: it was asked for, and not
    /// too long ago.
    pub open spec fn confirmable(self, id: Seq<char>, now: u128) -> bool {
        self.pending.contains_key(id) && now - self.pending[id] <= PURGE_TTL
    }

    /// What a request for a purge, or its confirmation, leads to.
    pub open spec fn purging(self, id: Seq<char>, confirm: bool, now: u128) -> CoreState<H> {
        if !confirm {
            CoreState { pending: self.pending.insert(id, now), ..self }
        } else if self.confirmable(id, now) {
            CoreState { running: self.running.remove(id), pending: self.pending.remove(id) }
        } else {
            CoreState { pending: self.pending.remove(id), ..self }
        }
    }
}

/// What a command calls for.
pub enum CoreStep<H> {
    /// Nothing.
    Nothing,
    /// Set an agent up, and let it run.
    Spawn(SpawnPlan),
    /// Stop an agent, and publish this.
    Kill { handle: H, notice: Draft },
    /// Stop the agent, if it runs, and publish that; remove its directory; publish that.
    Purge { killed: Option<(H, Draft)>, soul_dir: String, notice: Draft },
    /// Publish this.
    Publish(Draft),
}

/// Whether `topic` can be joined by `id`: only the two sides of a topic of direct messages
/// can join it.
pub open spec fn may_join(id: Seq<char>, topic: Seq<char>) -> bool {
    begins(topic, DM_PREFIX@) ==> match dm_pair(topic) {
        Some((a, b)) => id == a || id == b,
        None => false,
    }
}

/// What becomes of the state on a command of the user.
pub open spec fn commanded<H>(state: CoreState<H>, cmd: Command, now: u128) -> CoreState<H> {
    match cmd {
        Command::Kill { id } => state.without(id@),
        Command::Purge { id, confirm } => state.purging(id@, confirm, now),
        _ => state,
    }
}

/// That an agent was stopped.
pub open spec fn tells_killed(notice: Draft, id: AgentId) -> bool {
    notice.announces(Event::SystemNotification(SystemNotification::AgentKilled { id }))
}

/// Whether `step` stops `id`, where it runs, and does nothing otherwise.
pub open spec fn stops<H>(state: CoreState<H>, id: AgentId, step: CoreStep<H>) -> bool {
    if state.running.contains_key(id@) {
        &&& step matches CoreStep::Kill { handle, notice }
        &&& handle == state.running[id@]
        &&& tells_killed(notice, id)
    } else {
        step is Nothing
    }
}

/// Whether `step` is what a request for a purge, or its confirmation, calls for.
pub open spec fn purges<H>(
    cfg: Config,
    state: CoreState<H>,
    id: AgentId,
    confirm: bool,
    now: u128,
    step: CoreStep<H>,
) -> bool {
    if confirm && state.confirmable(id@, now) {
        &&& step matches CoreStep::Purge { killed, soul_dir, notice }
        &&& match killed {
            Some((handle, told)) => {
                &&& state.running.contains_key(id@)
                &&& handle == state.running[id@]
                &&& tells_killed(told, id)
            },
            None => !state.running.contains_key(id@),
        }
        &&& soul_dir@ == inside(cfg.paths.unics_dir@, id@)
        &&& notice.announces(
            Event::SystemNotification(SystemNotification::AgentPurged { id }),
        )
    } else {
        step is Nothing
    }
}

/// Whether `step` is what a command of the user calls for.
pub open spec fn obeys<H>(
    cfg: Config,
    state: CoreState<H>,
    cmd: Command,
    now: u128,
    step: CoreStep<H>,
) -> bool {
    match cmd {
        Command::Spawn { id } => if state.running.contains_key(id@) {
            step is Nothing
        } else {
            step matches CoreStep::Spawn(plan) && plans(cfg, id@, plan)
        },
        Command::Kill { id } => stops(state, id, step),
        Command::Purge { id, confirm } => purges(cfg, state, id, confirm, now, step),
        Command::JoinTopic { id, topic } => if may_join(id@, topic@) {
            step matches CoreStep::Publish(draft) && draft.announces(Event::Command(cmd))
        } else {
            step is Nothing
        },
        Command::Sleep { .. } => {
            step matches CoreStep::Publish(draft) && draft.announces(Event::Command(cmd))
        },
        Command::Wake { .. } => {
            step matches CoreStep::Publish(draft) && draft.announces(Event::Command(cmd))
        },
        Command::SetUserTopic { .. } => step is Nothing,
    }
}

/// Whether `step` is what an event on the bus calls for, and `after` the state then: the commands
/// of the user are obeyed, and nothing else.
pub open spec fn heeds<H>(
    cfg: Config,
    before: CoreState<H>,
    env: Envelope<Event>,
    now: u128,
    after: CoreState<H>,
    step: CoreStep<H>,
) -> bool {
    match env.payload {
        Event::Command(cmd) if env.sender == Sender::UserSudo => {
            &&& after == commanded(before, cmd, now)
            &&& obeys(cfg, before, cmd, now, step)
        },
        _ => after == before && step is Nothing,
    }
}

/// Whether `notice` is what is published when an agent was let run with this handle, and `after`
/// the state then.
pub open spec fn notes_spawn<H>(
    before: CoreState<H>,
    id: AgentId,
    handle: H,
    after: CoreState<H>,
    notice: Draft,
) -> bool {
    &&& after == (CoreState { running: before.running.insert(id@, handle), ..before })
    &&& notice.announces(Event::SystemNotification(SystemNotification::AgentSpawned { id }))
}

/// Whether `notice` is what is published when an agent ended, and `after` the state then, where
/// `stopping` is whether the whole system is being stopped.
pub open spec fn notes_exit<H>(
    before: CoreState<H>,
    exit: AgentExit,
    stopping: bool,
    after: CoreState<H>,
    notice: Option<Draft>,
) -> bool {
    if stopping || !before.running.contains_key(exit.id@) {
        after == before && notice is None
    } else {
        &&& after == before.without(exit.id@)
        &&& notice matches Some(draft)
        &&& match exit.kind {
            AgentExitKind::Panicked(message) => draft.announces(
                Event::SystemNotification(
                    SystemNotification::AgentPanicked { id: exit.id, message },
                ),
            ),
            _ => tells_killed(draft, exit.id),
        }
    }
}

/// The heart of the system. `H` is the handle by which an agent is stopped.
pub struct Orchestrator<H> {
    pub cfg: Config,
    pub bus: Bus,
    pub provider: ProviderChoice,
    pub registry: AgentRegistry<H>,
    pub pending_purge: NameMap<u128>,
}

impl<H> View for Orchestrator<H> {
    type V = CoreState<H>;

    open spec fn view(&self) -> CoreState<H> {
        CoreState { running: self.registry@, pending: self.pending_purge@ }
    }
}

impl<H> Orchestrator<H> {
    /// No agent and no request stands twice.
    pub open spec fn wf(&self) -> bool {
        self.registry.wf() && self.pending_purge.wf()
    }

    /// Everything but which agents run and which purges were asked for is as in `other`.
    pub open spec fn same_setting(&self, other: &Orchestrator<H>) -> bool {
        self.cfg == other.cfg && self.bus == other.bus && self.provider == other.provider
    }

    /// A system without agents.
    pub fn new(cfg: Config) -> (r: Orchestrator<H>)
        requires
            0 < cfg.bus.capacity <= usize::MAX / 512,
        ensures
            r.wf(),
            r.cfg == cfg,
            r.bus.capacity() == cfg.bus.capacity,
            chooses(cfg.llm, r.provider),
            r@ == (CoreState { running: Map::<Seq<char>, H>::empty(), pending: Map::empty() }),
    {
        let bus = Bus::new(cfg.bus.capacity);
        let provider = choose_provider(&cfg.llm);
        Orchestrator {
            cfg,
            bus,
            provider,
            registry: AgentRegistry::new(),
            pending_purge: NameMap::new(),
        }
    }

    /// The bus.
    pub fn bus(&self) -> (r: Bus)
        ensures
            r == self.bus,
    {
        self.bus.clone()
    }

    /// The logger of everything that happens.
    pub fn god_logger(&self) -> (r: GodLogger)
        ensures
            r.path@ == self.cfg.paths.god_log@,
    {
        GodLogger::new(self.cfg.paths.god_log.clone())
    }

    /// The directory of an agent.
    fn soul_dir(&self, id: &AgentId) -> (r: String)
        ensures
            r@ == inside(self.cfg.paths.unics_dir@, id@),
    {
        join_path(self.cfg.paths.unics_dir.as_str(), id.as_str())
    }

    /// What is to be done so that the agent runs, if it does not run yet.
    pub fn spawn_agent(&self, id: &AgentId) -> (r: Option<SpawnPlan>)
        requires
            self.wf(),
        ensures
            match r {
                Some(plan) => !self@.running.contains_key(id@) && plans(self.cfg, id@, plan),
                None => self@.running.contains_key(id@),
            },
    {
        if self.registry.contains(id) {
            return None;
        }
        let soul_dir = self.soul_dir(id);
        let mut topics: Vec<Topic> = Vec::new();
        let mut names: Vec<String> = Vec::new();
        let mut i: usize = 0;
        while i < self.cfg.agent.default_topics.len()
            invariant
                i <= self.cfg.agent.default_topics.len(),
                topics.len() == i,
                names.len() == i,
                forall|j: int|
                    0 <= j < i ==> #[trigger] topics@[j]@ == hashed(
                        self.cfg.agent.default_topics@[j]@,
                    ),
                forall|j: int|
                    0 <= j < i ==> #[trigger] names@[j]@ == self.cfg.agent.default_topics@[j]@,
            decreases self.cfg.agent.default_topics.len() - i,
        {
            let t = self.cfg.agent.default_topics[i].as_str();
            topics.push(Topic::new(t));
            names.push(t.to_owned());
            i += 1;
        }
        assert(topics@.map_values(|t: Topic| t@) =~= self.cfg.agent.default_topics@.map_values(
            |t: String| hashed(t@),
        ));
        assert(texts(names@) =~= texts(self.cfg.agent.default_topics@));
        Some(
            SpawnPlan {
                soul_path: join_path(soul_dir.as_str(), "soul.md"),
                soul: default_soul(id),
                config_path: join_path(soul_dir.as_str(), "config.json"),
                disk_config: AgentDiskConfig {
                    id: id.to_string(),
                    topics: names,
                    perception_window: self.cfg.agent.perception_window,
                    tools_enabled: self.cfg.agent.tools_enabled,
                },
                agent: AgentConfig {
                    id: id.clone(),
                    topics,
                    perception_window: self.cfg.agent.perception_window,
                    soul_dir,
                    tools_enabled: self.cfg.agent.tools_enabled,
                },
            },
        )
    }

    /// Notes that the agent runs now, and says what is to be published about it.
    pub fn spawned(&mut self, id: AgentId, handle: H) -> (notice: Draft)
        requires
            old(self).wf(),
        ensures
            final(self).wf(),
            final(self).same_setting(old(self)),
            notes_spawn(old(self)@, id, handle, final(self)@, notice),
    {
        self.registry.insert(&id, handle);
        Draft::announcement(Event::SystemNotification(SystemNotification::AgentSpawned { id }))
    }

    /// What is to be done for an entry of the directory of the agents at the start: every
    /// directory there stands for an agent.
    pub fn bootstrap_from_fs(&self, name: &str, is_dir: bool) -> (r: Option<SpawnPlan>)
        requires
            self.wf(),
        ensures
            match r {
                Some(plan) => {
                    &&& is_dir
                    &&& !self@.running.contains_key(name@)
                    &&& plans(self.cfg, name@, plan)
                },
                None => !is_dir || self@.running.contains_key(name@),
            },
    {
        if is_dir {
            self.spawn_agent(&AgentId::new(name))
        } else {
            None
        }
    }

    /// Notes that the agent no longer runs, and says how to stop it, if it ran.
    pub fn kill_agent(&mut self, id: AgentId) -> (step: CoreStep<H>)
        requires
            old(self).wf(),
        ensures
            final(self).wf(),
            final(self).same_setting(old(self)),
            final(self)@ == old(self)@.without(id@),
            stops(old(self)@, id, step),
    {
        match self.registry.remove(&id) {
            Some(handle) => CoreStep::Kill {
                handle,
                notice: Draft::announcement(
                    Event::SystemNotification(SystemNotification::AgentKilled { id }),
                ),
            },
            None => CoreStep::Nothing,
        }
    }

    /// A request to purge the agent, or its confirmation, at the moment `now` of a clock that
    /// never goes back, in nanoseconds.
    pub fn purge_agent(&mut self, id: AgentId, confirm: bool, now: u128) -> (step: CoreStep<H>)
        requires
            old(self).wf(),
        ensures
            final(self).wf(),
            final(self).same_setting(old(self)),
            final(self)@ == old(self)@.purging(id@, confirm, now),
            purges(old(self).cfg, old(self)@, id, confirm, now, step),
    {
        if !confirm {
            self.pending_purge.insert(id.as_str(), now);
            return CoreStep::Nothing;
        }
        let in_time = match self.pending_purge.remove(id.as_str()) {
            Some(asked) => now <= asked || now - asked <= PURGE_TTL,
            None => false,
        };
        if !in_time {
            return CoreStep::Nothing;
        }
        let killed = match self.registry.remove(&id) {
            Some(handle) => Some(
                (
                    handle,
                    Draft::announcement(
                        Event::SystemNotification(
                            SystemNotification::AgentKilled { id: id.clone() },
                        ),
                    ),
                ),
            ),
            None => None,
        };
        let soul_dir = self.soul_dir(&id);
        CoreStep::Purge {
            killed,
            soul_dir,
            notice: Draft::announcement(
                Event::SystemNotification(SystemNotification::AgentPurged { id }),
            ),
        }
    }

    /// Obeys a command of the user.
    pub fn handle_command(&mut self, cmd: Command, now: u128) -> (step: CoreStep<H>)
        requires
            old(self).wf(),
        ensures
            final(self).wf(),
            final(self).same_setting(old(self)),
            final(self)@ == commanded(old(self)@, cmd, now),
            obeys(old(self).cfg, old(self)@, cmd, now, step),
    {
        match cmd {
            Command::Spawn { id } => match self.spawn_agent(&id) {
                Some(plan) => CoreStep::Spawn(plan),
                None => CoreStep::Nothing,
            },
            Command::Kill { id } => self.kill_agent(id),
            Command::Purge { id, confirm } => self.purge_agent(id, confirm, now),
            Command::JoinTopic { id, topic } => {
                if topic.is_dm() {
                    let allowed = match topic.dm_participants() {
                        Some((a, b)) => same(id.as_str(), a) || same(id.as_str(), b),
                        None => false,
                    };
                    if !allowed {
                        return CoreStep::Nothing;
                    }
                }
                CoreStep::Publish(
                    Draft::announcement(Event::Command(Command::JoinTopic { id, topic })),
                )
            },
            Command::Sleep { id } => CoreStep::Publish(
                Draft::announcement(Event::Command(Command::Sleep { id })),
            ),
            Command::Wake { id } => CoreStep::Publish(
                Draft::announcement(Event::Command(Command::Wake { id })),
            ),
            Command::SetUserTopic { .. } => CoreStep::Nothing,
        }
    }

    /// What an event on the bus calls for: the commands of the user are obeyed, and nothing
    /// else.
    pub fn on_event(&mut self, env: Envelope<Event>, now: u128) -> (step: CoreStep<H>)
        requires
            old(self).wf(),
        ensures
            final(self).wf(),
            final(self).same_setting(old(self)),
            heeds(old(self).cfg, old(self)@, env, now, final(self)@, step),
    {
        match env.payload {
            Event::Command(cmd) => {
                if env.sender.is_user() {
                    self.handle_command(cmd, now)
                } else {
                    CoreStep::Nothing
                }
            },
            _ => CoreStep::Nothing,
        }
    }

    /// What is to be published when an agent ended, where `stopping` is whether the whole
    /// system is being stopped.
    pub fn on_exit(&mut self, exit: AgentExit, stopping: bool) -> (notice: Option<Draft>)
        requires
            old(self).wf(),
        ensures
            final(self).wf(),
            final(self).same_setting(old(self)),
            notes_exit(old(self)@, exit, stopping, final(self)@, notice),
    {
        if stopping {
            return None;
        }
        let AgentExit { id, kind } = exit;
        match self.registry.remove(&id) {
            Some(_) => match kind {
                AgentExitKind::Panicked(message) => Some(
                    Draft::announcement(
                        Event::SystemNotification(
                            SystemNotification::AgentPanicked { id, message },
                        ),
                    ),
                ),
                _ => Some(
                    Draft::announcement(
                        Event::SystemNotification(SystemNotification::AgentKilled { id }),
                    ),
                ),
            },
            None => {
                assert(self@ =~= old(self)@);
                None
            },
        }
    }

    /// What a change of files calls for, path by path.
    pub fn on_fs_event(&self, event: &FsEvent) -> (r: Vec<FsStep>)
        ensures
            r@.len() == event.paths@.len(),
            forall|i: int|
                0 <= i < r@.len() ==> fs_calls_for(
                    event.kind@,
                    child_of(self.cfg.paths.unics_dir@, event.paths@[i]@),
                    #[trigger] r@[i],
                ),
    {
        let mut out: Vec<FsStep> = Vec::new();
        let mut i: usize = 0;
        while i < event.paths.len()
            invariant
                i <= event.paths.len(),
                out.len() == i,
                forall|j: int|
                    0 <= j < i ==> fs_calls_for(
                        event.kind@,
                        child_of(self.cfg.paths.unics_dir@, event.paths@[j]@),
                        #[trigger] out@[j],
                    ),
            decreases event.paths.len() - i,
        {
            let name = name_in(self.cfg.paths.unics_dir.as_str(), event.paths[i].as_str());
            out.push(fs_step(event.kind.as_str(), name));
            i += 1;
        }
        out
    }
}

/// A purge that was not asked for does not take place, however often it is confirmed.
pub proof fn law_purge_needs_a_request<H>(state: CoreState<H>, id: Seq<char>, now: u128)
    requires
        !state.pending.contains_key(id),
    ensures
        state.purging(id, true, now) == state,
{
    assert(state.pending.remove(id) =~= state.pending);
}

/// A purge that is asked for and confirmed in time takes place; the request is used up by it.
pub proof fn law_purge_in_two_steps<H>(state: CoreState<H>, id: Seq<char>, asked: u128, now: u128)
    requires
        now - asked <= PURGE_TTL,
    ensures
        state.purging(id, false, asked).running == state.running,
        state.purging(id, false, asked).confirmable(id, now),
        state.purging(id, false, asked).purging(id, true, now).running == state.running.remove(id),
        !state.purging(id, false, asked).purging(id, true, now).pending.contains_key(id),
{
}

/// A purge that is confirmed too late does not take place, and has to be asked for again.
pub proof fn law_late_confirmation_is_void<H>(
    state: CoreState<H>,
    id: Seq<char>,
    asked: u128,
    now: u128,
    later: u128,
)
    requires
        now - asked > PURGE_TTL,
    ensures
        state.purging(id, false, asked).purging(id, true, now).running == state.running,
        !state.purging(id, false, asked).purging(id, true, now).confirmable(id, later),
{
}

/// Asking for the purge of one agent lets no other agent be purged.
pub proof fn law_purges_do_not_mix<H>(
    state: CoreState<H>,
    id: Seq<char>,
    other: Seq<char>,
    asked: u128,
    now: u128,
)
    requires
        id != other,
    ensures
        state.purging(id, false, asked).confirmable(other, now) == state.confirmable(other, now),
        state.purging(id, true, asked).confirmable(other, now) == state.confirmable(other, now),
        state.purging(id, true, asked).running.contains_key(other) == state.running.contains_key(
            other,
        ),
{
}

/// The topic of the direct messages between two sides can be joined by these two, and by
/// nobody else.
pub proof fn law_dm_is_for_its_sides(a: Seq<char>, b: Seq<char>, id: Seq<char>)
    requires
        a.len() > 0,
        b.len() > 0,
        !a.contains(':'),
    ensures
        may_join(id, crate::common::dm_name(a, b)) <==> (id == a || id == b),
{
    crate::common::law_dm_gives_its_sides_back(a, b);
}

/// The agent that a command is about, where it is about one.
pub open spec fn about(cmd: Command) -> Option<Seq<char>> {
    match cmd {
        Command::Spawn { id } => Some(id@),
        Command::Kill { id } => Some(id@),
        Command::Purge { id, .. } => Some(id@),
        Command::JoinTopic { id, .. } => Some(id@),
        Command::Sleep { id } => Some(id@),
        Command::Wake { id } => Some(id@),
        Command::SetUserTopic { .. } => None,
    }
}

/// A command changes nothing for the agents that it is not about.
pub proof fn law_commands_touch_only_their_agent<H>(
    state: CoreState<H>,
    cmd: Command,
    now: u128,
    other: Seq<char>,
)
    requires
        about(cmd) != Some(other),
    ensures
        ({
            let after = commanded(state, cmd, now);
            &&& after.running.contains_key(other) == state.running.contains_key(other)
            &&& after.running.contains_key(other) ==> after.running[other] == state.running[other]
            &&& after.pending.contains_key(other) == state.pending.contains_key(other)
            &&& after.pending.contains_key(other) ==> after.pending[other] == state.pending[other]
        }),
{
}

/// An agent that was stopped can be let run again, and one that runs is stopped by its handle.
pub proof fn law_spawning_undoes_killing<H>(state: CoreState<H>, id: Seq<char>, handle: H)
    ensures
        !state.without(id).running.contains_key(id),
        state.without(id).running.insert(id, handle)[id] == handle,
        state.running.contains_key(id) ==> state.without(id).running.insert(id, state.running[id])
            == state.running,
{
    if state.running.contains_key(id) {
        assert(state.without(id).running.insert(id, state.running[id]) =~= state.running);
    }
}

/// An agent reads the soul that it was given, from the directory that bears its name.
pub proof fn law_an_agent_reads_its_own_soul(cfg: Config, id: Seq<char>, plan: SpawnPlan)
    requires
        plans(cfg, id, plan),
    ensures
        inside(plan.agent.soul_dir@, "soul.md"@) == plan.soul_path@,
        plan.agent.soul_dir@ == inside(cfg.paths.unics_dir@, id),
{
}

/// A spawned agent listens to every default topic of the setup, and to no other; its file lists
/// the same topics, each at its place.
pub proof fn law_a_spawned_agent_listens_to_the_default_topics(
    cfg: Config,
    id: Seq<char>,
    plan: SpawnPlan,
    agent: AgentRuntime,
    i: int,
    topic: Topic,
)
    requires
        plans(cfg, id, plan),
        call_ensures(AgentRuntime::new, (plan.agent,), agent),
        0 <= i < cfg.agent.default_topics@.len(),
        topic@ == hashed(cfg.agent.default_topics@[i]@),
    ensures
        agent@.topics.contains(topic@),
        plan.agent.topics@[i]@ == topic@,
        plan.disk_config.topics@[i]@ == cfg.agent.default_topics@[i]@,
        plan.agent.topics@.len() == cfg.agent.default_topics@.len(),
        plan.agent.topics@.len() == plan.disk_config.topics@.len(),
        agent@.id == id,
        cfg.agent.perception_window > 0 ==> agent@.window == cfg.agent.perception_window,
{
    law_a_new_agent_listens_to_its_topics(plan.agent, agent, topic@);
    let named = plan.agent.topics@.map_values(|t: Topic| t@);
    let wanted = cfg.agent.default_topics@.map_values(|t: String| hashed(t@));
    assert(named.len() == plan.agent.topics@.len());
    assert(wanted.len() == cfg.agent.default_topics@.len());
    assert(texts(plan.disk_config.topics@).len() == plan.disk_config.topics@.len());
    assert(texts(cfg.agent.default_topics@).len() == cfg.agent.default_topics@.len());
    assert(named[i] == plan.agent.topics@[i]@);
    assert(wanted[i] == hashed(cfg.agent.default_topics@[i]@));
    assert(texts(plan.disk_config.topics@)[i] == plan.disk_config.topics@[i]@);
    assert(texts(cfg.agent.default_topics@)[i] == cfg.agent.default_topics@[i]@);
}

/// The plan for an agent that does not run yet lets it listen to each default topic: there is one
/// topic for each, and it is the topic that is made of its name.
pub proof fn law_spawning_plans_every_topic<H>(
    core: Orchestrator<H>,
    id: AgentId,
    plan: Option<SpawnPlan>,
    i: int,
    name: &str,
    topic: Topic,
)
    requires
        call_ensures(Orchestrator::<H>::spawn_agent, (&core, &id), plan),
        call_ensures(Topic::new, (name,), topic),
        0 <= i < core.cfg.agent.default_topics@.len(),
        name@ == core.cfg.agent.default_topics@[i]@,
    ensures
        plan is Some <==> !core@.running.contains_key(id@),
        plan matches Some(p) ==> {
            &&& p.agent.topics@.len() == core.cfg.agent.default_topics@.len()
            &&& p.agent.topics@[i]@ == topic@
            &&& p.agent.id@ == id@
        },
{
    if let Some(p) = plan {
        let named = p.agent.topics@.map_values(|t: Topic| t@);
        let wanted = core.cfg.agent.default_topics@.map_values(|t: String| hashed(t@));
        assert(named.len() == p.agent.topics@.len());
        assert(wanted.len() == core.cfg.agent.default_topics@.len());
        assert(named[i] == p.agent.topics@[i]@);
        assert(wanted[i] == hashed(core.cfg.agent.default_topics@[i]@));
    }
}

/// An agent is run as its file says: under the same name, with as wide a memory, and with tools
/// or without, all as the setup says. Its files lie in the directory that bears its name.
pub proof fn law_an_agent_runs_as_its_file_says(cfg: Config, id: Seq<char>, plan: SpawnPlan)
    requires
        plans(cfg, id, plan),
    ensures
        plan.agent.id@ == plan.disk_config.id@,
        plan.agent.id@ == id,
        plan.agent.perception_window == plan.disk_config.perception_window,
        plan.agent.perception_window == cfg.agent.perception_window,
        plan.agent.tools_enabled == plan.disk_config.tools_enabled,
        plan.agent.tools_enabled == cfg.agent.tools_enabled,
        plan.config_path@ == inside(plan.agent.soul_dir@, "config.json"@),
        plan.soul_path@ == inside(plan.agent.soul_dir@, "soul.md"@),
        begins(plan.soul@, "# "@ + id),
        occurs(plan.soul@, "\n\nYou are "@ + id + ", an agent running inside UnicOS."@),
        occurs(plan.soul@, "reply exactly with \"Pong\" and nothing else."@),
{
    let told = ", an agent running inside UnicOS.\n\nRules:\n- Keep replies concise.\n- When the user says \"Ping\" (case-insensitive), reply exactly with \"Pong\" and nothing else.\n";
    let front = "# "@ + id;
    let soul = first_soul(id);
    reveal_strlit(
        ", an agent running inside UnicOS.\n\nRules:\n- Keep replies concise.\n- When the user says \"Ping\" (case-insensitive), reply exactly with \"Pong\" and nothing else.\n",
    );
    reveal_strlit(", an agent running inside UnicOS.");
    reveal_strlit("reply exactly with \"Pong\" and nothing else.");
    let name = ", an agent running inside UnicOS."@;
    let rule = "reply exactly with \"Pong\" and nothing else."@;
    let k = name.len() as int;
    assert(told@.take(k) =~= name);
    crate::text::law_parts_occur(Seq::empty(), front, soul.skip(front.len() as int));
    assert(front + soul.skip(front.len() as int) =~= soul);
    let middle = "\n\nYou are "@ + id + name;
    crate::text::law_parts_occur(front, middle, told@.skip(k));
    assert(front + middle + told@.skip(k) =~= soul);
    let at = told@.len() - 1 - rule.len();
    assert(told@.subrange(at, told@.len() - 1) =~= rule);
    let before = front + "\n\nYou are "@ + id + told@.take(at);
    crate::text::law_parts_occur(before, rule, told@.skip(told@.len() - 1));
    assert(before + rule + told@.skip(told@.len() - 1) =~= soul);
}

/// A topic that is not one of direct messages can be joined by every agent.
pub proof fn law_open_topics_are_open(id: Seq<char>, topic: Seq<char>)
    requires
        topic.len() < 4 || topic[0] != '#' || topic[1] != 'd' || topic[2] != 'm' || topic[3] != ':',
    ensures
        may_join(id, topic),
{
    reveal_strlit("#dm:");
    if begins(topic, DM_PREFIX@) {
        assert(topic.take(4)[0] == topic[0] && topic.take(4)[1] == topic[1] && topic.take(4)[2]
            == topic[2] && topic.take(4)[3] == topic[3]);
    }
}

/// Only the user commands. What anyone else says or orders changes nothing, and so does what the
/// user says that is no command.
pub proof fn law_only_the_user_commands<H>(
    cfg: Config,
    before: CoreState<H>,
    env: Envelope<Event>,
    now: u128,
    after: CoreState<H>,
    step: CoreStep<H>,
)
    requires
        heeds(cfg, before, env, now, after, step),
        env.sender != Sender::UserSudo || !(env.payload is Command),
    ensures
        after == before,
        step is Nothing,
{
}

/// What the user orders is done: an agent that does not run is let run, one that runs is stopped
/// by its own handle, and nothing is done twice. What is for the agent itself is passed on as it
/// was ordered.
pub proof fn law_the_user_is_obeyed<H>(
    cfg: Config,
    before: CoreState<H>,
    env: Envelope<Event>,
    cmd: Command,
    now: u128,
    after: CoreState<H>,
    step: CoreStep<H>,
)
    requires
        heeds(cfg, before, env, now, after, step),
        env.sender == Sender::UserSudo,
        env.payload == Event::Command(cmd),
    ensures
        match cmd {
            Command::Spawn { id } => {
                &&& after == before
                &&& before.running.contains_key(id@) ==> step is Nothing
                &&& !before.running.contains_key(id@) ==> (step matches CoreStep::Spawn(plan)
                    && plan.agent.id@ == id@)
            },
            Command::Kill { id } => {
                &&& !after.running.contains_key(id@)
                &&& after.pending == before.pending
                &&& before.running.contains_key(id@) ==> {
                    &&& step matches CoreStep::Kill { handle, notice }
                    &&& handle == before.running[id@]
                    &&& notice.topic@ == "#system"@
                    &&& notice.payload == Event::SystemNotification(
                        SystemNotification::AgentKilled { id },
                    )
                }
                &&& !before.running.contains_key(id@) ==> step is Nothing
            },
            Command::Purge { id, confirm } => {
                &&& !confirm ==> step is Nothing && after.running == before.running
                    && after.pending.contains_key(id@) && after.pending[id@] == now
                &&& confirm ==> !after.pending.contains_key(id@)
                &&& confirm && !before.pending.contains_key(id@) ==> step is Nothing
                    && after.running == before.running
                &&& confirm && before.pending.contains_key(id@) && now - before.pending[id@]
                    <= 30_000_000_000 ==> {
                    &&& !after.running.contains_key(id@)
                    &&& step matches CoreStep::Purge { killed, soul_dir, notice }
                    &&& soul_dir@ == inside(cfg.paths.unics_dir@, id@)
                    &&& killed is Some <==> before.running.contains_key(id@)
                    &&& killed is Some ==> (killed->0).0 == before.running[id@]
                        && (killed->0).1.payload == Event::SystemNotification(
                        SystemNotification::AgentKilled { id },
                    )
                    &&& notice.topic@ == "#system"@
                    &&& notice.payload == Event::SystemNotification(
                        SystemNotification::AgentPurged { id },
                    )
                }
                &&& confirm && before.pending.contains_key(id@) && now - before.pending[id@]
                    > 30_000_000_000 ==> step is Nothing && after.running == before.running
            },
            Command::Sleep { .. } => {
                &&& after == before
                &&& step matches CoreStep::Publish(draft)
                &&& draft.payload == Event::Command(cmd)
                &&& draft.topic@ == "#system"@
                &&& draft.sender == Sender::System
            },
            Command::Wake { .. } => {
                &&& after == before
                &&& step matches CoreStep::Publish(draft)
                &&& draft.payload == Event::Command(cmd)
                &&& draft.topic@ == "#system"@
                &&& draft.sender == Sender::System
            },
            Command::JoinTopic { id, topic } => {
                &&& after == before
                &&& may_join(id@, topic@) ==> {
                    &&& step matches CoreStep::Publish(draft)
                    &&& draft.payload == Event::Command(cmd)
                    &&& draft.topic@ == "#system"@
                    &&& draft.sender == Sender::System
                }
                &&& !may_join(id@, topic@) ==> step is Nothing
            },
            Command::SetUserTopic { .. } => after == before && step is Nothing,
        },
{
}

/// An agent falls asleep, wakes up or joins a topic when the user orders it: the order that is
/// passed on, once it is on the bus, changes just this agent.
pub proof fn law_orders_reach_their_agent<H>(
    cfg: Config,
    core: CoreState<H>,
    env: Envelope<Event>,
    cmd: Command,
    now: u128,
    later: CoreState<H>,
    draft: Draft,
    passed: Envelope<Event>,
    before: AgentState,
    me: AgentId,
    after: AgentState,
    step: AgentStep,
)
    requires
        heeds(cfg, core, env, now, later, CoreStep::Publish(draft)),
        env.sender == Sender::UserSudo,
        env.payload == Event::Command(cmd),
        draft.sealed_in(passed),
        me@ == before.id,
        follows(before, me, passed, after, step),
    ensures
        (cmd matches Command::Sleep { id } && id@ == me@) ==> after.sleeping,
        (cmd matches Command::Wake { id } && id@ == me@) ==> !after.sleeping,
        (cmd matches Command::JoinTopic { id, topic } && id@ == me@) ==> after.topics.contains(
            cmd->JoinTopic_topic@,
        ),
        about(cmd) != Some(me@) ==> after == before,
        after.recent == before.recent,
{
}

/// When an agent ends by itself, all hear of it once, and only that agent is taken off the list:
/// of a panic with all that it said. Nothing is told of an agent that is not on the list, or when
/// everything is stopped.
pub proof fn law_the_end_of_an_agent_is_told<H>(
    before: CoreState<H>,
    exit: AgentExit,
    stopping: bool,
    after: CoreState<H>,
    notice: Option<Draft>,
    other: Seq<char>,
)
    requires
        notes_exit(before, exit, stopping, after, notice),
    ensures
        notice is Some <==> !stopping && before.running.contains_key(exit.id@),
        notice is None ==> after == before,
        after.pending == before.pending,
        other != exit.id@ ==> after.running.contains_key(other) == before.running.contains_key(
            other,
        ),
        other != exit.id@ && before.running.contains_key(other) ==> after.running[other]
            == before.running[other],
        notice matches Some(draft) ==> {
            &&& !after.running.contains_key(exit.id@)
            &&& draft.topic@ == "#system"@
            &&& draft.sender == Sender::System
            &&& match exit.kind {
                AgentExitKind::Panicked(message) => draft.payload == Event::SystemNotification(
                    SystemNotification::AgentPanicked { id: exit.id, message },
                ),
                AgentExitKind::Finished => draft.payload == Event::SystemNotification(
                    SystemNotification::AgentKilled { id: exit.id },
                ),
                AgentExitKind::Cancelled => draft.payload == Event::SystemNotification(
                    SystemNotification::AgentKilled { id: exit.id },
                ),
            }
        },
{
}

/// What appears in the directory of the agents runs under its name, and what disappears is
/// stopped; what happens elsewhere, and all other changes, call for nothing.
pub proof fn law_the_directory_is_followed(
    a: Seq<char>,
    b: Seq<char>,
    kind: Seq<char>,
    name: Option<Seq<char>>,
    step: FsStep,
)
    requires
        fs_calls_for(kind, name, step),
    ensures
        name is None ==> step is Ignore,
        name is Some && kind == a + "Create"@ + b ==> (step matches FsStep::Spawn(id) && id@
            == name->0),
        name is Some && kind == a + "Remove"@ + b && !occurs(kind, "Create"@) ==> (
        step matches FsStep::Kill(id) && id@ == name->0),
        !occurs(kind, "Create"@) && !occurs(kind, "Remove"@) ==> step is Ignore,
{
    crate::text::law_parts_occur(a, "Create"@, b);
    crate::text::law_parts_occur(a, "Remove"@, b);
}

/// What an agent wrote into its files is never lost: a file is written only where there is none,
/// and where that cannot be told nothing is written. A purge that could not remove the directory
/// is an error.
pub proof fn law_files_are_never_written_over(
    looked: Looked,
    write: Result<bool, UnicError>,
    gone: Result<(), UnicError>,
)
    requires
        call_ensures(needs_writing, (looked,), write),
        call_ensures(is_gone, (looked,), gone),
    ensures
        write == Ok::<bool, UnicError>(true) <==> looked is Missing,
        looked is There ==> write == Ok::<bool, UnicError>(false),
        gone is Ok <==> !(looked is Failed),
        looked matches Looked::Failed(e) ==> {
            &&& write == Err::<bool, UnicError>(UnicError::Io(e))
            &&& gone == Err::<(), UnicError>(UnicError::Io(e))
        },
{
}

/// An agent that was let run is on the list, under the handle by which it is stopped, and all
/// hear of it; the other agents and the purges that were asked for stay as they are.
pub proof fn law_an_agent_that_runs_is_listed<H>(
    before: CoreState<H>,
    id: AgentId,
    handle: H,
    after: CoreState<H>,
    notice: Draft,
    other: Seq<char>,
)
    requires
        notes_spawn(before, id, handle, after, notice),
    ensures
        after.running.contains_key(id@),
        after.running[id@] == handle,
        other != id@ ==> after.running.contains_key(other) == before.running.contains_key(other),
        other != id@ && before.running.contains_key(other) ==> after.running[other]
            == before.running[other],
        after.pending == before.pending,
        notice.topic@ == "#system"@,
        notice.sender == Sender::System,
        notice.payload == Event::SystemNotification(SystemNotification::AgentSpawned { id }),
{
}

/// A new system has no agents and no purges that were asked for, is set up as it is told, and
/// writes its log where it is told.
pub proof fn law_a_new_system_is_empty<H>(cfg: Config, made: Orchestrator<H>, logger: GodLogger)
    requires
        call_ensures(Orchestrator::<H>::new, (cfg,), made),
        call_ensures(Orchestrator::<H>::god_logger, (&made,), logger),
    ensures
        made.cfg == cfg,
        made@.running.dom() == Set::<Seq<char>>::empty(),
        made@.pending.dom() == Set::<Seq<char>>::empty(),
        made.bus.capacity() == cfg.bus.capacity,
        logger.path@ == cfg.paths.god_log@,
{
    assert(made@.running.dom() =~= Set::<Seq<char>>::empty());
    assert(made@.pending.dom() =~= Set::<Seq<char>>::empty());
}

/// At the start every directory stands for an agent that is let run under its name, unless it
/// runs already; what is no directory stands for nothing.
pub proof fn law_every_directory_is_an_agent<H>(
    system: Orchestrator<H>,
    name: &str,
    is_dir: bool,
    plan: Option<SpawnPlan>,
)
    requires
        call_ensures(Orchestrator::<H>::bootstrap_from_fs, (&system, name, is_dir), plan),
    ensures
        plan is Some <==> is_dir && !system@.running.contains_key(name@),
        plan matches Some(p) ==> p.agent.id@ == name@ && p.agent.topics@.len()
            == system.cfg.agent.default_topics@.len(),
{
    if let Some(p) = plan {
        assert(p.agent.topics@.map_values(|t: Topic| t@).len() == p.agent.topics@.len());
    }
}

/// Every path of a change is dealt with, each by itself: what appears or disappears directly in
/// the directory of the agents, by its last name, and nothing elsewhere.
pub proof fn law_every_changed_path_is_dealt_with<H>(
    system: Orchestrator<H>,
    event: FsEvent,
    steps: Vec<FsStep>,
    i: int,
    name: Seq<char>,
)
    requires
        call_ensures(Orchestrator::<H>::on_fs_event, (&system, &event), steps),
        0 <= i < event.paths@.len(),
    ensures
        steps@.len() == event.paths@.len(),
        ({
            let up = crate::path::parent(event.paths@[i]@);
            let inside_it = up is Some && crate::path::same_path(
                up->0,
                system.cfg.paths.unics_dir@,
            ) && crate::path::file_name(event.paths@[i]@) == Some(name);
            &&& inside_it && occurs(event.kind@, "Create"@) ==> (steps@[i] matches FsStep::Spawn(id)
                && id@ == name)
            &&& inside_it && !occurs(event.kind@, "Create"@) && occurs(event.kind@, "Remove"@) ==> (
            steps@[i] matches FsStep::Kill(id) && id@ == name)
            &&& up is None ==> steps@[i] is Ignore
            &&& up is Some && !crate::path::same_path(up->0, system.cfg.paths.unics_dir@)
                ==> steps@[i] is Ignore
        }),
{
    assert(fs_calls_for(
        event.kind@,
        child_of(system.cfg.paths.unics_dir@, event.paths@[i]@),
        steps@[i],
    ));
}

/// Nobody joins a topic that looks like one of direct messages but names no two sides.
pub proof fn law_nobody_joins_a_broken_dm_topic(id: Seq<char>, rest: Seq<char>)
    requires
        !rest.contains(':'),
    ensures
        !may_join(id, "#dm:"@ + rest),
{
    reveal_strlit("#dm:");
    let name = "#dm:"@ + rest;
    assert(name.take(4) =~= "#dm:"@);
    assert(name.skip(4) =~= rest);
    assert forall|i: int| 0 <= i < rest.len() implies #[trigger] rest[i] != ':' by {
        assert(rest.contains(rest[i]));
    }
    crate::text::lemma_before_first(rest, ':', rest.len() as int);
}

/// The list of the agents that run holds each of them once, and no other.
pub proof fn law_every_agent_that_runs_is_counted<H>(
    registry: AgentRegistry<H>,
    ids: Vec<AgentId>,
    name: Seq<char>,
)
    requires
        call_ensures(AgentRegistry::<H>::iter_ids, (&registry,), ids),
    ensures
        registry@.contains_key(name) <==> exists|i: int|
            0 <= i < ids@.len() && (#[trigger] ids@[i])@ == name,
        forall|i: int, j: int|
            0 <= i < j < ids@.len() ==> (#[trigger] ids@[i])@ != (#[trigger] ids@[j])@,
{
    let names = ids@.map_values(|id: AgentId| id@);
    assert(names.len() == ids@.len());
    assert forall|i: int| 0 <= i < ids@.len() implies names[i] == (#[trigger] ids@[i])@ by {}
    assert(registry@.contains_key(name) == names.to_set().contains(name));
    if names.contains(name) {
        let i = choose|i: int| 0 <= i < names.len() && names[i] == name;
        assert(ids@[i]@ == name);
    }
    if exists|i: int| 0 <= i < ids@.len() && (#[trigger] ids@[i])@ == name {
        let i = choose|i: int| 0 <= i < ids@.len() && (#[trigger] ids@[i])@ == name;
        assert(names[i] == name);
    }
    assert forall|i: int, j: int| 0 <= i < j < ids@.len() implies (#[trigger] ids@[i])@ != (
    #[trigger] ids@[j])@ by {
        assert(names[i] != names[j]);
    }
}

} // verus!
