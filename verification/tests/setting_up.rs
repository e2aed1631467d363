use unicos::bus::Bus;
use unicos::common::{AgentId, Command, Envelope, Event, Message, Sender, SystemNotification, Topic, UnicError};
use unicos::config::{
    choose_provider, Config, ConfigFile, LlmConfig, ProviderChoice, ResponsesLlmConfig,
};
use unicos::orchestrator::{
    default_soul, fs_step, is_gone, needs_writing, AgentExit, AgentExitKind, AgentRegistry,
    CoreStep, FsEvent, FsStep, GodLogger, Looked, Orchestrator, SpawnPlan,
};
use unicos::path::{join_path, name_in};

const SECOND: u128 = 1_000_000_000;

fn orchestrator() -> Orchestrator<u32> {
    let mut cfg = Config::default();
    cfg.paths.unics_dir = "/tmp/unics".to_string();
    Orchestrator::new(cfg)
}

fn bob() -> AgentId {
    AgentId::new("Bob")
}

fn purge(confirm: bool) -> Command {
    Command::Purge { id: bob(), confirm }
}

#[test]
fn load_default_when_missing() {
    let cfg = Config::load_or_default(ConfigFile::Missing, &None, &None).unwrap();
    assert_eq!(cfg.bus.capacity, 1024);
    assert_eq!(cfg.paths.unics_dir, "/etc/unicos/unics");
    assert_eq!(cfg.paths.god_log, "/var/lib/unicos/god.log");
    assert_eq!(cfg.daemon.socket_path, "/tmp/unicos.sock");
    assert_eq!(cfg.agent.perception_window, 40);
    assert_eq!(cfg.agent.default_topics, ["#general"]);
    assert!(cfg.agent.tools_enabled && cfg.llm.is_none());
}

#[test]
fn load_config_from_file() {
    let content = r##"
[bus]
capacity = 7

[agent]
perception_window = 3
default_topics = ["#general", "#project_x"]
tools_enabled = false
"##;
    let table: toml::Table = content.parse().unwrap();
    let agent = table["agent"].as_table().unwrap();
    let mut read = Config::default();
    read.bus.capacity = table["bus"]["capacity"].as_integer().unwrap() as usize;
    read.agent.perception_window = agent["perception_window"].as_integer().unwrap() as usize;
    read.agent.tools_enabled = agent["tools_enabled"].as_bool().unwrap();
    read.agent.default_topics = agent["default_topics"]
        .as_array()
        .unwrap()
        .iter()
        .map(|t| t.as_str().unwrap().to_string())
        .collect();
    let cfg = Config::load_or_default(ConfigFile::Read(read), &None, &None).unwrap();
    assert_eq!(cfg.bus.capacity, 7);
    assert_eq!(cfg.agent.perception_window, 3);
    assert_eq!(cfg.agent.tools_enabled, false);
    assert_eq!(cfg.agent.default_topics.len(), 2);
}

#[test]
fn env_overrides_paths() {
    let cfg = Config::load_or_default(
        ConfigFile::Read(Config::default()),
        &Some("/tmp/unicos-env-unics".to_string()),
        &Some("/tmp/unicos-env-god.log".to_string()),
    )
    .unwrap();
    assert_eq!(cfg.paths.unics_dir, "/tmp/unicos-env-unics");
    assert_eq!(cfg.paths.god_log, "/tmp/unicos-env-god.log");
}

#[test]
fn blank_variables_override_nothing() {
    let mut cfg = Config::default();
    cfg.apply_env_overrides(&Some(" \t".to_string()), &None);
    assert_eq!(cfg.paths.unics_dir, "/etc/unicos/unics");
    let dir = Some(" /x ".to_string());
    cfg.apply_env_overrides(&dir, &None);
    cfg.apply_env_overrides(&dir, &None);
    assert_eq!(cfg.paths.unics_dir, "/x");
}

#[test]
fn a_setup_that_cannot_be_read_is_an_error() {
    let e = Config::load_or_default(ConfigFile::Unreadable("x".to_string()), &None, &None);
    assert!(matches!(e, Err(UnicError::Io(said)) if said == "x"));
    let e = Config::load_or_default(ConfigFile::Malformed("x".to_string()), &None, &None);
    assert!(matches!(e, Err(UnicError::TomlDe(said)) if said == "x"));
}

#[test]
fn the_provider_is_chosen_by_the_setup() {
    let llm = |provider: &str, responses: Option<ResponsesLlmConfig>| {
        Some(LlmConfig { provider: provider.to_string(), model: "m".to_string(), responses })
    };
    let server = |timeout_ms: Option<u64>, retries: Option<usize>| {
        Some(ResponsesLlmConfig {
            base_url: "u".to_string(),
            api_key_env: "K".to_string(),
            api_key: None,
            timeout_ms,
            retries,
        })
    };
    assert!(matches!(choose_provider(&None), ProviderChoice::Rules));
    assert!(matches!(choose_provider(&llm("responses", None)), ProviderChoice::Rules));
    assert!(matches!(choose_provider(&llm("rules", server(None, None))), ProviderChoice::Rules));
    match choose_provider(&llm("responses", server(None, None))) {
        ProviderChoice::Responses(p) => {
            assert_eq!((p.base_url.as_str(), p.model.as_str()), ("u", "m"));
            assert_eq!((p.timeout_ms, p.max_retries), (60_000, 2));
        }
        other => panic!("unexpected choice {other:?}"),
    }
    match choose_provider(&llm("responses", server(Some(5), Some(8)))) {
        ProviderChoice::Responses(p) => assert_eq!((p.timeout_ms, p.max_retries), (5, 8)),
        other => panic!("unexpected choice {other:?}"),
    }
}

#[test]
fn spawn_creates_default_soul_files() {
    let mut orch = orchestrator();
    let plan: SpawnPlan = orch.spawn_agent(&AgentId::new("Alice")).unwrap();
    assert_eq!(plan.agent.soul_dir, "/tmp/unics/Alice");
    assert_eq!(plan.soul_path, "/tmp/unics/Alice/soul.md");
    assert_eq!(plan.config_path, "/tmp/unics/Alice/config.json");
    assert_eq!(
        plan.soul,
        "# Alice\n\nYou are Alice, an agent running inside UnicOS.\n\nRules:\n- Keep replies \
         concise.\n- When the user says \"Ping\" (case-insensitive), reply exactly with \"Pong\" \
         and nothing else.\n",
    );
    assert_eq!(plan.disk_config.id, "Alice");
    assert_eq!(plan.disk_config.topics, ["#general"]);
    assert_eq!(plan.disk_config.perception_window, 40);
    assert!(plan.disk_config.tools_enabled && plan.agent.tools_enabled);
    assert_eq!(plan.agent.topics, [Topic::new("general")]);

    let notice = orch.spawned(AgentId::new("Alice"), 1);
    assert!(matches!(
        notice.payload,
        Event::SystemNotification(SystemNotification::AgentSpawned { id }) if id.as_str() == "Alice"
    ));
    match orch.kill_agent(AgentId::new("Alice")) {
        CoreStep::Kill { handle, notice } => {
            assert_eq!(handle, 1);
            assert!(matches!(
                notice.payload,
                Event::SystemNotification(SystemNotification::AgentKilled { .. })
            ));
        }
        _ => panic!("the agent ran"),
    }
    assert!(matches!(orch.kill_agent(AgentId::new("Alice")), CoreStep::Nothing));
    assert!(orch.spawn_agent(&AgentId::new("Alice")).is_some());
    let runtime = unicos::agent::AgentRuntime::new(plan.agent);
    assert_eq!(runtime.soul_path(), plan.soul_path);
}

#[test]
fn purge_requires_two_step_confirm() {
    let mut orch = orchestrator();
    assert!(orch.spawn_agent(&bob()).is_some());
    orch.spawned(bob(), 7);

    assert!(matches!(orch.handle_command(purge(true), SECOND), CoreStep::Nothing));
    assert!(orch.registry.contains(&bob()));

    assert!(matches!(orch.handle_command(purge(false), SECOND), CoreStep::Nothing));
    assert!(orch.registry.contains(&bob()));
    match orch.handle_command(purge(true), 2 * SECOND) {
        CoreStep::Purge { killed, soul_dir, notice } => {
            assert_eq!(killed.unwrap().0, 7);
            assert_eq!(soul_dir, "/tmp/unics/Bob");
            assert!(matches!(
                notice.payload,
                Event::SystemNotification(SystemNotification::AgentPurged { .. })
            ));
        }
        _ => panic!("the purge was confirmed"),
    }
    assert!(!orch.registry.contains(&bob()));
    assert!(matches!(orch.handle_command(purge(true), 2 * SECOND), CoreStep::Nothing));
}

#[test]
fn a_late_confirmation_is_void() {
    let mut orch = orchestrator();
    orch.spawned(bob(), 7);
    orch.purge_agent(bob(), false, SECOND);
    assert!(matches!(orch.purge_agent(bob(), true, 31 * SECOND + 1), CoreStep::Nothing));
    assert!(matches!(orch.purge_agent(bob(), true, SECOND), CoreStep::Nothing));
    assert!(orch.registry.contains(&bob()));
    orch.purge_agent(bob(), false, SECOND);
    assert!(matches!(orch.purge_agent(bob(), true, 31 * SECOND), CoreStep::Purge { .. }));
}

#[test]
fn purges_do_not_mix() {
    let mut orch = orchestrator();
    orch.purge_agent(AgentId::new("Alice"), false, 0);
    assert!(matches!(orch.purge_agent(bob(), true, 0), CoreStep::Nothing));
    match orch.purge_agent(AgentId::new("Alice"), true, 0) {
        CoreStep::Purge { killed, .. } => assert!(killed.is_none()),
        _ => panic!("the purge was confirmed"),
    }
}

#[test]
fn a_running_agent_is_not_spawned_again() {
    let mut orch = orchestrator();
    orch.spawned(bob(), 7);
    assert!(orch.spawn_agent(&bob()).is_none());
    assert!(matches!(orch.handle_command(Command::Spawn { id: bob() }, 0), CoreStep::Nothing));
    let other = Command::Spawn { id: AgentId::new("Alice") };
    assert!(matches!(orch.handle_command(other, 0), CoreStep::Spawn(p) if p.agent.id.as_str() == "Alice"));
    assert!(orch.bootstrap_from_fs("Bob", true).is_none());
    assert!(orch.bootstrap_from_fs("Carol", false).is_none());
    assert_eq!(orch.bootstrap_from_fs("Carol", true).unwrap().agent.id.as_str(), "Carol");
    let ids: Vec<String> = orch.registry.iter_ids().iter().map(|id| id.to_string()).collect();
    assert_eq!(ids, ["Bob"]);
}

#[test]
fn direct_messages_are_joined_by_their_sides_only() {
    let mut orch = orchestrator();
    let mut join = |id: &str, topic: Topic| {
        let cmd = Command::JoinTopic { id: AgentId::new(id), topic };
        matches!(
            orch.handle_command(cmd, 0),
            CoreStep::Publish(draft) if matches!(draft.payload, Event::Command(Command::JoinTopic { .. }))
        )
    };
    assert!(join("Bob", Topic::dm("sudo", "Bob")));
    assert!(!join("Alice", Topic::dm("sudo", "Bob")));
    assert!(!join("Alice", Topic::new("#dm:Alice")));
    assert!(join("Alice", Topic::new("general")));
}

#[test]
fn sleep_and_wake_are_passed_on() {
    let mut orch = orchestrator();
    for cmd in [Command::Sleep { id: bob() }, Command::Wake { id: bob() }] {
        match orch.handle_command(cmd, 0) {
            CoreStep::Publish(draft) => {
                assert_eq!((draft.topic.as_str(), draft.sender), ("#system", Sender::System));
            }
            _ => panic!("nothing was passed on"),
        }
    }
    let topic = Topic::new("x");
    assert!(matches!(orch.handle_command(Command::SetUserTopic { topic }, 0), CoreStep::Nothing));
}

#[test]
fn only_the_user_is_obeyed() {
    let mut orch = orchestrator();
    let bus = Bus::new(1);
    let kill = || Event::Command(Command::Kill { id: bob() });
    let envelope = |sender: Sender, payload: Event| -> Envelope<Event> {
        bus.envelope(Topic::new("system"), sender, payload)
    };
    orch.spawned(bob(), 7);
    assert!(matches!(orch.on_event(envelope(Sender::System, kill()), 0), CoreStep::Nothing));
    let alice = Sender::Agent(AgentId::new("Alice"));
    assert!(matches!(orch.on_event(envelope(alice, kill()), 0), CoreStep::Nothing));
    let text = Event::Message(Message { text: "/kill Bob".to_string() });
    assert!(matches!(orch.on_event(envelope(Sender::UserSudo, text), 0), CoreStep::Nothing));
    let step = orch.on_event(envelope(Sender::UserSudo, kill()), 0);
    assert!(matches!(step, CoreStep::Kill { handle: 7, .. }));
}

#[test]
fn the_end_of_an_agent_is_told() {
    let mut orch = orchestrator();
    let exit = |kind: AgentExitKind| AgentExit { id: bob(), kind };
    assert!(orch.on_exit(exit(AgentExitKind::Finished), false).is_none());
    orch.spawned(bob(), 7);
    assert!(orch.on_exit(exit(AgentExitKind::Finished), true).is_none());
    let panicked = exit(AgentExitKind::Panicked("boom".to_string()));
    match orch.on_exit(panicked, false).unwrap().payload {
        Event::SystemNotification(SystemNotification::AgentPanicked { id, message }) => {
            assert_eq!((id.as_str(), message.as_str()), ("Bob", "boom"));
        }
        other => panic!("unexpected event {other:?}"),
    }
    assert!(!orch.registry.contains(&bob()));
    orch.spawned(bob(), 7);
    let told = orch.on_exit(exit(AgentExitKind::Cancelled), false).unwrap();
    assert!(matches!(
        told.payload,
        Event::SystemNotification(SystemNotification::AgentKilled { .. })
    ));
}

#[test]
fn directories_that_appear_run() {
    let orch = orchestrator();
    let event = |kind: &str| FsEvent {
        kind: kind.to_string(),
        paths: vec!["/tmp/unics/Bob".to_string(), "/tmp/unics/Bob/soul.md".to_string()],
    };
    let steps = orch.on_fs_event(&event("Create(Folder)"));
    assert!(matches!(&steps[0], FsStep::Spawn(id) if id.as_str() == "Bob"));
    assert!(matches!(steps[1], FsStep::Ignore));
    let steps = orch.on_fs_event(&event("Remove(Folder)"));
    assert!(matches!(&steps[0], FsStep::Kill(id) if id.as_str() == "Bob"));
    let steps = orch.on_fs_event(&event("Modify(Name(Any))"));
    assert!(matches!(steps[0], FsStep::Ignore));
    assert!(matches!(fs_step("Create(Any)", None), FsStep::Ignore));
}

#[test]
fn paths_are_put_together_and_taken_apart() {
    for (dir, name) in [("/a", "b"), ("/a/", "b"), ("/a", "/b"), ("", "b"), ("a", ""), ("/", "b")] {
        let expected = std::path::Path::new(dir).join(name);
        assert_eq!(join_path(dir, name), expected.to_str().unwrap(), "{dir} {name}");
    }
    assert_eq!(name_in("/a/", "/a/b"), Some("b".to_string()));
    assert_eq!(name_in("/a", "/a//b/"), Some("b".to_string()));
    assert_eq!(name_in("/a", "/a/b/c"), None);
    assert_eq!(name_in("/a", "/"), None);
    assert_eq!(name_in("/a", "/a/.."), None);
}

#[test]
fn everything_is_logged_where_the_setup_says() {
    let orch = orchestrator();
    assert_eq!(orch.god_logger().path, "/var/lib/unicos/god.log");
    assert_eq!(GodLogger::new("/x".to_string()).path, "/x");
    assert_eq!(default_soul(&bob()).lines().next(), Some("# Bob"));
    let mut rx = orch.bus().subscribe();
    orch.bus.publish_draft(unicos::bus::Draft::announcement(Event::Command(purge(true)))).unwrap();
    assert!(matches!(rx.try_recv().unwrap().payload, Event::Command(_)));
}

#[test]
fn a_registry_holds_each_agent_once() {
    let mut reg: AgentRegistry<u32> = AgentRegistry::new();
    reg.insert(&bob(), 1);
    reg.insert(&bob(), 2);
    assert!(reg.contains(&bob()));
    assert_eq!(reg.remove(&bob()), Some(2));
    assert_eq!(reg.remove(&bob()), None);
}

#[test]
fn files_that_are_there_are_left_alone() {
    assert!(matches!(needs_writing(Looked::There), Ok(false)));
    assert!(matches!(needs_writing(Looked::Missing), Ok(true)));
    let failed = || Looked::Failed("x".to_string());
    assert!(matches!(needs_writing(failed()), Err(UnicError::Io(e)) if e == "x"));
    assert!(is_gone(Looked::There).is_ok() && is_gone(Looked::Missing).is_ok());
    assert!(matches!(is_gone(failed()), Err(UnicError::Io(e)) if e == "x"));
}
