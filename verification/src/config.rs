//! How the system is set up.

use vstd::prelude::*;
use vstd::string::*;
use crate::common::UnicError;
use crate::responses::ResponsesProvider;
use crate::text::{blank, same, texts};
use crate::tools::{env_or, env_text};

verus! {

/// Where things are kept.
#[derive(Clone, Debug)]
pub struct PathsConfig {
    pub unics_dir: String,
    pub god_log: String,
}

impl Default for PathsConfig {
    fn default() -> (r: PathsConfig)
        ensures
            r.unics_dir@ == "/etc/unicos/unics"@,
            r.god_log@ == "/var/lib/unicos/god.log"@,
    {
        PathsConfig {
            unics_dir: "/etc/unicos/unics".to_owned(),
            god_log: "/var/lib/unicos/god.log".to_owned(),
        }
    }
}

/// How wide the bus is.
#[derive(Clone, Debug)]
pub struct BusConfig {
    pub capacity: usize,
}

impl Default for BusConfig {
    fn default() -> (r: BusConfig)
        ensures
            r.capacity == 1024,
    {
        BusConfig { capacity: 1024 }
    }
}

/// Where the daemon listens.
#[derive(Clone, Debug)]
pub struct DaemonConfig {
    pub socket_path: String,
}

impl Default for DaemonConfig {
    fn default() -> (r: DaemonConfig)
        ensures
            r.socket_path@ == "/tmp/unicos.sock"@,
    {
        DaemonConfig { socket_path: "/tmp/unicos.sock".to_owned() }
    }
}

/// How agents are set up.
#[derive(Clone, Debug)]
pub struct AgentDefaults {
    pub perception_window: usize,
    pub default_topics: Vec<String>,
    pub tools_enabled: bool,
}

impl Default for AgentDefaults {
    fn default() -> (r: AgentDefaults)
        ensures
            r.perception_window == 40,
            texts(r.default_topics@) == seq!["#general"@],
            r.tools_enabled,
    {
        let mut default_topics: Vec<String> = Vec::new();
        default_topics.push("#general".to_owned());
        assert(texts(default_topics@) =~= seq!["#general"@]);
        AgentDefaults { perception_window: 40, default_topics, tools_enabled: true }
    }
}

/// How a `/responses` server is reached.
#[derive(Clone, Debug)]
pub struct ResponsesLlmConfig {
    pub base_url: String,
    pub api_key_env: String,
    pub api_key: Option<String>,
    pub timeout_ms: Option<u64>,
    pub retries: Option<usize>,
}

/// Which language model is used.
#[derive(Clone, Debug)]
pub struct LlmConfig {
    pub provider: String,
    pub model: String,
    pub responses: Option<ResponsesLlmConfig>,
}

/// How the system is set up.
#[derive(Clone, Debug)]
pub struct Config {
    pub paths: PathsConfig,
    pub bus: BusConfig,
    pub agent: AgentDefaults,
    pub llm: Option<LlmConfig>,
    pub daemon: DaemonConfig,
}

impl Config {
    /// Whether this is, but for the paths, the setup that holds where nothing else is said.
    pub open spec fn built_in_but_paths(self) -> bool {
        &&& self.bus.capacity == 1024
        &&& self.agent.perception_window == 40
        &&& texts(self.agent.default_topics@) == seq!["#general"@]
        &&& self.agent.tools_enabled
        &&& self.llm is None
        &&& self.daemon.socket_path@ == "/tmp/unicos.sock"@
    }
}

impl Default for Config {
    fn default() -> (r: Config)
        ensures
            r.built_in_but_paths(),
            r.paths.unics_dir@ == "/etc/unicos/unics"@,
            r.paths.god_log@ == "/var/lib/unicos/god.log"@,
    {
        Config {
            paths: PathsConfig::default(),
            bus: BusConfig::default(),
            agent: AgentDefaults::default(),
            llm: None,
            daemon: DaemonConfig::default(),
        }
    }
}

/// What became of reading the file of the setup.
#[derive(Debug)]
pub enum ConfigFile {
    /// It says this.
    Read(Config),
    /// There is none.
    Missing,
    /// It could not be read, for this reason.
    Unreadable(String),
    /// It could not be understood, for this reason.
    Malformed(String),
}

impl Config {
    /// Everything but the paths is as in `other`.
    pub open spec fn same_but_paths(self, other: Config) -> bool {
        &&& self.bus == other.bus
        &&& self.agent == other.agent
        &&& self.llm == other.llm
        &&& self.daemon == other.daemon
    }

    /// The paths that the environment names take the place of those of the setup.
    pub fn apply_env_overrides(&mut self, unics_dir: &Option<String>, god_log: &Option<String>)
        ensures
            final(self).same_but_paths(*old(self)),
            final(self).paths.unics_dir@ == env_or(*unics_dir, old(self).paths.unics_dir@),
            final(self).paths.god_log@ == env_or(*god_log, old(self).paths.god_log@),
    {
        self.paths.unics_dir = env_text(unics_dir, self.paths.unics_dir.as_str());
        self.paths.god_log = env_text(god_log, self.paths.god_log.as_str());
    }

    /// The setup that a file gives, or the built-in one where there is no file, with the
    /// paths that the environment names.
    pub fn load_or_default(
        file: ConfigFile,
        unics_dir: &Option<String>,
        god_log: &Option<String>,
    ) -> (r: Result<Config, UnicError>)
        ensures
            match file {
                ConfigFile::Read(cfg) => {
                    &&& r matches Ok(got)
                    &&& got.same_but_paths(cfg)
                    &&& got.paths.unics_dir@ == env_or(*unics_dir, cfg.paths.unics_dir@)
                    &&& got.paths.god_log@ == env_or(*god_log, cfg.paths.god_log@)
                },
                ConfigFile::Missing => {
                    &&& r matches Ok(got)
                    &&& got.built_in_but_paths()
                    &&& got.paths.unics_dir@ == env_or(*unics_dir, "/etc/unicos/unics"@)
                    &&& got.paths.god_log@ == env_or(*god_log, "/var/lib/unicos/god.log"@)
                },
                ConfigFile::Unreadable(e) => r == Err::<Config, UnicError>(UnicError::Io(e)),
                ConfigFile::Malformed(e) => r == Err::<Config, UnicError>(UnicError::TomlDe(e)),
            },
    {
        let mut cfg = match file {
            ConfigFile::Read(cfg) => cfg,
            ConfigFile::Missing => Config::default(),
            ConfigFile::Unreadable(e) => {
                return Err(UnicError::Io(e));
            },
            ConfigFile::Malformed(e) => {
                return Err(UnicError::TomlDe(e));
            },
        };
        cfg.apply_env_overrides(unics_dir, god_log);
        Ok(cfg)
    }
}

/// Who answers for the agents.
#[derive(Debug)]
pub enum ProviderChoice {
    /// Fixed rules.
    Rules,
    /// A `/responses` server.
    Responses(ResponsesProvider),
}

/// Whether `choice` is what the setup asks for: a `/responses` server where it is named and
/// described, and fixed rules otherwise.
pub open spec fn chooses(llm: Option<LlmConfig>, choice: ProviderChoice) -> bool {
    if llm is Some && llm->0.provider@ == "responses"@ && llm->0.responses is Some {
        let r = llm->0.responses->0;
        &&& choice matches ProviderChoice::Responses(p)
        &&& p.base_url@ == r.base_url@
        &&& p.api_key_env@ == r.api_key_env@
        &&& p.api_key == r.api_key
        &&& p.model@ == llm->0.model@
        &&& p.timeout_ms == match r.timeout_ms {
            Some(t) => t,
            None => 60_000,
        }
        &&& p.max_retries == match r.retries {
            Some(n) => n,
            None => 2,
        }
    } else {
        choice is Rules
    }
}

/// Who answers for the agents.
pub fn choose_provider(llm: &Option<LlmConfig>) -> (r: ProviderChoice)
    ensures
        chooses(*llm, r),
{
    match llm {
        Some(llm) => {
            if !same(llm.provider.as_str(), "responses") {
                return ProviderChoice::Rules;
            }
            match &llm.responses {
                Some(r) => {
                    let api_key = match &r.api_key {
                        Some(k) => Some(k.clone()),
                        None => None,
                    };
                    let mut p = ResponsesProvider::new(
                        r.base_url.as_str(),
                        r.api_key_env.as_str(),
                        api_key,
                        llm.model.as_str(),
                    );
                    match r.timeout_ms {
                        Some(t) => {
                            p.timeout_ms = t;
                        },
                        None => {},
                    }
                    match r.retries {
                        Some(n) => {
                            p.max_retries = n;
                        },
                        None => {},
                    }
                    ProviderChoice::Responses(p)
                },
                None => ProviderChoice::Rules,
            }
        },
        None => ProviderChoice::Rules,
    }
}

/// A variable that is missing or blank overrides nothing.
pub proof fn law_blank_overrides_nothing(value: Option<String>, path: Seq<char>)
    requires
        value matches Some(v) ==> blank(v@),
    ensures
        env_or(value, path) == path,
{
}

/// Overriding a second time by the same variable changes nothing.
pub proof fn law_overriding_twice_is_overriding_once(value: Option<String>, path: Seq<char>)
    ensures
        env_or(value, env_or(value, path)) == env_or(value, path),
{
}

/// Who is set up to answer does answer: a `/responses` server is asked just where it is named and
/// described, at its address, with its key and for its model, for as long and as often as is set
/// up; otherwise the rules answer.
pub proof fn law_the_setup_chooses_who_answers(
    llm: Option<LlmConfig>,
    choice: ProviderChoice,
)
    requires
        call_ensures(choose_provider, (&llm,), choice),
    ensures
        choice is Responses <==> llm is Some && llm->0.provider@ == "responses"@
            && llm->0.responses is Some,
        choice matches ProviderChoice::Responses(p) ==> {
            let set = llm->0.responses->0;
            &&& p.base_url@ == set.base_url@
            &&& p.api_key_env@ == set.api_key_env@
            &&& p.api_key == set.api_key
            &&& p.model@ == llm->0.model@
            &&& set.timeout_ms is Some ==> p.timeout_ms == set.timeout_ms->0
            &&& set.timeout_ms is None ==> p.timeout_ms == 60_000
            &&& set.retries is Some ==> p.max_retries == set.retries->0
            &&& set.retries is None ==> p.max_retries == 2
        },
{
}

/// What a file of the setup says holds, but for the paths that the environment names; where there
/// is no file the built-in setup holds; and a file that cannot be read or understood is an error,
/// with the reason.
pub proof fn law_the_file_of_the_setup_holds(
    file: ConfigFile,
    dir: Option<String>,
    log: Option<String>,
    r: Result<Config, UnicError>,
)
    requires
        call_ensures(Config::load_or_default, (file, &dir, &log), r),
    ensures
        file matches ConfigFile::Read(cfg) ==> {
            &&& r matches Ok(got)
            &&& got.agent == cfg.agent
            &&& got.bus == cfg.bus
            &&& got.llm == cfg.llm
            &&& got.daemon == cfg.daemon
            &&& dir is None ==> got.paths.unics_dir@ == cfg.paths.unics_dir@
            &&& log is None ==> got.paths.god_log@ == cfg.paths.god_log@
            &&& dir is Some && !blank(dir->0@) ==> got.paths.unics_dir@ == crate::text::trimmed(
                dir->0@,
            )
            &&& log is Some && !blank(log->0@) ==> got.paths.god_log@ == crate::text::trimmed(
                log->0@,
            )
        },
        file is Missing ==> {
            &&& r matches Ok(got)
            &&& got.agent.perception_window == 40
            &&& got.agent.default_topics@.len() == 1
            &&& got.agent.default_topics@[0]@ == "#general"@
            &&& got.agent.tools_enabled
            &&& got.bus.capacity == 1024
            &&& got.llm is None
            &&& got.daemon.socket_path@ == "/tmp/unicos.sock"@
            &&& dir is None ==> got.paths.unics_dir@ == "/etc/unicos/unics"@
            &&& log is None ==> got.paths.god_log@ == "/var/lib/unicos/god.log"@
        },
        file matches ConfigFile::Unreadable(e) ==> r == Err::<Config, UnicError>(UnicError::Io(e)),
        file matches ConfigFile::Malformed(e) ==> r == Err::<Config, UnicError>(
            UnicError::TomlDe(e),
        ),
{
    if file is Missing {
        let got = r->Ok_0;
        assert(texts(got.agent.default_topics@).len() == got.agent.default_topics@.len());
        assert(texts(got.agent.default_topics@)[0] == got.agent.default_topics@[0]@);
    }
}

} // verus!
